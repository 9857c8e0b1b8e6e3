//! Minting of opaque account and question-instance identifiers.

use vstd::prelude::*;

verus! {

/// Mints a fresh opaque 128-bit identifier.
///
/// Relies on `uuid::Uuid::new_v4`, which draws a version-4 UUID from
/// the operating system's randomness; nothing is promised about the
/// value, and callers must hold for every outcome.
#[verifier::external_body]
pub(crate) fn fresh_id() -> u128 {
    uuid::Uuid::new_v4().as_u128()
}

} // verus!
