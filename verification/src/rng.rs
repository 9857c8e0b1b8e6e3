//! Random draws for question selection.

use vstd::prelude::*;

verus! {

/// Draw a uniformly random index below `n`.
///
/// Relies on rand's `Rng::gen_range` over the range `0..n`, backed by
/// the operating system's randomness (`rand::rngs::OsRng`):
/// `gen_range` panics on an empty range — excluded by the
/// precondition — and otherwise returns a value inside the range.
/// Which value comes back is not promised; each call is an
/// independent draw.
#[verifier::external_body]
pub(crate) fn random_below(n: usize) -> (r: usize)
    requires
        n > 0,
    ensures
        r < n,
{
    rand::Rng::gen_range(&mut rand::rngs::OsRng, 0..n)
}

} // verus!
