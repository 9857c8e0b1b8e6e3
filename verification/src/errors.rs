//! Error taxonomy of the onboarding and quiz core.

use vstd::prelude::*;

verus! {

/// Failure classes surfaced by the core.
///
/// Validation failures (`InvalidInput`) are reported before any store
/// is touched; uniqueness conflicts (`AlreadyExists`) are surfaced to
/// the caller for correction; `PersistenceFailure` stands for a commit
/// that could not be completed after validation passed.
#[derive(Clone, Copy, Debug, PartialEq, Eq, Structural)]
pub enum QuestError {
    /// Unknown id, token, category, or question instance.
    NotFound,
    /// Duplicate card hash, username, account id, or token prefix.
    AlreadyExists,
    /// Malformed hash or token (wrong length or non-hex characters).
    InvalidInput,
    /// The category exists but holds no questions.
    EmptyCategory,
    /// The store refused a commit that validation did not predict.
    PersistenceFailure,
    /// Any failure not otherwise classified.
    Unknown,
}

} // verus!
