//! Persistent records of the onboarding workflow and the validity
//! rules for hashed card identifiers.

use vstd::prelude::*;

verus! {

/// Number of characters of a full hashed card identifier.
pub const HASH_LEN: usize = 64;

/// Number of leading characters of the hash that form the short
/// registration token shown to the participant.
pub const TOKEN_LEN: usize = 8;

/// An outstanding one-time registration token: the hashed card
/// identifier it was issued for, together with the opaque account
/// identifier reserved for it.
#[derive(Debug, Clone, PartialEq, Eq)]
pub struct UserRegStage {
    /// Account identifier reserved for this token.
    pub id: u128,
    /// Full 64-character hexadecimal card hash.
    pub hash: String,
}

/// A committed account.
#[derive(Debug, Clone, PartialEq, Eq)]
pub struct User {
    /// Full 64-character hexadecimal card hash, unique across users.
    pub card_hash: String,
    /// Opaque unique account identifier.
    pub id: u128,
    /// Chosen display name, unique across users.
    pub username: String,
}

/// Whether `c` is a hexadecimal digit.
pub open spec fn is_hex_char(c: char) -> bool {
    ('0' <= c && c <= '9') || ('a' <= c && c <= 'f') || ('A' <= c && c <= 'F')
}

/// Whether `s` is a well-formed hashed card identifier: exactly
/// [`HASH_LEN`] characters, all hexadecimal digits.
pub open spec fn valid_hash(s: Seq<char>) -> bool {
    s.len() == HASH_LEN && forall|i: int| 0 <= i < s.len() ==> is_hex_char(#[trigger] s[i])
}

/// Whether the token `prefix` selects a token whose hash is `hash`:
/// the prefix has the published token length and the hash starts
/// with it.
pub open spec fn token_matches(hash: Seq<char>, prefix: Seq<char>) -> bool {
    prefix.len() == TOKEN_LEN && hash.len() >= TOKEN_LEN && hash.take(TOKEN_LEN as int) == prefix
}

/// Exec check that `c` is a hexadecimal digit.
pub fn check_hex_char(c: char) -> (r: bool)
    ensures
        r == is_hex_char(c),
{
    ('0' <= c && c <= '9') || ('a' <= c && c <= 'f') || ('A' <= c && c <= 'F')
}

/// Exec check that `s` is a well-formed hashed card identifier.
pub fn check_valid_hash(s: &str) -> (r: bool)
    ensures
        r == valid_hash(s@),
{
    let len = s.unicode_len();
    if len != HASH_LEN {
        return false;
    }
    let mut i: usize = 0;
    while i < len
        invariant
            len == s@.len(),
            0 <= i <= len,
            forall|j: int| 0 <= j < i ==> is_hex_char(#[trigger] s@[j]),
        decreases len - i,
    {
        let c = s.get_char(i);
        if !check_hex_char(c) {
            return false;
        }
        i = i + 1;
    }
    true
}

/// A well-formed hash consists of ASCII characters only, so its
/// character-based prefix can be sliced out of the underlying bytes.
pub proof fn lemma_valid_hash_is_ascii(s: Seq<char>)
    requires
        valid_hash(s),
    ensures
        vstd::utf8::is_ascii_chars(s),
{
    assert forall|i: int| 0 <= i < s.len() implies '\0' <= #[trigger] s[i] <= '\u{7f}' by {
        assert(is_hex_char(s[i]));
    }
}

} // verus!
