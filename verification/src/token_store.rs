//! One-time registration tokens.
//!
//! [`TokenStore`] owns the outstanding [`UserRegStage`] rows. A token
//! is issued for a hashed card identifier and is later redeemed by
//! presenting the short prefix of that hash; redemption looks the
//! token up and removes it in one step, so a token can be redeemed at
//! most once.
//!
//! Because redemption is keyed by the short prefix, the store keeps
//! prefixes of outstanding tokens unique: issuance is rejected when
//! the new hash's prefix collides with an outstanding token's prefix.

use vstd::prelude::*;
use vstd::string::StrSliceExecFns;

use crate::errors::QuestError;
use crate::ids::fresh_id;
use crate::models::{valid_hash, token_matches, UserRegStage, TOKEN_LEN};
use crate::user_store::{users_contain_hash, UserStore};

verus! {

/// Whether some token in `tokens` is selected by `prefix`.
pub open spec fn has_match(tokens: Seq<UserRegStage>, prefix: Seq<char>) -> bool {
    exists|i: int| 0 <= i < tokens.len() && token_matches(#[trigger] tokens[i].hash@, prefix)
}

/// Whether some token in `tokens` shares its redemption prefix with
/// the hash `h`.
pub open spec fn prefix_taken(tokens: Seq<UserRegStage>, h: Seq<char>) -> bool {
    exists|i: int|
        0 <= i < tokens.len() && (#[trigger] tokens[i].hash@).take(TOKEN_LEN as int) == h.take(
            TOKEN_LEN as int,
        )
}

/// Invariants of the token store: every outstanding token carries a
/// well-formed hash, and no two outstanding tokens share a
/// redemption prefix.
pub open spec fn tokens_wf(tokens: Seq<UserRegStage>) -> bool {
    &&& forall|i: int| 0 <= i < tokens.len() ==> valid_hash(#[trigger] tokens[i].hash@)
    &&& forall|i: int, j: int|
        0 <= i < tokens.len() && 0 <= j < tokens.len() && i != j ==> (
        #[trigger] tokens[i].hash@).take(TOKEN_LEN as int) != (#[trigger] tokens[j].hash@).take(
            TOKEN_LEN as int,
        )
}

/// Compare the first [`TOKEN_LEN`] characters of two strings.
fn prefix_eq(a: &str, b: &str) -> (r: bool)
    requires
        a@.len() >= TOKEN_LEN,
        b@.len() >= TOKEN_LEN,
    ensures
        r == (a@.take(TOKEN_LEN as int) == b@.take(TOKEN_LEN as int)),
{
    let mut i: usize = 0;
    while i < TOKEN_LEN
        invariant
            a@.len() >= TOKEN_LEN,
            b@.len() >= TOKEN_LEN,
            0 <= i <= TOKEN_LEN,
            forall|j: int| 0 <= j < i ==> a@[j] == b@[j],
        decreases TOKEN_LEN - i,
    {
        if a.get_char(i) != b.get_char(i) {
            proof {
                assert(a@.take(TOKEN_LEN as int)[i as int] != b@.take(TOKEN_LEN as int)[i as int]);
            }
            return false;
        }
        i = i + 1;
    }
    proof {
        assert(a@.take(TOKEN_LEN as int) =~= b@.take(TOKEN_LEN as int));
    }
    true
}

/// Removing a matching token removes every match: under the store's
/// prefix-uniqueness invariant, at most one outstanding token is
/// selected by a given prefix, so once it is taken no further
/// redemption with that prefix can find a token.
pub proof fn lemma_redeem_single_use(tokens: Seq<UserRegStage>, i: int, prefix: Seq<char>)
    requires
        tokens_wf(tokens),
        0 <= i < tokens.len(),
        token_matches(tokens[i].hash@, prefix),
    ensures
        !has_match(tokens.remove(i), prefix),
{
    let rest = tokens.remove(i);
    assert forall|j: int| 0 <= j < rest.len() implies !token_matches(rest[j].hash@, prefix) by {
        if j < i {
            assert(rest[j] == tokens[j]);
            assert(tokens[j].hash@.take(TOKEN_LEN as int) != tokens[i].hash@.take(TOKEN_LEN as int));
        } else {
            assert(rest[j] == tokens[j + 1]);
            assert(tokens[j + 1].hash@.take(TOKEN_LEN as int) != tokens[i].hash@.take(
                TOKEN_LEN as int,
            ));
        }
    }
}

/// Hash uniqueness at issuance: once a token for the hash `h` is
/// outstanding, the store reports `h`'s prefix as taken, so a second
/// issuance for `h` (or for any hash sharing its prefix) is rejected
/// until the token is redeemed.
pub proof fn lemma_issue_blocks_reissue(tokens: Seq<UserRegStage>, t: UserRegStage, h: Seq<char>)
    requires
        t.hash@ == h,
    ensures
        prefix_taken(tokens.push(t), h),
{
    let s = tokens.push(t);
    assert(s[tokens.len() as int] == t);
    assert(s[tokens.len() as int].hash@.take(TOKEN_LEN as int) == h.take(TOKEN_LEN as int));
}

/// Pushing a token whose prefix is not yet taken preserves the
/// store's invariants.
proof fn lemma_tokens_wf_push(tokens: Seq<UserRegStage>, t: UserRegStage)
    requires
        tokens_wf(tokens),
        valid_hash(t.hash@),
        !prefix_taken(tokens, t.hash@),
    ensures
        tokens_wf(tokens.push(t)),
{
    let s = tokens.push(t);
    assert forall|i: int| 0 <= i < s.len() implies valid_hash(#[trigger] s[i].hash@) by {
        if i < tokens.len() {
            assert(s[i] == tokens[i]);
        } else {
            assert(s[i] == t);
        }
    }
    assert forall|i: int, j: int|
        0 <= i < s.len() && 0 <= j < s.len() && i != j implies (#[trigger] s[i].hash@).take(
        TOKEN_LEN as int,
    ) != (#[trigger] s[j].hash@).take(TOKEN_LEN as int) by {
        if i < tokens.len() && j < tokens.len() {
            assert(s[i] == tokens[i] && s[j] == tokens[j]);
        } else if i < tokens.len() {
            assert(s[j] == t && s[i] == tokens[i]);
        } else {
            assert(s[i] == t && s[j] == tokens[j]);
        }
    }
}

/// Removing a token preserves the store's invariants.
proof fn lemma_tokens_wf_remove(tokens: Seq<UserRegStage>, i: int)
    requires
        tokens_wf(tokens),
        0 <= i < tokens.len(),
    ensures
        tokens_wf(tokens.remove(i)),
{
    let s = tokens.remove(i);
    assert forall|a: int| 0 <= a < s.len() implies valid_hash(#[trigger] s[a].hash@) by {
        if a < i {
            assert(s[a] == tokens[a]);
        } else {
            assert(s[a] == tokens[a + 1]);
        }
    }
    assert forall|a: int, b: int|
        0 <= a < s.len() && 0 <= b < s.len() && a != b implies (#[trigger] s[a].hash@).take(
        TOKEN_LEN as int,
    ) != (#[trigger] s[b].hash@).take(TOKEN_LEN as int) by {
        let a0: int = if a < i { a } else { a + 1 };
        let b0: int = if b < i { b } else { b + 1 };
        assert(s[a] == tokens[a0] && s[b] == tokens[b0]);
        assert(tokens[a0].hash@.take(TOKEN_LEN as int) != tokens[b0].hash@.take(TOKEN_LEN as int));
    }
}

/// Persistent registry of outstanding one-time registration tokens.
pub struct TokenStore {
    tokens: Vec<UserRegStage>,
}

impl View for TokenStore {
    type V = Seq<UserRegStage>;

    closed spec fn view(&self) -> Seq<UserRegStage> {
        self.tokens@
    }
}

impl TokenStore {
    /// The store's invariants hold.
    pub open spec fn wf(&self) -> bool {
        tokens_wf(self@)
    }

    /// An empty token store.
    pub fn new() -> (r: TokenStore)
        ensures
            r@ =~= Seq::<UserRegStage>::empty(),
            r.wf(),
    {
        TokenStore { tokens: Vec::new() }
    }

    /// Number of outstanding tokens.
    pub fn len(&self) -> (r: usize)
        ensures
            r == self@.len(),
    {
        self.tokens.len()
    }

    /// Whether the redemption prefix of `card_hash` collides with an
    /// outstanding token.
    fn prefix_taken_exec(&self, card_hash: &String) -> (r: bool)
        requires
            self.wf(),
            valid_hash(card_hash@),
        ensures
            r == prefix_taken(self@, card_hash@),
    {
        let n = self.tokens.len();
        let mut i: usize = 0;
        while i < n
            invariant
                self.wf(),
                valid_hash(card_hash@),
                n == self@.len(),
                0 <= i <= n,
                forall|j: int|
                    0 <= j < i ==> (#[trigger] self@[j].hash@).take(TOKEN_LEN as int)
                        != card_hash@.take(TOKEN_LEN as int),
            decreases n - i,
        {
            proof {
                assert(valid_hash(self@[i as int].hash@));
            }
            if prefix_eq(self.tokens[i].hash.as_str(), card_hash.as_str()) {
                return true;
            }
            i = i + 1;
        }
        false
    }

    /// Issue a one-time registration token for `card_hash`.
    ///
    /// The hash must be well formed (`InvalidInput` otherwise, checked
    /// before any store access). Issuance is rejected with
    /// `AlreadyExists` when an account already holds this card hash,
    /// or when an outstanding token's redemption prefix collides with
    /// it — in particular, a second issuance for the same unredeemed
    /// hash. On success a fresh opaque account id is reserved and
    /// exactly the returned token is appended to the store.
    pub fn issue(&mut self, users: &UserStore, card_hash: &String) -> (r: Result<
        UserRegStage,
        QuestError,
    >)
        requires
            old(self).wf(),
        ensures
            final(self).wf(),
            !valid_hash(card_hash@) ==> r == Err::<UserRegStage, QuestError>(
                QuestError::InvalidInput,
            ) && final(self)@ == old(self)@,
            valid_hash(card_hash@) && users_contain_hash(users@, card_hash@) ==> r == Err::<
                UserRegStage,
                QuestError,
            >(QuestError::AlreadyExists) && final(self)@ == old(self)@,
            valid_hash(card_hash@) && !users_contain_hash(users@, card_hash@) && prefix_taken(
                old(self)@,
                card_hash@,
            ) ==> r == Err::<UserRegStage, QuestError>(QuestError::AlreadyExists) && final(self)@
                == old(self)@,
            valid_hash(card_hash@) && !users_contain_hash(users@, card_hash@) && !prefix_taken(
                old(self)@,
                card_hash@,
            ) ==> r is Ok,
            r matches Ok(t) ==> t.hash@ == card_hash@ && final(self)@ == old(self)@.push(t),
    {
        if !crate::models::check_valid_hash(card_hash.as_str()) {
            return Err(QuestError::InvalidInput);
        }
        if users.exists_by_hash(card_hash) {
            return Err(QuestError::AlreadyExists);
        }
        if self.prefix_taken_exec(card_hash) {
            return Err(QuestError::AlreadyExists);
        }
        let id = fresh_id();
        let tok = UserRegStage { id, hash: card_hash.clone() };
        proof {
            lemma_tokens_wf_push(self@, tok);
        }
        self.tokens.push(tok);
        Ok(UserRegStage { id, hash: card_hash.clone() })
    }

    /// Redeem the token selected by an 8-character prefix.
    ///
    /// Rejects a prefix of the wrong length with `InvalidInput` before
    /// touching the store. Otherwise looks the unique matching token
    /// up and removes it as one step, returning it; when no
    /// outstanding token matches — never issued, or already redeemed —
    /// the store is unchanged and the result is `NotFound`. After a
    /// successful redemption no outstanding token matches the prefix,
    /// so a concurrent retry of the same prefix is rejected.
    pub fn redeem(&mut self, prefix: &String) -> (r: Result<UserRegStage, QuestError>)
        requires
            old(self).wf(),
        ensures
            final(self).wf(),
            prefix@.len() != TOKEN_LEN ==> r == Err::<UserRegStage, QuestError>(
                QuestError::InvalidInput,
            ) && final(self)@ == old(self)@,
            prefix@.len() == TOKEN_LEN && !has_match(old(self)@, prefix@) ==> r == Err::<
                UserRegStage,
                QuestError,
            >(QuestError::NotFound) && final(self)@ == old(self)@,
            prefix@.len() == TOKEN_LEN && has_match(old(self)@, prefix@) ==> r is Ok,
            r matches Ok(t) ==> exists|i: int|
                0 <= i < old(self)@.len() && t == (#[trigger] old(self)@[i]) && token_matches(
                    t.hash@,
                    prefix@,
                ) && final(self)@ == old(self)@.remove(i),
            r is Ok ==> !has_match(final(self)@, prefix@),
    {
        let plen = prefix.as_str().unicode_len();
        if plen != TOKEN_LEN {
            return Err(QuestError::InvalidInput);
        }
        let n = self.tokens.len();
        let mut i: usize = 0;
        while i < n
            invariant
                self@ == old(self)@,
                old(self).wf(),
                prefix@.len() == TOKEN_LEN,
                n == self@.len(),
                0 <= i <= n,
                forall|j: int|
                    0 <= j < i ==> !token_matches(#[trigger] self@[j].hash@, prefix@),
            decreases n - i,
        {
            proof {
                assert(valid_hash(self@[i as int].hash@));
            }
            if prefix_eq(self.tokens[i].hash.as_str(), prefix.as_str()) {
                proof {
                    assert(prefix@.take(TOKEN_LEN as int) =~= prefix@);
                    assert(token_matches(self@[i as int].hash@, prefix@));
                    lemma_redeem_single_use(self@, i as int, prefix@);
                    lemma_tokens_wf_remove(self@, i as int);
                }
                let tok = self.tokens.remove(i);
                return Ok(tok);
            }
            proof {
                assert(prefix@.take(TOKEN_LEN as int) =~= prefix@);
            }
            i = i + 1;
        }
        proof {
            assert(!has_match(self@, prefix@));
        }
        Err(QuestError::NotFound)
    }
}

} // verus!
