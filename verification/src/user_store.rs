//! Canonical account registry.
//!
//! [`UserStore`] owns the committed [`User`] records and enforces the
//! registry's uniqueness invariants: account ids, card hashes, and
//! usernames are each unique across all users.

use vstd::prelude::*;

use crate::errors::QuestError;
use crate::models::User;

verus! {

/// Whether some user in `users` carries the card hash `h`.
pub open spec fn users_contain_hash(users: Seq<User>, h: Seq<char>) -> bool {
    exists|i: int| 0 <= i < users.len() && #[trigger] users[i].card_hash@ == h
}

/// Whether some user in `users` carries the username `name`.
pub open spec fn users_contain_username(users: Seq<User>, name: Seq<char>) -> bool {
    exists|i: int| 0 <= i < users.len() && #[trigger] users[i].username@ == name
}

/// Whether some user in `users` has the account id `id`.
pub open spec fn users_contain_id(users: Seq<User>, id: u128) -> bool {
    exists|i: int| 0 <= i < users.len() && #[trigger] users[i].id == id
}

/// Uniqueness invariants of the account registry: no two users share
/// an id, a card hash, or a username.
pub open spec fn users_wf(users: Seq<User>) -> bool {
    forall|i: int, j: int|
        0 <= i < users.len() && 0 <= j < users.len() && i != j ==> {
            &&& (#[trigger] users[i]).id != (#[trigger] users[j]).id
            &&& users[i].card_hash@ != users[j].card_hash@
            &&& users[i].username@ != users[j].username@
        }
}

/// Whether a new row `(id, hash, name)` would violate a uniqueness
/// invariant of `users`.
pub open spec fn create_conflict(users: Seq<User>, id: u128, hash: Seq<char>, name: Seq<char>) -> bool {
    users_contain_id(users, id) || users_contain_hash(users, hash) || users_contain_username(
        users,
        name,
    )
}

/// Persistent account registry. Accounts are created exactly once and
/// are immutable thereafter.
pub struct UserStore {
    users: Vec<User>,
}

impl View for UserStore {
    type V = Seq<User>;

    closed spec fn view(&self) -> Seq<User> {
        self.users@
    }
}

impl UserStore {
    /// The registry's invariants hold.
    pub open spec fn wf(&self) -> bool {
        users_wf(self@)
    }

    /// An empty registry.
    pub fn new() -> (r: UserStore)
        ensures
            r@ =~= Seq::<User>::empty(),
            r.wf(),
    {
        UserStore { users: Vec::new() }
    }

    /// Number of committed accounts.
    pub fn len(&self) -> (r: usize)
        ensures
            r == self@.len(),
    {
        self.users.len()
    }

    /// Whether an account with this username exists.
    pub fn exists_by_username(&self, name: &String) -> (r: bool)
        ensures
            r == users_contain_username(self@, name@),
    {
        let n = self.users.len();
        let mut i: usize = 0;
        while i < n
            invariant
                n == self@.len(),
                0 <= i <= n,
                forall|j: int| 0 <= j < i ==> #[trigger] self@[j].username@ != name@,
            decreases n - i,
        {
            if self.users[i].username == *name {
                return true;
            }
            i = i + 1;
        }
        false
    }

    /// Whether an account with this card hash exists.
    pub fn exists_by_hash(&self, hash: &String) -> (r: bool)
        ensures
            r == users_contain_hash(self@, hash@),
    {
        let n = self.users.len();
        let mut i: usize = 0;
        while i < n
            invariant
                n == self@.len(),
                0 <= i <= n,
                forall|j: int| 0 <= j < i ==> #[trigger] self@[j].card_hash@ != hash@,
            decreases n - i,
        {
            if self.users[i].card_hash == *hash {
                return true;
            }
            i = i + 1;
        }
        false
    }

    /// Look an account up by its id.
    ///
    /// Returns the unique matching account, or `NotFound` when no
    /// account has this id.
    pub fn get(&self, id: u128) -> (r: Result<User, QuestError>)
        ensures
            r is Ok <==> users_contain_id(self@, id),
            r matches Ok(u) ==> exists|i: int|
                0 <= i < self@.len() && #[trigger] self@[i].id == id && u == self@[i],
            r matches Err(e) ==> e == QuestError::NotFound,
    {
        let n = self.users.len();
        let mut i: usize = 0;
        while i < n
            invariant
                n == self@.len(),
                0 <= i <= n,
                forall|j: int| 0 <= j < i ==> #[trigger] self@[j].id != id,
            decreases n - i,
        {
            let found = &self.users[i];
            if found.id == id {
                return Ok(
                    User {
                        card_hash: found.card_hash.clone(),
                        id: found.id,
                        username: found.username.clone(),
                    },
                );
            }
            i = i + 1;
        }
        Err(QuestError::NotFound)
    }

    /// Commit a new account.
    ///
    /// Fails with `AlreadyExists`, leaving the registry unchanged, if
    /// and only if the id, the card hash, or the username is already
    /// taken; otherwise appends exactly one row carrying the given
    /// values.
    pub fn create(&mut self, id: u128, card_hash: &String, username: &String) -> (r: Result<
        (),
        QuestError,
    >)
        requires
            old(self).wf(),
        ensures
            final(self).wf(),
            r is Err <==> create_conflict(old(self)@, id, card_hash@, username@),
            r matches Err(e) ==> e == QuestError::AlreadyExists && final(self)@ == old(self)@,
            r is Ok ==> exists|u: User|
                (#[trigger] u.id) == id && u.card_hash@ == card_hash@ && u.username@ == username@
                    && final(self)@ == old(self)@.push(u),
    {
        let n = self.users.len();
        let mut i: usize = 0;
        while i < n
            invariant
                self@ == old(self)@,
                old(self).wf(),
                n == self@.len(),
                0 <= i <= n,
                forall|j: int| 0 <= j < i ==> {
                    &&& (#[trigger] self@[j]).id != id
                    &&& self@[j].card_hash@ != card_hash@
                    &&& self@[j].username@ != username@
                },
            decreases n - i,
        {
            let row = &self.users[i];
            if row.id == id || row.card_hash == *card_hash || row.username == *username {
                return Err(QuestError::AlreadyExists);
            }
            i = i + 1;
        }
        let user = User { card_hash: card_hash.clone(), id, username: username.clone() };
        proof {
            let pre = self@;
            let s = pre.push(user);
            assert forall|a: int, b: int|
                0 <= a < s.len() && 0 <= b < s.len() && a != b implies (s[a].id != s[b].id
                && s[a].card_hash@ != s[b].card_hash@ && s[a].username@ != s[b].username@) by {
                if a < pre.len() {
                    assert(s[a] == pre[a]);
                } else {
                    assert(s[a] == user);
                }
                if b < pre.len() {
                    assert(s[b] == pre[b]);
                } else {
                    assert(s[b] == user);
                }
            }
            assert(users_wf(s));
            assert(user.id == id && user.card_hash@ == card_hash@ && user.username@ == username@);
        }
        self.users.push(user);
        Ok(())
    }
}

} // verus!
