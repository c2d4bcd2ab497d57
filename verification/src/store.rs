//! A model of the resource store at its contract: one table of user
//! records keyed by the identifier, uniqueness enforced by the store. The
//! request handlers are verified against this model; the running service
//! keeps the same records in its database behind the same interface.

use vstd::prelude::*;
use crate::update::{AssignmentV, UpdateColumn, UpdateCommand};

verus! {

/// One user record: the opaque unique key, the required username, the
/// optional email.
#[derive(Debug)]
pub struct User {
    pub user_id: u128,
    pub username: String,
    pub email: Option<String>,
}

/// Ghost image of a record.
pub ghost struct UserV {
    pub id: u128,
    pub name: Seq<char>,
    pub email: Option<Seq<char>>,
}

impl View for User {
    type V = UserV;

    open spec fn view(&self) -> UserV {
        UserV {
            id: self.user_id,
            name: self.username@,
            email: match self.email {
                Some(e) => Some(e@),
                None => None,
            },
        }
    }
}

impl Clone for User {
    fn clone(&self) -> (r: User)
        ensures
            r@ == self@,
    {
        User {
            user_id: self.user_id,
            username: self.username.clone(),
            email: match &self.email {
                Some(e) => Some(e.clone()),
                None => None,
            },
        }
    }
}

/// No two records share an identifier.
pub open spec fn distinct_ids(s: Seq<UserV>) -> bool {
    forall|i: int, j: int| 0 <= i < j < s.len() ==> s[i].id != s[j].id
}

/// Some record carries the identifier.
pub open spec fn has_user(s: Seq<UserV>, id: u128) -> bool {
    exists|i: int| 0 <= i < s.len() && s[i].id == id
}

/// The position of the record with the identifier; meaningful only where
/// `has_user` holds.
pub open spec fn index_of(s: Seq<UserV>, id: u128) -> int {
    choose|i: int| 0 <= i < s.len() && s[i].id == id
}

/// The record with the identifier; meaningful only where `has_user` holds.
pub open spec fn user_of(s: Seq<UserV>, id: u128) -> UserV {
    s[index_of(s, id)]
}

/// One assignment applied to a record: the identifier is never assigned.
pub open spec fn apply_one(u: UserV, a: AssignmentV) -> UserV {
    match a.column {
        UpdateColumn::Username => UserV { name: a.value, ..u },
        UpdateColumn::Email => UserV { email: Some(a.value), ..u },
    }
}

/// A whole assignment list applied in order.
pub open spec fn apply_all(u: UserV, asgs: Seq<AssignmentV>) -> UserV
    decreases asgs.len(),
{
    if asgs.len() == 0 {
        u
    } else {
        apply_all(apply_one(u, asgs[0]), asgs.drop_first())
    }
}

/// Assignments change the name and the email only, never the key.
pub proof fn lemma_apply_keeps_id(u: UserV, asgs: Seq<AssignmentV>)
    ensures
        apply_all(u, asgs).id == u.id,
    decreases asgs.len(),
{
    if asgs.len() > 0 {
        lemma_apply_keeps_id(apply_one(u, asgs[0]), asgs.drop_first());
    }
}

/// Appending one assignment applies it after the rest.
pub proof fn lemma_apply_all_snoc(u: UserV, s: Seq<AssignmentV>, a: AssignmentV)
    ensures
        apply_all(u, s.push(a)) == apply_one(apply_all(u, s), a),
    decreases s.len(),
{
    if s.len() == 0 {
        assert(s.push(a)[0] == a);
        assert(s.push(a).drop_first() =~= Seq::<AssignmentV>::empty());
        assert(apply_all(apply_one(u, a), Seq::<AssignmentV>::empty()) == apply_one(u, a));
        assert(apply_all(u, s) == u);
    } else {
        assert(s.push(a)[0] == s[0]);
        assert(s.push(a).drop_first() =~= s.drop_first().push(a));
        lemma_apply_all_snoc(apply_one(u, s[0]), s.drop_first(), a);
        assert(apply_all(u, s.push(a)) == apply_all(apply_one(u, s[0]), s.drop_first().push(a)));
        assert(apply_all(u, s) == apply_all(apply_one(u, s[0]), s.drop_first()));
    }
}

/// What the store reports for a creation.
#[derive(PartialEq, Eq, Structural, Clone, Copy, Debug)]
pub enum CreateOutcome {
    Created,
    /// The identifier is already taken: the uniqueness violation.
    AlreadyExists,
}

/// What the store reports for a partial update.
#[derive(Debug)]
pub enum UpdateOutcome {
    /// The row after the assignments were applied.
    Updated(User),
    NotFound,
}

/// What the store reports for a removal.
#[derive(Debug)]
pub enum RemoveOutcome {
    /// The row that was removed.
    Removed(User),
    NotFound,
}

/// The single table of user records, keyed by the identifier.
pub struct UserStore {
    pub users: Vec<User>,
}

impl View for UserStore {
    type V = Seq<UserV>;

    open spec fn view(&self) -> Seq<UserV> {
        self.users@.map_values(|u: User| u@)
    }
}

impl UserStore {
    /// The store's invariant: identifiers are unique.
    pub open spec fn wf(&self) -> bool {
        distinct_ids(self@)
    }

    /// An empty table.
    pub fn new() -> (r: UserStore)
        ensures
            r@ =~= Seq::<UserV>::empty(),
            r.wf(),
    {
        UserStore { users: Vec::new() }
    }

    /// Position of the record with the identifier, if any.
    fn index_for(&self, user_id: u128) -> (r: Option<usize>)
        requires
            self.wf(),
        ensures
            match r {
                Some(i) => i < self@.len() && self@[i as int].id == user_id && has_user(
                    self@,
                    user_id,
                ) && index_of(self@, user_id) == i,
                None => !has_user(self@, user_id),
            },
    {
        let n = self.users.len();
        let mut i: usize = 0;
        while i < n
            invariant
                n == self.users@.len(),
                self@.len() == self.users@.len(),
                i <= n,
                self.wf(),
                forall|j: int| 0 <= j < i ==> self@[j].id != user_id,
            decreases n - i,
        {
            if self.users[i].user_id == user_id {
                proof {
                    assert(self@[i as int].id == user_id);
                    let k = index_of(self@, user_id);
                    assert(0 <= k < self@.len() && self@[k].id == user_id);
                    assert(k == i);
                }
                return Some(i);
            }
            i = i + 1;
        }
        None
    }

    /// Reads the record with the identifier, if the table holds one.
    pub fn find_user(&self, user_id: u128) -> (r: Option<User>)
        requires
            self.wf(),
        ensures
            match r {
                Some(u) => has_user(self@, user_id) && u@ == user_of(self@, user_id),
                None => !has_user(self@, user_id),
            },
    {
        match self.index_for(user_id) {
            Some(i) => Some(self.users[i].clone()),
            None => None,
        }
    }

    /// Inserts a record; an identifier already present is the uniqueness
    /// violation, and the table is left as it was.
    pub fn create_user(&mut self, user: User) -> (r: CreateOutcome)
        requires
            old(self).wf(),
        ensures
            final(self).wf(),
            (r == CreateOutcome::AlreadyExists) <==> has_user(old(self)@, user@.id),
            r == CreateOutcome::AlreadyExists ==> final(self)@ == old(self)@,
            r == CreateOutcome::Created ==> final(self)@ =~= old(self)@.push(user@),
    {
        match self.index_for(user.user_id) {
            Some(_) => CreateOutcome::AlreadyExists,
            None => {
                let ghost before = self@;
                let ghost uv = user@;
                self.users.push(user);
                proof {
                    assert(self@ =~= before.push(uv));
                    assert forall|i: int, j: int| 0 <= i < j < self@.len() implies self@[i].id
                        != self@[j].id by {
                        if j == self@.len() - 1 {
                            assert(self@[i] == before[i]);
                            assert(!has_user(before, uv.id));
                        }
                    }
                }
                CreateOutcome::Created
            },
        }
    }

    /// Applies a partial-update command to the one record its filter
    /// names; a command for an absent identifier changes nothing.
    pub fn update_user(&mut self, cmd: &UpdateCommand) -> (r: UpdateOutcome)
        requires
            old(self).wf(),
        ensures
            final(self).wf(),
            (r is NotFound) <==> !has_user(old(self)@, cmd.user_id),
            r is NotFound ==> final(self)@ == old(self)@,
            r matches UpdateOutcome::Updated(u) ==> u@ == apply_all(
                user_of(old(self)@, cmd.user_id),
                cmd@.assignments,
            ) && u@.id == cmd.user_id && final(self)@ =~= old(self)@.update(
                index_of(old(self)@, cmd.user_id),
                u@,
            ),
    {
        let i = match self.index_for(cmd.user_id) {
            Some(i) => i,
            None => {
                return UpdateOutcome::NotFound;
            },
        };
        let ghost before = self@;
        let mut record = self.users[i].clone();
        let ghost orig = record@;
        proof {
            assert(orig == before[i as int]);
        }
        let n = cmd.assignments.len();
        let mut k: usize = 0;
        while k < n
            invariant
                n == cmd.assignments@.len(),
                k <= n,
                record@ == apply_all(orig, cmd@.assignments.take(k as int)),
            decreases n - k,
        {
            let ghost taken = cmd@.assignments.take(k as int);
            let a = &cmd.assignments[k];
            match a.column {
                UpdateColumn::Username => {
                    record.username = a.value.clone();
                },
                UpdateColumn::Email => {
                    record.email = Some(a.value.clone());
                },
            }
            proof {
                assert(cmd@.assignments.take(k + 1) =~= taken.push(cmd@.assignments[k as int]));
                lemma_apply_all_snoc(orig, taken, cmd@.assignments[k as int]);
                assert(record@ == apply_one(apply_all(orig, taken), cmd@.assignments[k as int]));
            }
            k = k + 1;
        }
        proof {
            assert(cmd@.assignments.take(n as int) =~= cmd@.assignments);
            lemma_apply_keeps_id(orig, cmd@.assignments);
        }
        let result = record.clone();
        let ghost newv = record@;
        self.users[i] = record;
        proof {
            assert forall|j: int| 0 <= j < self@.len() implies self@[j] == before.update(
                i as int,
                newv,
            )[j] by {}
            assert(self@ =~= before.update(i as int, newv));
        }
        UpdateOutcome::Updated(result)
    }

    /// Removes the record with the identifier; an absent identifier is
    /// `NotFound`, not a fault, and the table is left as it was. Either
    /// way the identifier is absent afterwards.
    pub fn remove_user(&mut self, user_id: u128) -> (r: RemoveOutcome)
        requires
            old(self).wf(),
        ensures
            final(self).wf(),
            (r is NotFound) <==> !has_user(old(self)@, user_id),
            r is NotFound ==> final(self)@ == old(self)@,
            r matches RemoveOutcome::Removed(u) ==> u@ == user_of(old(self)@, user_id)
                && final(self)@ =~= old(self)@.remove(index_of(old(self)@, user_id)),
            !has_user(final(self)@, user_id),
    {
        let i = match self.index_for(user_id) {
            Some(i) => i,
            None => {
                return RemoveOutcome::NotFound;
            },
        };
        let ghost before = self@;
        let ghost before_users = self.users@;
        let removed = self.users.remove(i);
        proof {
            assert(self@ =~= before.remove(i as int));
            assert forall|j: int| 0 <= j < self@.len() implies self@[j].id != user_id by {
                if j < i {
                    assert(self@[j] == before[j]);
                } else {
                    assert(self@[j] == before[j + 1]);
                }
            }
        }
        RemoveOutcome::Removed(removed)
    }
}

/// Classifies the store's native error signal: the uniqueness-violation
/// state, `23505`, is the one failure presented to the client as a
/// conflict; every other signal is an internal fault. The code, not the
/// message text, decides.
pub fn is_uniqueness_violation(code: &Option<String>) -> (r: bool)
    ensures
        r == (match code {
            Some(c) => c@ == "23505"@,
            None => false,
        }),
{
    match code {
        Some(c) => *c == String::from_str("23505"),
        None => false,
    }
}

/// Idempotent deletion: removing the one record with an identifier leaves
/// the identifier absent and the table well-formed, so a repeated deletion
/// reports `NotFound` rather than a fault.
pub proof fn lemma_remove_leaves_absent(s: Seq<UserV>, id: u128)
    requires
        distinct_ids(s),
        has_user(s, id),
    ensures
        !has_user(s.remove(index_of(s, id)), id),
        distinct_ids(s.remove(index_of(s, id))),
{
    let i = index_of(s, id);
    assert(0 <= i < s.len() && s[i].id == id);
    s.remove_ensures(i);
    let t = s.remove(i);
    assert forall|j: int| 0 <= j < t.len() implies t[j].id != id by {
        if j < i {
            assert(t[j] == s[j]);
        } else {
            assert(t[j] == s[j + 1]);
        }
    }
    assert forall|a: int, b: int| 0 <= a < b < t.len() implies t[a].id != t[b].id by {
        let a2 = if a < i { a } else { a + 1 };
        let b2 = if b < i { b } else { b + 1 };
        assert(t[a] == s[a2]);
        assert(t[b] == s[b2]);
        assert(a2 < b2);
    }
}

/// Round trip: pushing a fresh record onto a well-formed table makes its
/// identifier present, reading that identifier yields exactly the pushed
/// record, and the table stays well-formed.
pub proof fn lemma_create_then_find(s: Seq<UserV>, u: UserV)
    requires
        distinct_ids(s),
        !has_user(s, u.id),
    ensures
        has_user(s.push(u), u.id),
        user_of(s.push(u), u.id) == u,
        distinct_ids(s.push(u)),
{
    let s2 = s.push(u);
    assert(s2[s.len() as int] == u);
    assert(has_user(s2, u.id));
    let k = index_of(s2, u.id);
    assert(0 <= k < s2.len() && s2[k].id == u.id);
    if k < s.len() {
        assert(s2[k] == s[k]);
        assert(has_user(s, u.id));
    }
    assert forall|i: int, j: int| 0 <= i < j < s2.len() implies s2[i].id != s2[j].id by {
        if j == s.len() {
            assert(s2[i] == s[i]);
            assert(!has_user(s, u.id));
        }
    }
}

} // verus!
