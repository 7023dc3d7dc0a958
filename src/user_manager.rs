use std::collections::HashMap;
use vstd::prelude::*;
use crate::errors::ServiceError;
use crate::text::{decimal, decimal_text, is_valid_email, valid_email};

verus! {

broadcast use vstd::std_specs::hash::group_hash_axioms;

/// A user as mathematics.
pub struct UserRecord {
    pub id: u32,
    pub name: Seq<char>,
    pub email: Seq<char>,
    pub profile: Seq<char>,
}

/// A registered user. Every value handed out is an independent copy.
#[derive(Debug, Clone, PartialEq, Eq)]
pub struct User {
    pub id: u32,
    pub name: String,
    pub email: String,
    pub profile: String,
}

impl View for User {
    type V = UserRecord;

    open spec fn view(&self) -> UserRecord {
        UserRecord { id: self.id, name: self.name@, email: self.email@, profile: self.profile@ }
    }
}

impl User {
    /// An equal, independently owned user.
    pub fn snapshot(&self) -> (r: User)
        ensures
            r@ == self@,
    {
        User { id: self.id, name: self.name.clone(), email: self.email.clone(), profile: self.profile.clone() }
    }
}

/// The registry as mathematics: its users in the order of their ids, and the
/// id that the next user will get.
pub struct RegistryView {
    pub users: Seq<UserRecord>,
    pub next_id: nat,
}

impl RegistryView {
    /// Some user has id `id`.
    pub open spec fn has_id(self, id: u32) -> bool {
        exists|i: int| 0 <= i < self.users.len() && (#[trigger] self.users[i]).id == id
    }

    /// Some user has the e-mail address `email`.
    pub open spec fn has_email(self, email: Seq<char>) -> bool {
        exists|i: int| 0 <= i < self.users.len() && (#[trigger] self.users[i]).email == email
    }

    /// `add_user` would store a user with the address `email`: it is well
    /// formed and not yet registered.
    pub open spec fn accepts(self, email: Seq<char>) -> bool {
        valid_email(email) && !self.has_email(email)
    }

    /// Ids rise strictly along the list, start at 1, and stay below `next_id`.
    pub open spec fn ordered(self) -> bool {
        &&& forall|i: int, j: int| 0 <= i < j < self.users.len() ==> self.users[i].id < self.users[j].id
        &&& forall|i: int| 0 <= i < self.users.len() ==> 1 <= #[trigger] self.users[i].id < self.next_id
        &&& self.next_id >= 1
    }
}

/// A registry of users with unique, never reused ids: the users keyed by
/// id, and the ids in the order they were issued.
pub struct UserManager {
    users: HashMap<u32, User>,
    order: Vec<u32>,
    current_id: u32,
}

impl View for UserManager {
    type V = RegistryView;

    closed spec fn view(&self) -> RegistryView {
        RegistryView {
            users: self.order@.map_values(|id: u32| self.users@[id]@),
            next_id: self.current_id as nat,
        }
    }
}

impl UserManager {
    /// Internal consistency: the ids in `order` are exactly the keys of
    /// `users`, and each user is stored under its own id.
    pub closed spec fn inv(&self) -> bool {
        &&& forall|i: int|
            0 <= i < self.order@.len() ==> self.users@.contains_key(#[trigger] self.order@[i])
                && self.users@[self.order@[i]].id == self.order@[i]
        &&& forall|k: u32|
            #[trigger] self.users@.contains_key(k) ==> exists|i: int|
                0 <= i < self.order@.len() && self.order@[i] == k
    }

    /// Well-formedness, kept by every operation.
    pub open spec fn wf(&self) -> bool {
        self.inv() && self@.ordered()
    }

    proof fn lemma_has_id(&self, id: u32)
        requires
            self.wf(),
        ensures
            self@.has_id(id) <==> self.users@.contains_key(id),
            self.users@.contains_key(id) ==> self@.users.contains(self.users@[id]@),
    {
        if self.users@.contains_key(id) {
            let w = choose|w: int| 0 <= w < self.order@.len() && self.order@[w] == id;
            assert(self@.users[w] == self.users@[id]@);
            assert(self@.users[w].id == id);
        }
        if self@.has_id(id) {
            let w = choose|w: int| 0 <= w < self@.users.len() && (#[trigger] self@.users[w]).id == id;
            assert(self.users@.contains_key(self.order@[w]));
        }
    }

    /// An empty registry whose first user gets id 1.
    pub fn new() -> (r: Self)
        ensures
            r.wf(),
            r@.users == Seq::<UserRecord>::empty(),
            r@.next_id == 1,
    {
        let r = UserManager { users: HashMap::new(), order: Vec::new(), current_id: 1 };
        assert(r@.users =~= Seq::<UserRecord>::empty());
        r
    }

    /// The id that the next user will get.
    pub fn next_id(&self) -> (r: u32)
        ensures
            r == self@.next_id,
    {
        self.current_id
    }

    /// The number of registered users.
    pub fn len(&self) -> (r: usize)
        ensures
            r == self@.users.len(),
    {
        self.order.len()
    }

    fn index_of_email(&self, email: &String) -> (r: Option<usize>)
        requires
            self.wf(),
        ensures
            match r {
                Some(i) => i < self@.users.len() && self@.users[i as int].email == email@
                    && forall|j: int| 0 <= j < i ==> self@.users[j].email != email@,
                None => !self@.has_email(email@),
            },
    {
        let mut i: usize = 0;
        while i < self.order.len()
            invariant
                self.wf(),
                i <= self.order@.len(),
                self@.users.len() == self.order@.len(),
                forall|j: int| 0 <= j < i ==> self@.users[j].email != email@,
            decreases self.order@.len() - i,
        {
            let id = self.order[i];
            assert(self@.users[i as int] == self.users@[id]@);
            match self.users.get(&id) {
                Some(u) => {
                    if u.email == *email {
                        return Some(i);
                    }
                },
                None => {},
            }
            i = i + 1;
        }
        None
    }

    /// Registers a user. A malformed address gives `InvalidEmail`, one that
    /// is already registered gives `DuplicateEmail`; in both cases nothing
    /// changes and no id is used up. Otherwise the user is stored under the
    /// next id, which is returned; an id must then be left to issue.
    pub fn add_user(&mut self, name: String, email: String, profile: String) -> (r: Result<u32, ServiceError>)
        requires
            old(self).wf(),
            old(self)@.accepts(email@) ==> old(self)@.next_id < u32::MAX,
        ensures
            final(self).wf(),
            !valid_email(email@) ==> final(self)@ == old(self)@ && (r matches Err(
                ServiceError::InvalidEmail { email: e },
            ) && e@ == email@),
            valid_email(email@) && old(self)@.has_email(email@) ==> final(self)@ == old(self)@ && (r matches Err(
                ServiceError::DuplicateEmail { email: e },
            ) && e@ == email@),
            valid_email(email@) && !old(self)@.has_email(email@) ==> r == Ok::<u32, ServiceError>(
                old(self)@.next_id as u32,
            ) && final(self)@ == (RegistryView {
                users: old(self)@.users.push(
                    UserRecord { id: old(self)@.next_id as u32, name: name@, email: email@, profile: profile@ },
                ),
                next_id: old(self)@.next_id + 1,
            }),
    {
        if !is_valid_email(email.as_str()) {
            return Err(ServiceError::InvalidEmail { email });
        }
        if self.index_of_email(&email).is_some() {
            return Err(ServiceError::DuplicateEmail { email });
        }
        let id = self.current_id;
        let ghost before = self@;
        let ghost old_users = self.users@;
        let ghost old_order = self.order@;
        let ghost rec = UserRecord { id, name: name@, email: email@, profile: profile@ };
        self.users.insert(id, User { id, name, email, profile });
        self.order.push(id);
        self.current_id = id + 1;
        proof {
            assert forall|i: int| 0 <= i < old_order.len() implies old_order[i] != id by {
                assert(before.users[i].id == old_order[i]);
            }
            assert(self@.users =~= before.users.push(rec)) by {
                assert forall|i: int| 0 <= i < old_order.len() implies self@.users[i] == before.users[i] by {
                    assert(self.order@[i] == old_order[i]);
                    assert(old_order[i] != id);
                }
            }
            assert forall|k: u32| #[trigger] self.users@.contains_key(k) implies exists|i: int|
                0 <= i < self.order@.len() && self.order@[i] == k by {
                if k == id {
                    assert(self.order@[old_order.len() as int] == k);
                } else {
                    assert(old_users.contains_key(k));
                    let w = choose|w: int| 0 <= w < old_order.len() && old_order[w] == k;
                    assert(self.order@[w] == k);
                }
            }
            assert forall|i: int| 0 <= i < self.order@.len() implies self.users@.contains_key(
                #[trigger] self.order@[i],
            ) && self.users@[self.order@[i]].id == self.order@[i] by {
                if i < old_order.len() {
                    assert(self.order@[i] == old_order[i]);
                    assert(old_order[i] != id);
                }
            }
        }
        Ok(id)
    }

    /// A copy of the user with id `id`, or `NotFound` with the id in decimal.
    pub fn get_user(&self, id: u32) -> (r: Result<User, ServiceError>)
        requires
            self.wf(),
        ensures
            self@.has_id(id) ==> (r matches Ok(u) && u@.id == id && self@.users.contains(u@)),
            !self@.has_id(id) ==> (r matches Err(ServiceError::NotFound { key }) && key@ == decimal(id as nat)),
    {
        proof {
            self.lemma_has_id(id);
        }
        match self.users.get(&id) {
            Some(u) => Ok(u.snapshot()),
            None => Err(ServiceError::NotFound { key: decimal_text(id) }),
        }
    }

    /// Sets the name and e-mail address of the user with id `id`. An unknown
    /// id gives `NotFound`, a malformed address `InvalidEmail`; then nothing
    /// changes.
    pub fn update_user(&mut self, id: u32, name: String, email: String) -> (r: Result<(), ServiceError>)
        requires
            old(self).wf(),
        ensures
            final(self).wf(),
            !old(self)@.has_id(id) ==> final(self)@ == old(self)@ && (r matches Err(
                ServiceError::NotFound { key },
            ) && key@ == decimal(id as nat)),
            old(self)@.has_id(id) && !valid_email(email@) ==> final(self)@ == old(self)@ && (r matches Err(
                ServiceError::InvalidEmail { email: e },
            ) && e@ == email@),
            old(self)@.has_id(id) && valid_email(email@) ==> r is Ok && final(self)@.next_id == old(self)@.next_id
                && final(self)@.users.len() == old(self)@.users.len() && forall|i: int|
                0 <= i < old(self)@.users.len() ==> #[trigger] final(self)@.users[i] == if old(self)@.users[i].id == id {
                    UserRecord { name: name@, email: email@, ..old(self)@.users[i] }
                } else {
                    old(self)@.users[i]
                },
    {
        proof {
            self.lemma_has_id(id);
        }
        if !self.users.contains_key(&id) {
            return Err(ServiceError::NotFound { key: decimal_text(id) });
        }
        if !is_valid_email(email.as_str()) {
            return Err(ServiceError::InvalidEmail { email });
        }
        let profile = match self.users.get(&id) {
            Some(u) => u.profile.clone(),
            None => String::new(),
        };
        let ghost before = self@;
        let ghost old_users = self.users@;
        let ghost k = choose|k: int| 0 <= k < self.order@.len() && self.order@[k] == id;
        let ghost rec = UserRecord { name: name@, email: email@, ..before.users[k] };
        self.users.insert(id, User { id, name, email, profile });
        proof {
            assert(before.users[k] == old_users[id]@);
            assert forall|j: int| 0 <= j < before.users.len() && j != k implies before.users[j].id != id by {
                if j < k {
                    assert(before.users[j].id < before.users[k].id);
                } else {
                    assert(before.users[k].id < before.users[j].id);
                }
            }
            assert forall|j: int| 0 <= j < before.users.len() && j != k implies self.order@[j] != id by {
                assert(before.users[j].id == self.order@[j]);
            }
            assert(self@.users =~= before.users.update(k, rec));
            assert forall|q: u32| #[trigger] self.users@.contains_key(q) implies exists|i: int|
                0 <= i < self.order@.len() && self.order@[i] == q by {
                assert(old_users.contains_key(q));
            }
        }
        Ok(())
    }

    /// A copy of the first user, in order of id, with the address `email`, or
    /// `NotFound` with the address. Takes time linear in the number of users.
    pub fn find_user_by_email(&self, email: &str) -> (r: Result<User, ServiceError>)
        requires
            self.wf(),
        ensures
            self@.has_email(email@) ==> (r matches Ok(u) && exists|i: int|
                0 <= i < self@.users.len() && self@.users[i] == u@ && u@.email == email@ && forall|j: int|
                    0 <= j < i ==> self@.users[j].email != email@),
            !self@.has_email(email@) ==> (r matches Err(ServiceError::NotFound { key }) && key@ == email@),
    {
        let wanted = String::from_str(email);
        match self.index_of_email(&wanted) {
            Some(i) => {
                let id = self.order[i];
                assert(self@.users[i as int] == self.users@[id]@);
                match self.users.get(&id) {
                    Some(u) => Ok(u.snapshot()),
                    None => Err(ServiceError::NotFound { key: wanted }),
                }
            },
            None => Err(ServiceError::NotFound { key: wanted }),
        }
    }
}

} // verus!
