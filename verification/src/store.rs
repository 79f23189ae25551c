use vstd::prelude::*;
use vstd::string::StringExecFns;

use crate::errors::AuthError;

verus! {

/// A registered account, as the persistence layer holds it. Identifiers are
/// opaque strings (the service uses UUID strings); timestamps are Unix seconds.
pub struct User {
    pub id: String,
    pub email: String,
    pub password_hash: String,
    pub full_name: String,
    pub role: String,
    pub created_at: usize,
    pub updated_at: usize,
}

/// The mathematical image of a `User`: every field as a sequence of characters
/// or a plain number.
pub struct UserView {
    pub id: Seq<char>,
    pub email: Seq<char>,
    pub password_hash: Seq<char>,
    pub full_name: Seq<char>,
    pub role: Seq<char>,
    pub created_at: usize,
    pub updated_at: usize,
}

impl View for User {
    type V = UserView;

    open spec fn view(&self) -> UserView {
        UserView {
            id: self.id@,
            email: self.email@,
            password_hash: self.password_hash@,
            full_name: self.full_name@,
            role: self.role@,
            created_at: self.created_at,
            updated_at: self.updated_at,
        }
    }
}

/// Some user in `s` carries the email `e`.
pub open spec fn contains_email(s: Seq<UserView>, e: Seq<char>) -> bool {
    exists|i: int| 0 <= i < s.len() && s[i].email == e
}

/// Some user in `s` carries the id `id`.
pub open spec fn contains_id(s: Seq<UserView>, id: Seq<char>) -> bool {
    exists|i: int| 0 <= i < s.len() && s[i].id == id
}

/// The store's invariant: emails are globally unique, and so are ids.
pub open spec fn store_wf(s: Seq<UserView>) -> bool {
    forall|i: int, j: int|
        0 <= i < j < s.len() ==> s[i].email != s[j].email && s[i].id != s[j].id
}

/// The user store: the two operations the service needs from its persistence
/// layer, insert-by-unique-email and fetch-by-email-or-id, over an in-memory
/// collection whose uniqueness invariants are enforced here rather than by a
/// database constraint.
pub struct UserStore {
    users: Vec<User>,
}

impl View for UserStore {
    type V = Seq<UserView>;

    closed spec fn view(&self) -> Seq<UserView> {
        self.users@.map_values(|u: User| u@)
    }
}

impl UserStore {
    pub open spec fn wf(&self) -> bool {
        store_wf(self@)
    }

    /// An empty store.
    pub fn new() -> (r: UserStore)
        ensures
            r@ =~= Seq::<UserView>::empty(),
            r.wf(),
    {
        UserStore { users: Vec::new() }
    }

    /// How many users the store holds.
    pub fn len(&self) -> (r: usize)
        ensures
            r == self@.len(),
    {
        self.users.len()
    }

    /// Insert a user. Rejects a taken email with `DuplicateEmail` and a taken
    /// id with `StorageFailure`; either rejection leaves the store unchanged.
    #[verifier::loop_isolation(false)]
    pub fn insert(&mut self, user: User) -> (r: Result<(), AuthError>)
        requires
            old(self).wf(),
        ensures
            final(self).wf(),
            r == Err::<(), AuthError>(AuthError::DuplicateEmail) <==> contains_email(
                old(self)@,
                user@.email,
            ),
            r == Err::<(), AuthError>(AuthError::StorageFailure) <==> (!contains_email(
                old(self)@,
                user@.email,
            ) && contains_id(old(self)@, user@.id)),
            r is Err ==> final(self)@ == old(self)@,
            r is Ok ==> final(self)@ =~= old(self)@.push(user@),
            r is Ok <==> (!contains_email(old(self)@, user@.email) && !contains_id(
                old(self)@,
                user@.id,
            )),
    {
        let n = self.users.len();
        let mut i: usize = 0;
        while i < n
            invariant
                n == self@.len(),
                i <= n,
                forall|k: int| 0 <= k < i ==> self@[k].email != user@.email,
            decreases n - i,
        {
            proof {
                assert(self@[i as int] == self.users@[i as int]@);
            }
            if self.users[i].email == user.email {
                return Err(AuthError::DuplicateEmail);
            }
            i += 1;
        }
        let mut j: usize = 0;
        while j < n
            invariant
                n == self@.len(),
                j <= n,
                forall|k: int| 0 <= k < j ==> self@[k].id != user@.id,
            decreases n - j,
        {
            proof {
                assert(self@[j as int] == self.users@[j as int]@);
            }
            if self.users[j].id == user.id {
                return Err(AuthError::StorageFailure);
            }
            j += 1;
        }
        let ghost s0 = self@;
        self.users.push(user);
        proof {
            assert(self@ =~= s0.push(user@));
        }
        Ok(())
    }

    /// Fetch a user by email.
    #[verifier::loop_isolation(false)]
    pub fn find_by_email(&self, email: &str) -> (r: Option<&User>)
        requires
            self.wf(),
        ensures
            match r {
                Some(u) => u@.email == email@ && exists|i: int|
                    0 <= i < self@.len() && self@[i] == u@,
                None => !contains_email(self@, email@),
            },
    {
        let needle = String::from_str(email);
        let n = self.users.len();
        let mut i: usize = 0;
        while i < n
            invariant
                n == self@.len(),
                i <= n,
                needle@ == email@,
                forall|k: int| 0 <= k < i ==> self@[k].email != email@,
            decreases n - i,
        {
            proof {
                assert(self@[i as int] == self.users@[i as int]@);
            }
            if self.users[i].email == needle {
                return Some(&self.users[i]);
            }
            i += 1;
        }
        None
    }

    /// Fetch a user by id.
    #[verifier::loop_isolation(false)]
    pub fn find_by_id(&self, id: &str) -> (r: Option<&User>)
        requires
            self.wf(),
        ensures
            match r {
                Some(u) => u@.id == id@ && exists|i: int| 0 <= i < self@.len() && self@[i] == u@,
                None => !contains_id(self@, id@),
            },
    {
        let needle = String::from_str(id);
        let n = self.users.len();
        let mut i: usize = 0;
        while i < n
            invariant
                n == self@.len(),
                i <= n,
                needle@ == id@,
                forall|k: int| 0 <= k < i ==> self@[k].id != id@,
            decreases n - i,
        {
            proof {
                assert(self@[i as int] == self.users@[i as int]@);
            }
            if self.users[i].id == needle {
                return Some(&self.users[i]);
            }
            i += 1;
        }
        None
    }
}

} // verus!
