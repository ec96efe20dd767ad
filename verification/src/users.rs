//! The identity store and the two flows over it: registration (create a new
//! identity, enforcing uniqueness) and authentication (check a presented
//! password against the stored credential hash).
//!
//! The store keeps one record per registered identity and guarantees that
//! usernames, emails and numeric keys are each globally unique. Both flows
//! surface typed failures; nothing here panics on user input.

use vstd::prelude::*;

verus! {

use vstd::string::StringSliceAdditionalSpecFns;
use crate::hashing::{
    Hasher,
    HashError,
    argon2_matches,
    phc_well_formed,
    MAX_PASSWORD_BYTES,
};

/// A registered identity: opaque numeric key, unique username, unique email,
/// and the opaque stored credential hash.
#[derive(Debug)]
pub struct User {
    pub id: i32,
    pub username: String,
    pub email: String,
    pub password: String,
}

/// Mathematical image of a [`User`].
pub struct UserV {
    pub id: int,
    pub username: Seq<char>,
    pub email: Seq<char>,
    pub password: Seq<char>,
}

impl View for User {
    type V = UserV;

    open spec fn view(&self) -> UserV {
        UserV {
            id: self.id as int,
            username: self.username@,
            email: self.email@,
            password: self.password@,
        }
    }
}

/// A failure of the persistence layer. A uniqueness violation is expected
/// and recoverable; an exhausted key space is not.
#[derive(Debug)]
pub enum PersistenceError {
    UniqueViolation,
    Exhausted,
}

/// Why registration failed.
#[derive(Debug)]
pub enum UserCreationError {
    HashingError(HashError),
    StoreError(PersistenceError),
    DuplicateUser(String),
}

/// Why authentication failed. `UserNotFound` and `PasswordMismatch` are
/// distinct internally but render identically to an external observer; see
/// [`lemma_auth_failures_render_identically`].
#[derive(Debug)]
pub enum AuthenticationError {
    StoreError(PersistenceError),
    UserNotFound,
    PasswordMismatch,
    HashingError(HashError),
}

/// Some identity in `users` carries this username.
pub open spec fn contains_username(users: Seq<UserV>, name: Seq<char>) -> bool {
    exists|i: int| 0 <= i < users.len() && users[i].username == name
}

/// Some identity in `users` carries this email.
pub open spec fn contains_email(users: Seq<UserV>, mail: Seq<char>) -> bool {
    exists|i: int| 0 <= i < users.len() && users[i].email == mail
}

/// The identity carrying this username; meaningful when usernames are
/// unique and the name is present.
pub open spec fn user_named(users: Seq<UserV>, name: Seq<char>) -> UserV
    recommends
        contains_username(users, name),
{
    users[choose|i: int| 0 <= i < users.len() && users[i].username == name]
}

/// Registration rejects a submission whose username or email is taken.
pub open spec fn conflicts(users: Seq<UserV>, name: Seq<char>, mail: Seq<char>) -> bool {
    contains_username(users, name) || contains_email(users, mail)
}

/// The in-memory identity store: insertion-ordered records with unique
/// usernames, unique emails, and strictly increasing numeric keys.
pub struct UserRepository {
    users: Vec<User>,
    next_id: i32,
}

impl View for UserRepository {
    type V = Seq<UserV>;

    closed spec fn view(&self) -> Seq<UserV> {
        self.users@.map_values(|u: User| u@)
    }
}

impl UserRepository {
    pub closed spec fn wf(&self) -> bool {
        &&& forall|i: int, j: int|
            0 <= i < j < self@.len() ==> self@[i].username != self@[j].username
        &&& forall|i: int, j: int| 0 <= i < j < self@.len() ==> self@[i].email != self@[j].email
        &&& forall|i: int, j: int| 0 <= i < j < self@.len() ==> self@[i].id < self@[j].id
        &&& forall|i: int| 0 <= i < self@.len() ==> self@[i].id < self.next_id as int
        &&& 1 <= self.next_id
    }

    /// How many more numeric keys can still be issued.
    pub closed spec fn spec_capacity(&self) -> int {
        i32::MAX - self.next_id
    }

    /// Whether another numeric key can still be issued.
    pub open spec fn has_capacity(&self) -> bool {
        self.spec_capacity() > 0
    }

    pub fn new() -> (r: UserRepository)
        ensures
            r.wf(),
            r@ == Seq::<UserV>::empty(),
            r.has_capacity(),
    {
        let r = UserRepository { users: Vec::new(), next_id: 1 };
        assert(r@ =~= Seq::<UserV>::empty());
        r
    }

    fn find_index_by_username(&self, username: &str) -> (r: Option<usize>)
        ensures
            r matches Some(i) ==> i < self@.len() && self@[i as int].username == username@,
            r is None ==> !contains_username(self@, username@),
    {
        let key: String = username.to_owned();
        let mut i: usize = 0;
        while i < self.users.len()
            invariant
                i <= self.users@.len(),
                key@ == username@,
                self@.len() == self.users@.len(),
                forall|j: int| 0 <= j < i ==> self@[j].username != username@,
            decreases self.users@.len() - i,
        {
            assert(self@[i as int] == self.users@[i as int]@);
            if self.users[i].username == key {
                return Some(i);
            }
            i = i + 1;
        }
        None
    }

    fn find_conflict_index(&self, username: &str, email: &str) -> (r: Option<usize>)
        ensures
            r matches Some(i) ==> i < self@.len() && (self@[i as int].username == username@
                || self@[i as int].email == email@),
            r is None ==> !conflicts(self@, username@, email@),
    {
        let name_key: String = username.to_owned();
        let mail_key: String = email.to_owned();
        let mut i: usize = 0;
        while i < self.users.len()
            invariant
                i <= self.users@.len(),
                name_key@ == username@,
                mail_key@ == email@,
                self@.len() == self.users@.len(),
                forall|j: int|
                    0 <= j < i ==> self@[j].username != username@ && self@[j].email != email@,
            decreases self.users@.len() - i,
        {
            assert(self@[i as int] == self.users@[i as int]@);
            if self.users[i].username == name_key || self.users[i].email == mail_key {
                return Some(i);
            }
            i = i + 1;
        }
        None
    }

    fn clone_record(&self, i: usize) -> (r: User)
        requires
            i < self@.len(),
        ensures
            r@ == self@[i as int],
    {
        assert(self@[i as int] == self.users@[i as int]@);
        let u = &self.users[i];
        User {
            id: u.id,
            username: u.username.clone(),
            email: u.email.clone(),
            password: u.password.clone(),
        }
    }

    /// The identity whose username equals `username`, if one is registered.
    pub fn find_by_username(&self, username: &str) -> (r: Option<User>)
        requires
            self.wf(),
        ensures
            r is Some <==> contains_username(self@, username@),
            r matches Some(u) ==> u@ == user_named(self@, username@) && u@.username == username@,
    {
        let found = self.find_index_by_username(username);
        match found {
            Some(i) => {
                proof {
                    let j = choose|j: int|
                        0 <= j < self@.len() && self@[j].username == username@;
                    assert(j == i as int);
                }
                Some(self.clone_record(i))
            },
            None => None,
        }
    }

    /// Any identity whose username or email matches; the registration
    /// fast path.
    pub fn find_by_username_or_email(&self, username: &str, email: &str) -> (r: Option<User>)
        requires
            self.wf(),
        ensures
            r is Some <==> conflicts(self@, username@, email@),
            r matches Some(u) ==> exists|i: int|
                0 <= i < self@.len() && self@[i] == u@ && (u@.username == username@ || u@.email
                    == email@),
    {
        let found = self.find_conflict_index(username, email);
        match found {
            Some(i) => Some(self.clone_record(i)),
            None => None,
        }
    }

    /// Insert a new identity carrying an already-derived credential hash.
    /// This check is the authoritative uniqueness guarantee.
    pub fn insert(&mut self, username: &str, email: &str, password_hash: &str) -> (r: Result<
        User,
        PersistenceError,
    >)
        requires
            old(self).wf(),
        ensures
            final(self).wf(),
            r is Err ==> final(self)@ == old(self)@,
            r == Err::<User, PersistenceError>(PersistenceError::UniqueViolation) <==> conflicts(
                old(self)@,
                username@,
                email@,
            ),
            r == Err::<User, PersistenceError>(PersistenceError::Exhausted) <==> (!conflicts(
                old(self)@,
                username@,
                email@,
            ) && !old(self).has_capacity()),
            r is Ok <==> (!conflicts(old(self)@, username@, email@) && old(self).has_capacity()),
            r matches Ok(u) ==> final(self)@ == old(self)@.push(u@) && u@.username == username@
                && u@.email == email@ && u@.password == password_hash@ && u@.id >= 1 && (forall|
                i: int,
            |
                0 <= i < old(self)@.len() ==> old(self)@[i].id != u@.id),
            r is Ok ==> final(self).spec_capacity() == old(self).spec_capacity() - 1,
            r is Err ==> final(self).spec_capacity() == old(self).spec_capacity(),
    {
        let found = self.find_conflict_index(username, email);
        if found.is_some() {
            return Err(PersistenceError::UniqueViolation);
        }
        if self.next_id == i32::MAX {
            return Err(PersistenceError::Exhausted);
        }
        let id = self.next_id;
        self.next_id = self.next_id + 1;
        let stored = User {
            id,
            username: username.to_owned(),
            email: email.to_owned(),
            password: password_hash.to_owned(),
        };
        let returned = User {
            id,
            username: stored.username.clone(),
            email: stored.email.clone(),
            password: stored.password.clone(),
        };
        let ghost before = self@;
        self.users.push(stored);
        assert(self@ =~= before.push(returned@));
        Ok(returned)
    }

    /// Registration: reject a taken username or email with `DuplicateUser`,
    /// otherwise derive the credential hash and insert the new identity.
    pub fn create_user(&mut self, hasher: &Hasher, username: &str, email: &str, password: &str)
        -> (r: Result<User, UserCreationError>)
        requires
            old(self).wf(),
            hasher.wf(),
            username@.len() > 0,
            email@.len() > 0,
            password@.len() > 0,
        ensures
            final(self).wf(),
            r is Err ==> final(self)@ == old(self)@,
            r is Ok <==> (!conflicts(old(self)@, username@, email@) && password.spec_bytes().len()
                <= MAX_PASSWORD_BYTES && old(self).has_capacity()),
            r matches Err(e) ==> (e is DuplicateUser <==> conflicts(
                old(self)@,
                username@,
                email@,
            )),
            r matches Err(e) ==> (e is HashingError <==> (!conflicts(old(self)@, username@, email@)
                && password.spec_bytes().len() > MAX_PASSWORD_BYTES)),
            r matches Err(e) ==> (e is StoreError <==> (!conflicts(old(self)@, username@, email@)
                && password.spec_bytes().len() <= MAX_PASSWORD_BYTES && !old(
                self,
            ).has_capacity())),
            r matches Ok(u) ==> final(self)@ == old(self)@.push(u@) && u@.username == username@
                && u@.email == email@ && phc_well_formed(u@.password) && argon2_matches(
                password.spec_bytes(),
                u@.password,
            ),
            r is Ok ==> final(self).spec_capacity() == old(self).spec_capacity() - 1,
            r is Err ==> final(self).spec_capacity() == old(self).spec_capacity(),
    {
        let existing = self.find_by_username_or_email(username, email);
        if existing.is_some() {
            return Err(
                UserCreationError::DuplicateUser("Username or email already exists".to_owned()),
            );
        }
        let hashed = match hasher.hash_password(password) {
            Ok(h) => h,
            Err(e) => {
                return Err(UserCreationError::HashingError(e));
            },
        };
        match self.insert(username, email, hashed.as_str()) {
            Ok(u) => Ok(u),
            Err(e) => Err(UserCreationError::StoreError(e)),
        }
    }

    /// Authentication: look the username up, then check the password against
    /// the stored credential hash. A missing user, a wrong password and a
    /// corrupt stored hash are distinct typed failures.
    pub fn authenticate_user(&self, username: &str, password: &str) -> (r: Result<
        User,
        AuthenticationError,
    >)
        requires
            self.wf(),
        ensures
            r is Ok <==> (contains_username(self@, username@) && phc_well_formed(
                user_named(self@, username@).password,
            ) && argon2_matches(password.spec_bytes(), user_named(self@, username@).password)),
            r matches Ok(u) ==> u@ == user_named(self@, username@),
            r matches Err(e) ==> (e is UserNotFound <==> !contains_username(self@, username@)),
            r matches Err(e) ==> (e is HashingError <==> (contains_username(self@, username@)
                && !phc_well_formed(user_named(self@, username@).password))),
            r matches Err(e) ==> (e is PasswordMismatch <==> (contains_username(self@, username@)
                && phc_well_formed(user_named(self@, username@).password) && !argon2_matches(
                password.spec_bytes(),
                user_named(self@, username@).password,
            ))),
    {
        let user = match self.find_by_username(username) {
            Some(u) => u,
            None => {
                return Err(AuthenticationError::UserNotFound);
            },
        };
        match Hasher::verify(password, user.password.as_str()) {
            Ok(true) => Ok(user),
            Ok(false) => Err(AuthenticationError::PasswordMismatch),
            Err(e) => Err(AuthenticationError::HashingError(e)),
        }
    }
}

/// Law: right after a successful registration, authenticating with the
/// same username and password succeeds and returns exactly the identity
/// just created. (With a wrong password or an unknown username the typed
/// failures are pinned down by `authenticate_user`'s own contract.)
pub fn create_then_authenticate(
    repo: &mut UserRepository,
    hasher: &Hasher,
    username: &str,
    email: &str,
    password: &str,
) -> (r: Option<(User, User)>)
    requires
        old(repo).wf(),
        hasher.wf(),
        username@.len() > 0,
        email@.len() > 0,
        password@.len() > 0,
    ensures
        r matches Some(p) ==> p.0@ == p.1@ && p.0@.username == username@,
        (!conflicts(old(repo)@, username@, email@) && password.spec_bytes().len()
            <= MAX_PASSWORD_BYTES && old(repo).has_capacity()) ==> r is Some,
{
    let created = match repo.create_user(hasher, username, email, password) {
        Ok(u) => u,
        Err(_) => {
            return None;
        },
    };
    proof {
        let n = repo@.len() - 1;
        assert(repo@[n] == created@);
        assert(contains_username(repo@, username@));
        let j = choose|j: int| 0 <= j < repo@.len() && repo@[j].username == username@;
        assert(j == n);
        assert(user_named(repo@, username@) == created@);
    }
    match repo.authenticate_user(username, password) {
        Ok(u) => Some((created, u)),
        Err(_) => None,
    }
}

/// Law: registering the same username and email twice fails the second time
/// with `DuplicateUser` and leaves the store exactly as the first
/// registration left it, and a later submission with a fresh username and
/// email still succeeds.
pub fn duplicate_registration_is_rejected(
    repo: &mut UserRepository,
    hasher: &Hasher,
    username: &str,
    email: &str,
    password: &str,
    fresh_username: &str,
    fresh_email: &str,
    fresh_password: &str,
) -> (r: Option<(User, UserCreationError, User)>)
    requires
        old(repo).wf(),
        hasher.wf(),
        username@.len() > 0,
        email@.len() > 0,
        password@.len() > 0,
        fresh_username@.len() > 0,
        fresh_email@.len() > 0,
        fresh_password@.len() > 0,
        username@ != fresh_username@,
        email@ != fresh_email@,
    ensures
        r matches Some(t) ==> t.1 is DuplicateUser && t.0@.username == username@ && t.2@.username
            == fresh_username@,
        r matches Some(t) ==> final(repo)@ == old(repo)@.push(t.0@).push(t.2@),
        (!conflicts(old(repo)@, username@, email@) && !conflicts(
            old(repo)@,
            fresh_username@,
            fresh_email@,
        ) && password.spec_bytes().len() <= MAX_PASSWORD_BYTES && fresh_password.spec_bytes().len()
            <= MAX_PASSWORD_BYTES && old(repo).spec_capacity() >= 2) ==> r is Some,
{
    let first = match repo.create_user(hasher, username, email, password) {
        Ok(u) => u,
        Err(_) => {
            return None;
        },
    };
    proof {
        assert(repo@[repo@.len() - 1].username == username@);
        assert(contains_username(repo@, username@));
    }
    let second = repo.create_user(hasher, username, email, password);
    let duplicate = match second {
        Ok(_) => {
            return None;
        },
        Err(e) => e,
    };
    proof {
        if !conflicts(old(repo)@, fresh_username@, fresh_email@) {
            assert forall|i: int| 0 <= i < repo@.len() implies repo@[i].username
                != fresh_username@ && repo@[i].email != fresh_email@ by {
                if i < repo@.len() - 1 {
                    assert(repo@[i] == old(repo)@[i]);
                }
            }
            assert(!conflicts(repo@, fresh_username@, fresh_email@));
        }
    }
    let fresh = match repo.create_user(hasher, fresh_username, fresh_email, fresh_password) {
        Ok(u) => u,
        Err(_) => {
            return None;
        },
    };
    Some((first, duplicate, fresh))
}

/// How an authentication failure is presented externally: an HTTP-style
/// status code.
pub open spec fn auth_status_of(e: AuthenticationError) -> u16 {
    match e {
        AuthenticationError::HashingError(_) => 500,
        AuthenticationError::StoreError(_) => 400,
        AuthenticationError::UserNotFound => 401,
        AuthenticationError::PasswordMismatch => 401,
    }
}

/// How an authentication failure is presented externally: the message body.
pub open spec fn auth_message_of(e: AuthenticationError) -> Seq<char> {
    match e {
        AuthenticationError::HashingError(_) => "Internal server error"@,
        AuthenticationError::StoreError(_) => "Storage error"@,
        AuthenticationError::UserNotFound => "Invalid username or password"@,
        AuthenticationError::PasswordMismatch => "Invalid username or password"@,
    }
}

impl AuthenticationError {
    pub fn status(&self) -> (r: u16)
        ensures
            r == auth_status_of(*self),
    {
        match self {
            AuthenticationError::HashingError(_) => 500,
            AuthenticationError::StoreError(_) => 400,
            AuthenticationError::UserNotFound => 401,
            AuthenticationError::PasswordMismatch => 401,
        }
    }

    pub fn message(&self) -> (r: String)
        ensures
            r@ == auth_message_of(*self),
    {
        match self {
            AuthenticationError::HashingError(_) => "Internal server error".to_owned(),
            AuthenticationError::StoreError(_) => "Storage error".to_owned(),
            AuthenticationError::UserNotFound => "Invalid username or password".to_owned(),
            AuthenticationError::PasswordMismatch => "Invalid username or password".to_owned(),
        }
    }
}

/// Law: the two expected authentication failures — unknown username and
/// wrong password — are indistinguishable to an external observer, closing
/// the username-enumeration channel.
pub proof fn lemma_auth_failures_render_identically()
    ensures
        auth_status_of(AuthenticationError::UserNotFound) == auth_status_of(
            AuthenticationError::PasswordMismatch,
        ),
        auth_message_of(AuthenticationError::UserNotFound) == auth_message_of(
            AuthenticationError::PasswordMismatch,
        ),
{
}

/// How a registration failure is presented externally: an HTTP-style status
/// code.
pub open spec fn creation_status_of(e: UserCreationError) -> u16 {
    match e {
        UserCreationError::HashingError(_) => 500,
        UserCreationError::StoreError(_) => 400,
        UserCreationError::DuplicateUser(_) => 400,
    }
}

/// How a registration failure is presented externally: the message body.
pub open spec fn creation_message_of(e: UserCreationError) -> Seq<char> {
    match e {
        UserCreationError::HashingError(_) => "Internal server error"@,
        UserCreationError::StoreError(_) => "Storage error"@,
        UserCreationError::DuplicateUser(m) => m@,
    }
}

impl UserCreationError {
    pub fn status(&self) -> (r: u16)
        ensures
            r == creation_status_of(*self),
    {
        match self {
            UserCreationError::HashingError(_) => 500,
            UserCreationError::StoreError(_) => 400,
            UserCreationError::DuplicateUser(_) => 400,
        }
    }

    pub fn message(&self) -> (r: String)
        ensures
            r@ == creation_message_of(*self),
    {
        match self {
            UserCreationError::HashingError(_) => "Internal server error".to_owned(),
            UserCreationError::StoreError(_) => "Storage error".to_owned(),
            UserCreationError::DuplicateUser(m) => m.clone(),
        }
    }
}

} // verus!
