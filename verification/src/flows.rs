//! The two request flows, stripped of their transport: log an identity in
//! (authenticate, then establish a session) and register a new identity
//! (create it, then establish a session). The surrounding handler only
//! parses the form, calls one of these, and turns the result into a
//! redirect or an error page.

use vstd::prelude::*;

verus! {

use vstd::utf8::encode_utf8;
use crate::hashing::{Hasher, argon2_matches, phc_well_formed, MAX_PASSWORD_BYTES};
use crate::session::{SessionStore, UserSession};
use crate::users::{
    UserRepository,
    User,
    AuthenticationError,
    UserCreationError,
    contains_username,
    user_named,
    conflicts,
};

/// What the login form carries.
pub struct LoginForm {
    pub username: String,
    pub password: String,
}

/// What the registration form carries.
pub struct RegistrationForm {
    pub username: String,
    pub email: String,
    pub password: String,
}

/// Authenticate the submitted credentials; on success, establish a session
/// bound to a snapshot of the identity and hand back the identity together
/// with the session token.
pub fn login(repo: &UserRepository, sessions: &SessionStore, form: &LoginForm) -> (r: Result<
    (User, String),
    AuthenticationError,
>)
    requires
        repo.wf(),
    ensures
        r is Ok <==> (contains_username(repo@, form.username@) && phc_well_formed(
            user_named(repo@, form.username@).password,
        ) && argon2_matches(
            encode_utf8(form.password@),
            user_named(repo@, form.username@).password,
        )),
        r matches Ok(p) ==> p.0@ == user_named(repo@, form.username@) && p.1@.len() == 36,
        r matches Err(e) ==> (e is UserNotFound <==> !contains_username(repo@, form.username@)),
        r matches Err(e) ==> (e is HashingError <==> (contains_username(repo@, form.username@)
            && !phc_well_formed(user_named(repo@, form.username@).password))),
        r matches Err(e) ==> (e is PasswordMismatch <==> (contains_username(repo@, form.username@)
            && phc_well_formed(user_named(repo@, form.username@).password) && !argon2_matches(
            encode_utf8(form.password@),
            user_named(repo@, form.username@).password,
        ))),
{
    let user = match repo.authenticate_user(form.username.as_str(), form.password.as_str()) {
        Ok(u) => u,
        Err(e) => {
            return Err(e);
        },
    };
    let snapshot = UserSession { username: user.username.clone(), email: user.email.clone() };
    let token = sessions.create_session(snapshot);
    Ok((user, token))
}

/// Create the submitted identity; on success, establish a session bound to
/// a snapshot of it and hand back the new identity together with the
/// session token.
pub fn register(
    repo: &mut UserRepository,
    hasher: &Hasher,
    sessions: &SessionStore,
    form: &RegistrationForm,
) -> (r: Result<(User, String), UserCreationError>)
    requires
        old(repo).wf(),
        hasher.wf(),
        form.username@.len() > 0,
        form.email@.len() > 0,
        form.password@.len() > 0,
    ensures
        final(repo).wf(),
        r is Err ==> final(repo)@ == old(repo)@,
        r is Ok <==> (!conflicts(old(repo)@, form.username@, form.email@) && encode_utf8(
            form.password@,
        ).len() <= MAX_PASSWORD_BYTES && old(repo).has_capacity()),
        r matches Err(e) ==> (e is DuplicateUser <==> conflicts(
            old(repo)@,
            form.username@,
            form.email@,
        )),
        r matches Err(e) ==> (e is HashingError <==> (!conflicts(
            old(repo)@,
            form.username@,
            form.email@,
        ) && encode_utf8(form.password@).len() > MAX_PASSWORD_BYTES)),
        r matches Err(e) ==> (e is StoreError <==> (!conflicts(
            old(repo)@,
            form.username@,
            form.email@,
        ) && encode_utf8(form.password@).len() <= MAX_PASSWORD_BYTES && !old(
            repo,
        ).has_capacity())),
        r matches Ok(p) ==> final(repo)@ == old(repo)@.push(p.0@) && p.0@.username
            == form.username@ && p.0@.email == form.email@ && phc_well_formed(p.0@.password)
            && argon2_matches(encode_utf8(form.password@), p.0@.password) && p.1@.len() == 36,
{
    let user = match repo.create_user(
        hasher,
        form.username.as_str(),
        form.email.as_str(),
        form.password.as_str(),
    ) {
        Ok(u) => u,
        Err(e) => {
            return Err(e);
        },
    };
    let snapshot = UserSession { username: user.username.clone(), email: user.email.clone() };
    let token = sessions.create_session(snapshot);
    Ok((user, token))
}

} // verus!
