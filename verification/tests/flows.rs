use authrust::flows::{login, register, LoginForm, RegistrationForm};
use authrust::hashing::Hasher;
use authrust::session::SessionStore;
use authrust::users::{AuthenticationError, UserCreationError, UserRepository};

fn hasher() -> Hasher {
    Hasher::new(b"process-secret".to_vec()).unwrap()
}

fn registration(username: &str, email: &str, password: &str) -> RegistrationForm {
    RegistrationForm {
        username: username.to_string(),
        email: email.to_string(),
        password: password.to_string(),
    }
}

#[test]
fn register_logs_the_caller_in() {
    let h = hasher();
    let mut repo = UserRepository::new();
    let sessions = SessionStore::new();
    let (user, token) =
        register(&mut repo, &h, &sessions, &registration("alice", "a@x.com", "correct-pw"))
            .unwrap();
    assert_eq!(user.username, "alice");
    let snapshot = sessions.get_user(token.as_str()).unwrap();
    assert_eq!(snapshot.username, "alice");
    assert_eq!(snapshot.email, "a@x.com");
}

#[test]
fn login_after_register_establishes_a_second_session() {
    let h = hasher();
    let mut repo = UserRepository::new();
    let sessions = SessionStore::new();
    let (_, first_token) =
        register(&mut repo, &h, &sessions, &registration("alice", "a@x.com", "correct-pw"))
            .unwrap();
    let form = LoginForm { username: "alice".to_string(), password: "correct-pw".to_string() };
    let (user, second_token) = login(&repo, &sessions, &form).unwrap();
    assert_eq!(user.username, "alice");
    assert_ne!(first_token, second_token);
    assert!(sessions.get_user(first_token.as_str()).is_some());
    assert!(sessions.get_user(second_token.as_str()).is_some());
}

#[test]
fn logout_ends_only_the_presented_session() {
    let h = hasher();
    let mut repo = UserRepository::new();
    let sessions = SessionStore::new();
    let (_, token) =
        register(&mut repo, &h, &sessions, &registration("alice", "a@x.com", "pw")).unwrap();
    let form = LoginForm { username: "alice".to_string(), password: "pw".to_string() };
    let (_, other) = login(&repo, &sessions, &form).unwrap();
    sessions.remove_session(token.as_str());
    assert!(sessions.get_user(token.as_str()).is_none());
    assert!(sessions.get_user(other.as_str()).is_some());
}

#[test]
fn duplicate_registration_fails_and_leaves_no_session() {
    let h = hasher();
    let mut repo = UserRepository::new();
    let sessions = SessionStore::new();
    register(&mut repo, &h, &sessions, &registration("alice", "a@x.com", "pw")).unwrap();
    let err = register(&mut repo, &h, &sessions, &registration("alice", "other@x.com", "pw"))
        .unwrap_err();
    assert!(matches!(err, UserCreationError::DuplicateUser(_)));
}

#[test]
fn login_failures_render_identically_through_the_flow() {
    let h = hasher();
    let mut repo = UserRepository::new();
    let sessions = SessionStore::new();
    register(&mut repo, &h, &sessions, &registration("alice", "a@x.com", "correct-pw")).unwrap();
    let wrong = LoginForm { username: "alice".to_string(), password: "wrong".to_string() };
    let unknown = LoginForm { username: "bob".to_string(), password: "anything".to_string() };
    let e1 = login(&repo, &sessions, &wrong).unwrap_err();
    let e2 = login(&repo, &sessions, &unknown).unwrap_err();
    assert!(matches!(e1, AuthenticationError::PasswordMismatch));
    assert!(matches!(e2, AuthenticationError::UserNotFound));
    assert_eq!(e1.status(), e2.status());
    assert_eq!(e1.message(), e2.message());
}
