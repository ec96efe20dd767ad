use authrust::hashing::Hasher;
use authrust::users::{AuthenticationError, UserCreationError, UserRepository};

fn hasher() -> Hasher {
    Hasher::new(b"process-secret".to_vec()).unwrap()
}

#[test]
fn registering_the_same_username_twice_fails_with_duplicate() {
    let h = hasher();
    let mut repo = UserRepository::new();
    repo.create_user(&h, "alice", "a@x.com", "pw-one").unwrap();
    let err = repo.create_user(&h, "alice", "other@x.com", "pw-two").unwrap_err();
    assert!(matches!(err, UserCreationError::DuplicateUser(_)));
}

#[test]
fn registering_the_same_email_twice_fails_with_duplicate() {
    let h = hasher();
    let mut repo = UserRepository::new();
    repo.create_user(&h, "alice", "a@x.com", "pw-one").unwrap();
    let err = repo.create_user(&h, "bob", "a@x.com", "pw-two").unwrap_err();
    assert!(matches!(err, UserCreationError::DuplicateUser(_)));
}

#[test]
fn a_fresh_identity_succeeds_after_a_failed_duplicate_attempt() {
    let h = hasher();
    let mut repo = UserRepository::new();
    repo.create_user(&h, "alice", "a@x.com", "pw-one").unwrap();
    assert!(repo.create_user(&h, "alice", "a@x.com", "pw-two").is_err());
    let fresh = repo.create_user(&h, "carol", "c@x.com", "pw-three").unwrap();
    assert_eq!(fresh.username, "carol");
    assert_eq!(fresh.email, "c@x.com");
}

#[test]
fn authenticate_returns_the_registered_identity() {
    let h = hasher();
    let mut repo = UserRepository::new();
    let created = repo.create_user(&h, "alice", "a@x.com", "correct-pw").unwrap();
    let found = repo.authenticate_user("alice", "correct-pw").unwrap();
    assert_eq!(found.id, created.id);
    assert_eq!(found.username, "alice");
    assert_eq!(found.email, "a@x.com");
}

#[test]
fn authenticate_with_the_wrong_password_fails() {
    let h = hasher();
    let mut repo = UserRepository::new();
    repo.create_user(&h, "alice", "a@x.com", "correct-pw").unwrap();
    let err = repo.authenticate_user("alice", "wrong-pw").unwrap_err();
    assert!(matches!(err, AuthenticationError::PasswordMismatch));
}

#[test]
fn authenticate_with_an_unknown_username_fails() {
    let repo = UserRepository::new();
    let err = repo.authenticate_user("bob", "anything").unwrap_err();
    assert!(matches!(err, AuthenticationError::UserNotFound));
}

#[test]
fn the_two_authentication_failures_render_identically() {
    let h = hasher();
    let mut repo = UserRepository::new();
    repo.create_user(&h, "alice", "a@x.com", "correct-pw").unwrap();
    let wrong_pw = repo.authenticate_user("alice", "wrong-pw").unwrap_err();
    let no_user = repo.authenticate_user("bob", "anything").unwrap_err();
    assert_eq!(wrong_pw.status(), no_user.status());
    assert_eq!(wrong_pw.message(), no_user.message());
}

#[test]
fn failure_rendering_has_expected_shape() {
    let dup = UserCreationError::DuplicateUser("Username or email already exists".to_string());
    assert_eq!(dup.status(), 400);
    assert_eq!(dup.message(), "Username or email already exists");
    assert_eq!(AuthenticationError::UserNotFound.status(), 401);
    assert_eq!(AuthenticationError::UserNotFound.message(), "Invalid username or password");
}

#[test]
fn stored_password_is_a_hash_not_the_plaintext() {
    let h = hasher();
    let mut repo = UserRepository::new();
    let created = repo.create_user(&h, "alice", "a@x.com", "correct-pw").unwrap();
    assert_ne!(created.password, "correct-pw");
    assert!(created.password.starts_with("$argon2"));
}

#[test]
fn numeric_keys_are_distinct_and_increasing() {
    let h = hasher();
    let mut repo = UserRepository::new();
    let first = repo.create_user(&h, "alice", "a@x.com", "pw").unwrap();
    let second = repo.create_user(&h, "bob", "b@x.com", "pw").unwrap();
    assert!(first.id < second.id);
}

#[test]
fn find_by_username_sees_only_exact_matches() {
    let h = hasher();
    let mut repo = UserRepository::new();
    repo.create_user(&h, "alice", "a@x.com", "pw").unwrap();
    assert!(repo.find_by_username("alice").is_some());
    assert!(repo.find_by_username("alic").is_none());
    assert!(repo.find_by_username("").is_none());
}

#[test]
fn find_by_username_or_email_matches_either_field() {
    let h = hasher();
    let mut repo = UserRepository::new();
    repo.create_user(&h, "alice", "a@x.com", "pw").unwrap();
    assert!(repo.find_by_username_or_email("alice", "nobody@x.com").is_some());
    assert!(repo.find_by_username_or_email("nobody", "a@x.com").is_some());
    assert!(repo.find_by_username_or_email("nobody", "nobody@x.com").is_none());
}

#[test]
fn create_then_authenticate_law_holds_on_a_sample() {
    let h = hasher();
    let mut repo = UserRepository::new();
    let (created, found) =
        authrust::users::create_then_authenticate(&mut repo, &h, "alice", "a@x.com", "pw").unwrap();
    assert_eq!(created.id, found.id);
    assert_eq!(created.username, found.username);
}

#[test]
fn duplicate_registration_law_holds_on_a_sample() {
    let h = hasher();
    let mut repo = UserRepository::new();
    let (first, dup, fresh) = authrust::users::duplicate_registration_is_rejected(
        &mut repo, &h, "alice", "a@x.com", "pw1", "carol", "c@x.com", "pw2",
    )
    .unwrap();
    assert_eq!(first.username, "alice");
    assert!(matches!(dup, UserCreationError::DuplicateUser(_)));
    assert_eq!(fresh.username, "carol");
}

#[test]
fn direct_insert_enforces_uniqueness() {
    let mut repo = UserRepository::new();
    repo.insert("alice", "a@x.com", "$argon2id$fake").unwrap();
    let err = repo.insert("alice", "fresh@x.com", "$argon2id$fake").unwrap_err();
    assert!(matches!(err, authrust::users::PersistenceError::UniqueViolation));
}
