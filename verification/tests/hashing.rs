use authrust::hashing::Hasher;

fn hasher() -> Hasher {
    Hasher::new(b"process-secret".to_vec()).unwrap()
}

#[test]
fn hash_then_verify_accepts_the_password() {
    let h = hasher();
    let stored = h.hash_password("correct horse battery staple").unwrap();
    assert!(Hasher::verify("correct horse battery staple", stored.as_str()).unwrap());
}

#[test]
fn wrong_password_is_rejected() {
    let h = hasher();
    let stored = h.hash_password("one password").unwrap();
    assert!(!Hasher::verify("another password", stored.as_str()).unwrap());
}

#[test]
fn repeated_hashing_yields_distinct_stored_strings() {
    let h = hasher();
    let first = h.hash_password("same password").unwrap();
    let second = h.hash_password("same password").unwrap();
    assert_ne!(first, second);
    assert!(Hasher::verify("same password", first.as_str()).unwrap());
    assert!(Hasher::verify("same password", second.as_str()).unwrap());
}

#[test]
fn fixed_salt_makes_hashing_deterministic() {
    let salt = b"0123456789abcdef".to_vec();
    let first = Hasher::hash_with_salt("a password", &salt).unwrap();
    let second = Hasher::hash_with_salt("a password", &salt).unwrap();
    assert_eq!(first, second);
}

#[test]
fn distinct_salts_yield_distinct_hashes() {
    let salt1 = b"0123456789abcdef".to_vec();
    let salt2 = b"fedcba9876543210".to_vec();
    let (h1, h2) = authrust::hashing::hash_distinct_salts("a password", &salt1, &salt2).unwrap();
    assert_ne!(h1, h2);
    assert!(Hasher::verify("a password", h1.as_str()).unwrap());
    assert!(Hasher::verify("a password", h2.as_str()).unwrap());
}

#[test]
fn hash_round_trip_law_holds_on_a_sample() {
    let h = hasher();
    assert!(authrust::hashing::hash_round_trip(&h, "any password at all").unwrap());
}

#[test]
fn empty_password_still_round_trips() {
    let h = hasher();
    let stored = h.hash_password("").unwrap();
    assert!(Hasher::verify("", stored.as_str()).unwrap());
    assert!(!Hasher::verify("not empty", stored.as_str()).unwrap());
}

#[test]
fn secret_material_must_be_1_to_32_bytes() {
    assert!(Hasher::new(Vec::new()).is_err());
    assert!(Hasher::new(vec![7u8; 33]).is_err());
    assert!(Hasher::new(vec![7u8; 1]).is_ok());
    assert!(Hasher::new(vec![7u8; 32]).is_ok());
}

#[test]
fn salt_outside_8_to_48_bytes_is_rejected() {
    let short = b"1234567".to_vec();
    let err = Hasher::hash_with_salt("pw", &short).unwrap_err();
    assert!(!err.text().is_empty());
    let long = vec![1u8; 49];
    assert!(Hasher::hash_with_salt("pw", &long).is_err());
    let just_right = vec![1u8; 48];
    assert!(Hasher::hash_with_salt("pw", &just_right).is_ok());
}

#[test]
fn malformed_stored_hash_is_an_error_not_a_mismatch() {
    assert!(Hasher::verify("pw", "not a phc string").is_err());
    assert!(Hasher::verify("pw", "").is_err());
}

#[test]
fn stored_hash_is_self_describing() {
    let h = hasher();
    let stored = h.hash_password("pw").unwrap();
    assert!(stored.starts_with("$argon2"));
}
