use foodbasket::passwords::{hash, verify};

#[test]
fn test_hash_and_verify_success() {
    let password = "my_super_secret_password";
    let hash = hash(password).expect("Hashing should not fail");
    assert!(verify(password, &hash));
}

#[test]
fn test_verify_failure() {
    let password = "correct_password";
    let wrong_password = "wrong_password";
    let hash = hash(password).expect("Hashing should not fail");
    assert!(!verify(wrong_password, &hash));
}

#[test]
fn test_unique_salts() {
    let password = "same_password";

    let hash1 = hash(password).unwrap();
    let hash2 = hash(password).unwrap();

    assert_ne!(hash1, hash2);
}

#[test]
fn test_verify_rejects_malformed_hash() {
    assert!(!verify("any_password", "not-a-valid-hash"));
    assert!(!verify("any_password", ""));
}

#[test]
fn test_hash_is_phc_string_not_password() {
    let password = "hunter42hunter42";
    let hashed = hash(password).unwrap();
    assert_ne!(hashed, password);
    assert!(hashed.starts_with("$argon2"));
}
