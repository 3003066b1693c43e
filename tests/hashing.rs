use miniboss::hash::{hash, verify};

const SALT: &str = "abcdefghijklmnop";

#[test]
fn hash_then_verify_accepts() {
    let stored = hash("hunter2", SALT, "pepper").unwrap();
    assert!(verify(&stored, "hunter2", "pepper").unwrap());
}

#[test]
fn verify_rejects_other_password() {
    let stored = hash("hunter2", SALT, "pepper").unwrap();
    assert!(!verify(&stored, "hunter3", "pepper").unwrap());
}

#[test]
fn verify_rejects_other_pepper() {
    let stored = hash("hunter2", SALT, "pepper").unwrap();
    assert!(!verify(&stored, "hunter2", "other pepper").unwrap());
}

#[test]
fn hash_is_bcrypt_2b_cost_10() {
    let stored = hash("hunter2", SALT, "pepper").unwrap();
    assert!(stored.starts_with("$2b$10$"));
    assert_eq!(stored.len(), 60);
    assert_ne!(stored, "hunter2");
}

#[test]
fn hash_is_deterministic_for_salt() {
    let a = hash("hunter2", SALT, "pepper").unwrap();
    let b = hash("hunter2", SALT, "pepper").unwrap();
    let c = hash("hunter2", "ponmlkjihgfedcba", "pepper").unwrap();
    assert_eq!(a, b);
    assert_ne!(a, c);
}

#[test]
fn long_password_and_pepper_are_not_truncated() {
    let long_a = "a".repeat(100);
    let long_b = format!("{}b", "a".repeat(99));
    let stored = hash(&long_a, SALT, "pepper").unwrap();
    assert!(verify(&stored, &long_a, "pepper").unwrap());
    assert!(!verify(&stored, &long_b, "pepper").unwrap());
}

#[test]
fn malformed_stored_hash_is_error() {
    assert!(verify("not a hash", "hunter2", "pepper").is_err());
}

#[test]
fn wrong_password_against_made_hash_is_false_not_error() {
    let stored = hash("hunter2", SALT, "pepper").unwrap();
    assert_eq!(verify(&stored, "", "").ok(), Some(false));
    assert!(verify("", "hunter2", "pepper").is_err());
}
