use loomra_core::auth::{check_password_strength, hash_password, verify_password};

#[test]
fn strength_of_weak_password() {
    let r = check_password_strength(&"abc".to_string());
    // Only the lowercase point.
    assert_eq!(r.score, 1);
    assert_eq!(r.strength, "weak");
    assert_eq!(
        r.feedback,
        vec![
            "Password should be at least 8 characters long".to_string(),
            "Include uppercase letters".to_string(),
            "Include numbers".to_string(),
            "Include special characters".to_string(),
        ]
    );
}

#[test]
fn strength_of_strong_password() {
    let r = check_password_strength(&"Abcdef1!".to_string());
    // Eight characters, upper, lower, digit, special.
    assert_eq!(r.score, 5);
    assert_eq!(r.strength, "strong");
    assert!(r.feedback.is_empty());
}

#[test]
fn strength_of_long_varied_password() {
    let r = check_password_strength(&"Abcdefghijk1!".to_string());
    assert_eq!(r.score, 6);
    assert_eq!(r.strength, "strong");
    assert!(r.feedback.is_empty());
}

#[test]
fn strength_of_moderate_password() {
    let r = check_password_strength(&"ABCDEFGHIJKL".to_string());
    // Length points and the uppercase point.
    assert_eq!(r.score, 3);
    assert_eq!(r.strength, "moderate");
    assert_eq!(
        r.feedback,
        vec![
            "Include lowercase letters".to_string(),
            "Include numbers".to_string(),
            "Include special characters".to_string(),
        ]
    );
}

#[test]
fn strength_of_empty_password() {
    let r = check_password_strength(&String::new());
    // An empty password still earns the "special character" point only when
    // one exists; here nothing scores.
    assert_eq!(r.score, 0);
    assert_eq!(r.strength, "weak");
    assert_eq!(r.feedback.len(), 5);
}

#[test]
fn hash_password_rejects_empty_and_short_inputs() {
    assert_eq!(
        hash_password(&String::new()),
        Err("Password cannot be empty".to_string())
    );
    assert_eq!(
        hash_password(&"short".to_string()),
        Err("Password must be at least 8 characters long".to_string())
    );
}

#[test]
fn hash_then_verify_round_trip() {
    let password = "correct horse battery".to_string();
    let hash = hash_password(&password).unwrap();
    assert!(hash.starts_with("$argon2"));
    assert_eq!(verify_password(&password, &hash), Ok(true));
    assert_eq!(verify_password(&"wrong password".to_string(), &hash), Ok(false));
}

#[test]
fn verify_password_rejects_empty_inputs() {
    assert_eq!(
        verify_password(&String::new(), &"$argon2id$...".to_string()),
        Err("Password cannot be empty".to_string())
    );
    assert_eq!(
        verify_password(&"something".to_string(), &String::new()),
        Err("Hashed password cannot be empty".to_string())
    );
}

#[test]
fn verify_password_reports_malformed_hashes() {
    let r = verify_password(&"something".to_string(), &"not a phc hash".to_string());
    match r {
        Err(msg) => assert!(msg.starts_with("Invalid password hash format")),
        Ok(_) => panic!("a malformed hash must not verify"),
    }
}
