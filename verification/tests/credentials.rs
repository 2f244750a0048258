//! The credential service: hashing round trips, and the login check
//! built on it.

#[test]
fn test_token_claims() {
    let hash = serigen::password::hash_password("pass");
    println!("hash: {}", hash);
    let valid = serigen::password::verify_password("pass", &hash);
    assert!(valid);
}

#[test]
fn round_trip_empty_password() {
    let hash = serigen::password::hash_password("");
    assert!(serigen::password::verify_password("", &hash));
    assert!(!serigen::password::verify_password("x", &hash));
}

#[test]
fn round_trip_unicode_password() {
    let plaintext = "pässwörd-日本語-🙂";
    let hash = serigen::password::hash_password(plaintext);
    assert!(serigen::password::verify_password(plaintext, &hash));
    assert!(!serigen::password::verify_password("pässwörd-日本語", &hash));
}

#[test]
fn round_trip_holds_by_contract() {
    assert!(serigen::password::password_round_trip_holds("any plaintext at all"));
}

#[test]
fn malformed_hash_verifies_false() {
    assert!(!serigen::password::verify_password("pass", "not a phc string"));
    assert!(!serigen::password::verify_password("pass", ""));
}

#[test]
fn two_hashes_of_one_password_differ_but_both_verify() {
    let first = serigen::password::hash_password("pass");
    let second = serigen::password::hash_password("pass");
    assert_ne!(first, second);
    assert!(serigen::password::verify_password("pass", &first));
    assert!(serigen::password::verify_password("pass", &second));
}
