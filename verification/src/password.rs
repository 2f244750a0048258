//! Credential service: memory-hard, salted password hashing and
//! self-contained verification.

use vstd::prelude::*;

use argon2::{PasswordHash, PasswordHasher, PasswordVerifier};

verus! {

/// Whether the memory-hard hash embedded in `hash` was produced from
/// `password`: the outcome of argon2 verification, which depends on the
/// two strings alone, since the salt and the parameters travel inside
/// the hash string. A malformed hash string matches nothing.
pub uninterp spec fn hash_matches(password: Seq<char>, hash: Seq<char>) -> bool;

/// Whether a password is short enough to hash: argon2 caps the password
/// at 2^32 - 1 bytes, and a character takes at most four.
pub open spec fn hashable(password: Seq<char>) -> bool {
    password.len() < 0x40000000
}

/// Relies on argon2's `PasswordHasher::hash_password`: hashing with a
/// freshly generated random salt yields a PHC string that verifies
/// against exactly the password it was produced from. A password over
/// the byte-length cap is refused by argon2 and aborts here, so it is
/// excluded.
#[verifier::external_body]
pub fn hash_password(password: &str) -> (r: String)
    requires
        hashable(password@),
    ensures
        hash_matches(password@, r@),
{
    let hashed = argon2::Argon2::default()
        .hash_password(password.as_bytes())
        .expect("Password hashing failed");
    hashed.to_string()
}

/// Relies on argon2's `PasswordVerifier::verify_password` together with
/// PHC-string parsing: the outcome is a deterministic function of the
/// password and the hash string, and a hash string that does not parse
/// verifies as false.
#[verifier::external_body]
pub fn verify_password(password: &str, hashed_password: &str) -> (r: bool)
    ensures
        r == hash_matches(password@, hashed_password@),
{
    match PasswordHash::new(hashed_password) {
        Ok(parsed) => argon2::Argon2::default()
            .verify_password(password.as_bytes(), &parsed)
            .is_ok(),
        Err(_) => false,
    }
}

/// Law: verification round-trips through hashing. For every plaintext
/// that can be hashed at all, empty and non-ASCII ones included,
/// `verify(p, hash(p))` holds; the result of this function is proved to
/// be `true`.
pub fn password_round_trip_holds(password: &str) -> (b: bool)
    requires
        hashable(password@),
    ensures
        b,
{
    let hashed = hash_password(password);
    verify_password(password, hashed.as_str())
}

} // verus!
