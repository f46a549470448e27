//! The credential verifier: a thin verified layer over the Argon2id
//! password-hashing primitive. Hashing salts every call afresh, so two
//! hashes of one password differ; verification is a function of the
//! password and the self-describing hash string alone.

use vstd::prelude::*;

verus! {

/// What can go wrong when hashing: only a primitive-level failure, never a
/// property of the password's content.
#[derive(Clone, Copy, PartialEq, Eq, Structural, Debug)]
pub enum PasswordServiceError {
    FailedToHash,
}

/// What Argon2 verification returns for a password against a PHC hash
/// string. The hash string embeds algorithm, parameters and salt, so the
/// outcome is a function of the two strings alone; a malformed or
/// unsupported hash string verifies nothing.
pub uninterp spec fn argon2_verifies(password: Seq<char>, hash: Seq<char>) -> bool;

/// Relies on argon2's `hash_password` (Argon2id, default parameters, a fresh
/// random salt drawn from the operating system for every call): on success
/// the returned PHC string verifies against the password that was hashed,
/// whatever salt was drawn.
#[verifier::external_body]
fn argon2_hash(password: &str) -> (r: Result<String, PasswordServiceError>)
    ensures
        match r {
            Ok(h) => argon2_verifies(password@, h@),
            Err(e) => e == PasswordServiceError::FailedToHash,
        },
{
    let argon2 = argon2::Argon2::default();
    let hashed: Result<argon2::password_hash::phc::PasswordHash, _> =
        argon2::password_hash::PasswordHasher::hash_password(&argon2, password.as_bytes());
    match hashed {
        Ok(h) => Ok(h.to_string()),
        Err(_) => Err(PasswordServiceError::FailedToHash),
    }
}

/// Relies on argon2's `PasswordHash::new` and `verify_password`: parses the
/// PHC hash string and checks the password against it, in constant shape on
/// mismatch; a string that does not parse verifies nothing. Both steps are
/// deterministic in the two strings.
#[verifier::external_body]
fn argon2_verify(password: &str, hash: &str) -> (r: bool)
    ensures
        r == argon2_verifies(password@, hash@),
{
    let parsed = match argon2::password_hash::phc::PasswordHash::new(hash) {
        Ok(h) => h,
        Err(_) => return false,
    };
    let argon2 = argon2::Argon2::default();
    argon2::password_hash::PasswordVerifier::verify_password(
        &argon2,
        password.as_bytes(),
        &parsed,
    ).is_ok()
}

/// Hashes a plain-text password with Argon2id under a fresh random salt.
/// On success the returned self-describing hash string verifies against the
/// password; failure is primitive-level only, never about the password.
pub fn hash(password: &str) -> (r: Result<String, PasswordServiceError>)
    ensures
        match r {
            Ok(h) => argon2_verifies(password@, h@),
            Err(e) => e == PasswordServiceError::FailedToHash,
        },
{
    argon2_hash(password)
}

/// Verifies a plain-text password against a stored hash string. A wrong
/// password, a malformed hash string or an unsupported algorithm tag all
/// answer `false`; none of them is an error.
pub fn verify(password: &str, hash: &str) -> (r: bool)
    ensures
        r == argon2_verifies(password@, hash@),
{
    argon2_verify(password, hash)
}

} // verus!
