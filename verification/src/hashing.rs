//! Argon2 password hashing for instance passwords.
use vstd::prelude::*;

use argon2::password_hash::{PasswordHash, PasswordHasher, PasswordVerifier, SaltString};
use argon2::Argon2;
use rand_core::OsRng;

verus! {

/// Whether Argon2 verification accepts `password` against the PHC hash string `phc`.
pub uninterp spec fn argon2_accepts(password: Seq<char>, phc: Seq<char>) -> bool;

/// Whether Argon2 takes a password of these characters: its UTF-8 bytes (at
/// most four per character) stay within Argon2's limit of `0xFFFF_FFFF`.
pub open spec fn fits_argon2(password: Seq<char>) -> bool {
    password.len() <= 0x3FFF_FFFF
}

/// Hashes a password with `Argon2::default()` and a fresh random salt
/// (`SaltString::generate` over `OsRng`), returning the PHC string.
///
/// Claims only that verification accepts the password against the string that
/// comes back; the string itself depends on the random salt and is left
/// unsaid. Hashing with the default parameters fails only on a password
/// longer than Argon2's maximum (`MAX_PWD_LEN` bytes), so a password that
/// fits is hashed.
#[verifier::external_body]
pub fn hash_password(raw: &str) -> (phc: Option<String>)
    ensures
        phc matches Some(h) ==> argon2_accepts(raw@, h@),
        fits_argon2(raw@) ==> phc is Some,
{
    let salt = SaltString::generate(&mut OsRng);
    Argon2::default().hash_password(raw.as_bytes(), &salt).ok().map(|h| h.to_string())
}

/// Verifies a password against a PHC hash string with `Argon2::default()`
/// (`PasswordHash::new`, then `verify_password`); an unparsable hash verifies
/// nothing.
///
/// Claims that the answer is `argon2_accepts` of the two strings: it depends
/// on them alone.
#[verifier::external_body]
pub fn verify_password(raw: &str, phc: &str) -> (ok: bool)
    ensures
        ok == argon2_accepts(raw@, phc@),
{
    match PasswordHash::new(phc) {
        Ok(parsed) => Argon2::default().verify_password(raw.as_bytes(), &parsed).is_ok(),
        Err(_) => false,
    }
}

} // verus!
