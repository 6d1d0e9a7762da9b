//! Password hashes (Argon2, by the `argon2` crate) and their check.

use vstd::prelude::*;
use argon2::password_hash::{PasswordHash, PasswordHasher, PasswordVerifier, SaltString};
use argon2::Argon2;
use crate::error::AppError;
use crate::utils::token::random_bytes;

verus! {

/// Whether `PasswordHash::new` parses `phc_hash` as a PHC string.
pub uninterp spec fn phc_parses(phc_hash: Seq<char>) -> bool;

/// Whether Argon2 accepts `password` against the PHC string `phc_hash`: the hash is
/// recomputed with the salt and parameters that the string holds and compared with it.
pub uninterp spec fn argon2_accepts(password: Seq<char>, phc_hash: Seq<char>) -> bool;

/// The PHC string of the Argon2 hash (default parameters) of `password` with `salt`.
pub uninterp spec fn argon2_phc(password: Seq<char>, salt: Seq<u8>) -> Seq<char>;

/// The longest password Argon2 hashes, in UTF-8 bytes (`argon2::MAX_PWD_LEN`).
pub const MAX_PASSWORD_BYTES: u64 = 0xFFFF_FFFF;

/// Parses `phc_hash` with `PasswordHash::new` and, when it parses, checks `password`
/// against it with `Argon2::verify_password`. The contract names whether the string
/// parses (`phc_parses`) and the answer (`argon2_accepts`), both functions of the two
/// strings alone, and says no more of them.
#[verifier::external_body]
fn argon2_verify(password: &str, phc_hash: &str) -> (r: Option<bool>)
    ensures
        r is Some <==> phc_parses(phc_hash@),
        r matches Some(ok) ==> ok == argon2_accepts(password@, phc_hash@),
{
    match PasswordHash::new(phc_hash) {
        Ok(parsed) => Some(Argon2::default().verify_password(password.as_bytes(), &parsed).is_ok()),
        Err(_) => None,
    }
}

/// Encodes `salt` with `SaltString::encode_b64` and hashes `password` with
/// `Argon2::default().hash_password`. With a 16-byte salt, hashing fails exactly when the
/// password is longer than `MAX_PASSWORD_BYTES` UTF-8 bytes (`Error::PwdTooLong`); the
/// encoding of 16 bytes always fits a salt string. On success the PHC string is the one
/// named `argon2_phc` of the password and the salt; it parses, and Argon2 accepts the
/// password against it (verification recomputes this very hash from the salt and
/// parameters the string holds).
#[verifier::external_body]
fn argon2_hash(password: &str, salt: &[u8]) -> (r: Option<String>)
    requires
        salt@.len() == 16,
    ensures
        r is Some <==> vstd::utf8::encode_utf8(password@).len() <= MAX_PASSWORD_BYTES,
        r matches Some(h) ==> h@ == argon2_phc(password@, salt@) && phc_parses(h@)
            && argon2_accepts(password@, h@),
{
    let salt = match SaltString::encode_b64(salt) {
        Ok(s) => s,
        Err(_) => return None,
    };
    match Argon2::default().hash_password(password.as_bytes(), &salt) {
        Ok(hash) => Some(hash.to_string()),
        Err(_) => None,
    }
}

/// Whether `password` matches the stored Argon2 hash `phc_hash`; a stored string that is
/// no PHC string is the error `InvalidPasswordHash`.
pub fn verify_password(password: &str, phc_hash: &str) -> (r: Result<bool, AppError>)
    ensures
        r is Ok <==> phc_parses(phc_hash@),
        r matches Ok(ok) ==> ok == argon2_accepts(password@, phc_hash@),
        r matches Err(e) ==> e == AppError::InvalidPasswordHash,
{
    match argon2_verify(password, phc_hash) {
        Some(ok) => Ok(ok),
        None => Err(AppError::InvalidPasswordHash),
    }
}

/// An Argon2 hash of `password` with a fresh random 16-byte salt: a PHC string that the
/// password is accepted against. Refused (`Cannot hash the password.`) exactly when the
/// password is longer than `MAX_PASSWORD_BYTES` UTF-8 bytes.
pub fn hash_password(password: &str) -> (r: Result<String, AppError>)
    ensures
        r is Ok <==> vstd::utf8::encode_utf8(password@).len() <= MAX_PASSWORD_BYTES,
        r matches Ok(h) ==> phc_parses(h@) && argon2_accepts(password@, h@),
        r matches Err(e) ==> e matches AppError::BadRequest(m) && m@
            == "Cannot hash the password."@,
{
    let salt = random_bytes(16);
    match argon2_hash(password, salt.as_slice()) {
        Some(h) => Ok(h),
        None => Err(AppError::BadRequest(String::from_str("Cannot hash the password."))),
    }
}

} // verus!
