//! Password hashing, session tokens, and the household access guards.

use argon2::password_hash::{PasswordHash, PasswordHasher, PasswordVerifier, SaltString};
use rand_core::RngCore;
use vstd::prelude::*;
use vstd::utf8::encode_utf8;
use crate::error::{ApiError, ApiErrorView};
use crate::text::{hex_bytes, hex_lower};

verus! {

/// Whether argon2 accepts `password` against the PHC-format `hash`
/// (`PasswordHash::new(hash)` parses and `Argon2::default().verify_password`
/// succeeds). A function of its two arguments alone.
pub uninterp spec fn argon2_accepts(password: Seq<char>, hash: Seq<char>) -> bool;

/// `Argon2::default().hash_password(password, &salt)` with the salt given as
/// 16 random bytes (brought into the crate's salt type by
/// `SaltString::encode_b64`, which accepts 16 bytes), rendered as a PHC
/// string. The text depends on the salt; the crate's documented round trip
/// is claimed: the hash it returns verifies the same password. With the
/// default parameters and a 16-byte salt, argon2 reports an error only for a
/// password longer than `MAX_PWD_LEN` (`0xFFFF_FFFF`) bytes, which gives
/// `None`.
#[verifier::external_body]
fn argon2_hash(password: &str, salt: &[u8]) -> (r: Option<String>)
    requires
        salt@.len() == 16,
    ensures
        r is Some <==> encode_utf8(password@).len() <= 0xFFFF_FFFF,
        r matches Some(h) ==> argon2_accepts(password@, h@),
{
    let salt = match SaltString::encode_b64(salt) {
        Ok(s) => s,
        Err(_) => return None,
    };
    match argon2::Argon2::default().hash_password(password.as_bytes(), &salt) {
        Ok(h) => Some(h.to_string()),
        Err(_) => None,
    }
}

/// `PasswordHash::new(hash)` followed by `Argon2::default().verify_password`:
/// true exactly when the hash parses and the password matches it.
#[verifier::external_body]
fn argon2_verify(password: &str, hash: &str) -> (ok: bool)
    ensures
        ok == argon2_accepts(password@, hash@),
{
    match PasswordHash::new(hash) {
        Ok(parsed) => argon2::Argon2::default().verify_password(password.as_bytes(), &parsed).is_ok(),
        Err(_) => false,
    }
}

/// `rand_core::OsRng.try_fill_bytes` on `n` bytes: `None` where the operating
/// system's random source reports an error; otherwise `n` random bytes, of
/// which nothing more is claimed.
#[verifier::external_body]
pub(crate) fn os_random_bytes(n: usize) -> (r: Option<Vec<u8>>)
    requires
        n <= 64,
    ensures
        r matches Some(b) ==> b@.len() == n,
{
    let mut bytes = vec![0u8; n];
    match rand_core::OsRng.try_fill_bytes(&mut bytes) {
        Ok(()) => Some(bytes),
        Err(_) => None,
    }
}

/// Hashes a password with argon2 and a fresh random salt; the hash verifies
/// the password it was made from. It fails where the password is longer than
/// argon2 accepts, or where the system's random source fails.
pub fn hash_password(password: &str) -> (r: Result<String, ApiError>)
    ensures
        r is Ok ==> encode_utf8(password@).len() <= 0xFFFF_FFFF,
        r matches Ok(h) ==> argon2_accepts(password@, h@),
        r matches Err(e) ==> e@ == ApiErrorView::Internal,
{
    let salt = match os_random_bytes(16) {
        Some(b) => b,
        None => return Err(ApiError::Internal),
    };
    match argon2_hash(password, salt.as_slice()) {
        Some(h) => Ok(h),
        None => Err(ApiError::Internal),
    }
}

/// Whether `password` matches the stored argon2 `hash`.
pub fn verify_password(password: &str, hash: &str) -> (ok: bool)
    ensures
        ok == argon2_accepts(password@, hash@),
{
    argon2_verify(password, hash)
}

/// 32 random bytes as lowercase hex (64 characters); `None` where the system
/// RNG fails.
pub fn new_token() -> (r: Option<String>)
    ensures
        r matches Some(t) ==> exists|b: Seq<u8>| b.len() == 32 && t@ == hex_bytes(b),
{
    match os_random_bytes(32) {
        Some(bytes) => {
            let t = hex_lower(bytes.as_slice());
            Some(t)
        },
        None => None,
    }
}

} // verus!
