//! Credential manager: password hashing and verification, built on bcrypt.
//!
//! Hashing salts each call, so equal plaintexts produce different hashes;
//! what ties a hash back to its plaintext is `bcrypt_matches`.

use vstd::prelude::*;

use crate::errors::StoreError;

verus! {

/// Whether bcrypt accepts `password` against the encoded hash `hash`, i.e.
/// whether `bcrypt::verify(password, hash)` returns `Ok(true)`. That call
/// re-derives the digest from the password and from the salt and cost
/// embedded in the hash, then compares; it reads nothing but its two
/// arguments, so its outcome is a function of them alone.
pub uninterp spec fn bcrypt_matches(password: Seq<char>, hash: Seq<char>) -> bool;

#[verifier::external_type_specification]
#[verifier::external_body]
pub struct ExBcryptError(bcrypt::BcryptError);

/// The fixed work factor used when hashing passwords, as bcrypt counts it:
/// moderately expensive, to resist brute force.
pub const HASH_COST: u32 = 10;

/// Relies on bcrypt::hash: on success the result is the 60-character encoded
/// hash of this password under a fresh random salt, and bcrypt::verify
/// accepts the same password against it (the cost and salt are embedded in
/// the hash, and a cost accepted by bcrypt::hash is also accepted when
/// verifying).
#[verifier::external_body]
fn hash_with_cost(password: &str, cost: u32) -> (r: Result<String, bcrypt::BcryptError>)
    ensures
        r matches Ok(h) ==> bcrypt_matches(password@, h@) && h@.len() == 60,
{
    bcrypt::hash(password, cost)
}

/// Relies on bcrypt::verify: deterministic in its two arguments; returns
/// Ok(true) exactly when the password matches the hash, Ok(false) on a
/// well-formed mismatch, and an error only when the hash is malformed (in
/// which case no password matches it).
#[verifier::external_body]
fn verify_with_bcrypt(password: &str, hash: &str) -> (r: Result<bool, bcrypt::BcryptError>)
    ensures
        r matches Ok(b) ==> b == bcrypt_matches(password@, hash@),
        r matches Err(_) ==> !bcrypt_matches(password@, hash@),
{
    bcrypt::verify(password, hash)
}

/// One-way transform of a plaintext password, with a per-call random salt
/// baked into the output encoding. Fails only on a catastrophic internal
/// error (the salt could not be drawn), surfaced as `Persistence`.
pub fn hash(password: &str) -> (r: Result<String, StoreError>)
    ensures
        r matches Ok(h) ==> bcrypt_matches(password@, h@) && h@.len() == 60,
        r matches Err(e) ==> e == StoreError::Persistence,
{
    match hash_with_cost(password, HASH_COST) {
        Ok(h) => Ok(h),
        Err(_) => Err(StoreError::Persistence),
    }
}

/// Whether `password` matches `hash`. A well-formed mismatch and a malformed
/// hash both yield `false`, never an error: rejection is an outcome here, not
/// a failure.
pub fn verify(password: &str, hash: &str) -> (r: bool)
    ensures
        r == bcrypt_matches(password@, hash@),
{
    match verify_with_bcrypt(password, hash) {
        Ok(b) => b,
        Err(_) => false,
    }
}

} // verus!
