use vstd::prelude::*;

use crate::errors::AuthError;

verus! {

/// What `bcrypt::verify` answers for a password against a stored hash string.
/// The check recomputes the digest from the cost and salt embedded in the hash
/// and compares in constant time, so it is a function of the two strings alone.
pub uninterp spec fn bcrypt_check(password: Seq<char>, hashed: Seq<char>) -> bool;

/// Whether `bcrypt::verify` can check passwords against this stored hash at
/// all: the self-describing format parses and its cost is in range. A function
/// of the hash string alone — the password plays no part in whether the check
/// itself runs, only in its answer.
pub uninterp spec fn bcrypt_wf(hashed: Seq<char>) -> bool;

/// Relies on `bcrypt::hash` with the crate's default cost: it salts and hashes
/// the password into a self-describing hash string that `bcrypt::verify` always
/// re-parses, and against which the same password answers true. Fails only on
/// an internal fault such as an unavailable entropy source.
#[verifier::external_body]
fn bcrypt_hash_call(password: &str) -> (r: Result<String, AuthError>)
    ensures
        match r {
            Ok(h) => bcrypt_check(password@, h@) && bcrypt_wf(h@),
            Err(e) => e == AuthError::HashingFailure,
        },
{
    match bcrypt::hash(password, bcrypt::DEFAULT_COST) {
        Ok(h) => Ok(h),
        Err(_) => Err(AuthError::HashingFailure),
    }
}

/// Relies on `bcrypt::verify`: deterministic in the password and the stored
/// hash string; any mismatch answers false rather than an error. Whether the
/// call succeeds at all is decided by the hash string alone — it fails exactly
/// when the hash cannot be parsed or carries a cost out of range.
#[verifier::external_body]
fn bcrypt_verify_call(password: &str, hashed: &str) -> (r: Result<bool, AuthError>)
    ensures
        r is Ok <==> bcrypt_wf(hashed@),
        match r {
            Ok(b) => b == bcrypt_check(password@, hashed@),
            Err(e) => e == AuthError::VerificationFailure,
        },
{
    match bcrypt::verify(password, hashed) {
        Ok(b) => Ok(b),
        Err(_) => Err(AuthError::VerificationFailure),
    }
}

/// One-way transformation of plaintext passwords into verifiable hashes, and
/// the comparison used at login. Pure computation: no state, no I/O.
pub struct CredentialStore;

impl CredentialStore {
    /// Hash a plaintext password into a self-describing, salted hash string.
    /// The result is well formed and verifies against the same plaintext;
    /// `HashingFailure` comes only from an internal fault, never from the
    /// input's value.
    pub fn hash(password: &str) -> (r: Result<String, AuthError>)
        ensures
            match r {
                Ok(h) => bcrypt_check(password@, h@) && bcrypt_wf(h@),
                Err(e) => e == AuthError::HashingFailure,
            },
    {
        bcrypt_hash_call(password)
    }

    /// Check a plaintext password against a stored hash. A mismatch answers
    /// `Ok(false)`, never a grant. The check succeeds exactly when the stored
    /// hash is well formed — as every hash this module produces is — and
    /// `VerificationFailure`, owed otherwise, is treated by callers as a
    /// denial.
    pub fn verify(password: &str, stored_hash: &str) -> (r: Result<bool, AuthError>)
        ensures
            r is Ok <==> bcrypt_wf(stored_hash@),
            match r {
                Ok(b) => b == bcrypt_check(password@, stored_hash@),
                Err(e) => e == AuthError::VerificationFailure,
            },
    {
        bcrypt_verify_call(password, stored_hash)
    }
}

} // verus!
