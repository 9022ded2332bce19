//! Password hashing under a fixed salt policy.
//!
//! A plaintext password is turned into a stable one-way digest by the
//! SHA-512 crypt scheme, with one system-wide salt.  The digest is a
//! pure function of salt and password, so hashing the same password
//! twice yields the same digest.

use vstd::prelude::*;

verus! {

use crate::store::ErrorKind;

/// The digest that the SHA-512 crypt scheme (default rounds) computes
/// for a given salt and password.  It depends on those two values alone.
pub uninterp spec fn digest_of(salt: Seq<char>, password: Seq<char>) -> Seq<char>;

/// The digest of a password under this crate's fixed salt policy.
pub open spec fn spec_digest(password: Seq<char>) -> Seq<char> {
    digest_of("10"@, password)
}

/// Relies on `pwhash::sha512_crypt::hash_with` called with an explicit
/// salt and unset rounds: the result is a deterministic function of the
/// salt and the password alone, and for the two-character salt "10"
/// (both characters of the crypt base-64 alphabet) the call always
/// returns `Ok`.
#[verifier::external_body]
fn sha512_crypt_digest(salt: &str, password: &str) -> (r: Option<String>)
    requires
        salt@ == "10"@,
    ensures
        r is Some,
        r matches Some(d) ==> d@ == digest_of(salt@, password@),
{
    let setup = pwhash::HashSetup { salt: Some(salt), rounds: None };
    match pwhash::sha512_crypt::hash_with(setup, password) {
        Ok(d) => Some(d),
        Err(_) => None,
    }
}

/// Hash a plaintext password under the fixed salt policy.
///
/// Deterministic: the result is pinned to `spec_digest` of the input.
pub fn hash(password: &str) -> (r: Result<String, ErrorKind>)
    ensures
        r is Ok,
        r matches Ok(d) ==> d@ == spec_digest(password@),
{
    match sha512_crypt_digest("10", password) {
        Some(d) => Ok(d),
        None => Err(ErrorKind::HashFailure),
    }
}

} // verus!
