//! One-way hashing of secrets.
//!
//! A secret is never stored; only a bcrypt verifier string derived from it
//! is. The verifier embeds its own salt and cost, so whether it was derived
//! from a given secret is a deterministic function of the secret and the
//! verifier string alone; `bcrypt_accepts` names that decision.

use vstd::prelude::*;
use rand::Rng;

verus! {

/// Length in characters of every bcrypt verifier string.
pub const VERIFIER_LEN: usize = 60;

/// The decision `bcrypt::verify` makes for a secret against a verifier
/// string: true exactly when the verifier was derived from the secret.
/// The verifier carries its salt and cost, so the decision depends on the
/// two arguments alone.
pub uninterp spec fn bcrypt_accepts(secret: Seq<char>, verifier: Seq<char>) -> bool;

/// A verifier string as bcrypt emits it: sixty characters in the modular
/// crypt format, led by a dollar sign. No alphanumeric-only string has
/// this shape.
pub open spec fn hash_shaped(s: Seq<char>) -> bool {
    s.len() == VERIFIER_LEN && s[0] == '$'
}

/// Relies on rand's thread-local generator to draw a fresh salt. Nothing
/// is promised of the value: every salt yields a sound verifier.
#[verifier::external_body]
pub(crate) fn random_salt() -> [u8; 16] {
    rand::thread_rng().gen()
}

/// Relies on bcrypt::hash_with_salt: with the default cost, which lies in
/// bcrypt's allowed range, hashing cannot fail; the result is the sixty
/// character `$2b$` modular-crypt string, and bcrypt::verify accepts the
/// hashed secret against it, both truncating the secret the same way.
#[verifier::external_body]
pub(crate) fn hash_secret(secret: &str, salt: [u8; 16]) -> (r: String)
    ensures
        hash_shaped(r@),
        bcrypt_accepts(secret@, r@),
{
    let parts = bcrypt::hash_with_salt(secret, bcrypt::DEFAULT_COST, salt)
        .expect("the default cost lies in bcrypt's allowed range");
    parts.format_for_version(bcrypt::Version::TwoB)
}

/// Relies on bcrypt::verify: it parses the salt and cost out of the
/// verifier string and recomputes; a malformed verifier, in particular one
/// that is not sixty characters long, is rejected rather than matched.
#[verifier::external_body]
pub(crate) fn check_secret(secret: &str, verifier: &str) -> (r: bool)
    ensures
        r == bcrypt_accepts(secret@, verifier@),
        verifier@.len() != VERIFIER_LEN ==> r == false,
{
    bcrypt::verify(secret, verifier).unwrap_or(false)
}

} // verus!
