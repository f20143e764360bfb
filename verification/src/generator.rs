//! Random credential generation.
//!
//! A credential is a fixed-length string drawn from the sixty-two letter
//! and digit alphabet. The generated value is hashed and discarded by its
//! caller; nothing here persists it.

use vstd::prelude::*;
use rand::Rng;

verus! {

/// Length of every generated credential.
pub const CREDENTIAL_LEN: usize = 12;

/// A character of the credential alphabet: an ASCII letter or digit.
pub open spec fn is_alnum_char(c: char) -> bool {
    ('a' <= c && c <= 'z') || ('A' <= c && c <= 'Z') || ('0' <= c && c <= '9')
}

/// A string drawn entirely from the credential alphabet.
pub open spec fn is_alnum_seq(s: Seq<char>) -> bool {
    forall|i: int| 0 <= i < s.len() ==> is_alnum_char(s[i])
}

/// Relies on rand's Alphanumeric distribution: every sampled byte is an
/// ASCII letter or digit. Nothing more is promised of a random draw.
#[verifier::external_body]
fn random_alnum() -> (c: char)
    ensures
        is_alnum_char(c),
{
    char::from(rand::thread_rng().sample(rand::distributions::Alphanumeric))
}

/// Relies on String::push: it appends the one character at the end.
#[verifier::external_body]
fn push_char(s: &mut String, c: char)
    ensures
        final(s)@ == old(s)@.push(c),
{
    s.push(c);
}

/// Produce a random credential of exactly `length` characters, each drawn
/// from the credential alphabet.
pub fn generate(length: usize) -> (r: String)
    ensures
        r@.len() == length,
        is_alnum_seq(r@),
{
    let mut out = String::new();
    let mut i: usize = 0;
    while i < length
        invariant
            i <= length,
            out@.len() == i,
            is_alnum_seq(out@),
        decreases length - i,
    {
        let c = random_alnum();
        push_char(&mut out, c);
        i = i + 1;
    }
    out
}

} // verus!
