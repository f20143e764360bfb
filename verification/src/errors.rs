//! The terminal outcomes a vault operation can surface to its caller.

use vstd::prelude::*;

verus! {

/// Every failure of a vault operation is one of these four per-request
/// outcomes; none is retried and none is fatal to the process.
#[derive(Clone, Copy, Debug, PartialEq, Eq, Structural)]
pub enum VaultError {
    /// The master secret was already set; it is set exactly once.
    AlreadyInitialized,
    /// The supplied master secret does not match the stored verifier.
    BadCredential,
    /// The session handle does not carry a true authentication flag.
    Unauthorized,
    /// The site identifier fails syntactic validation.
    InvalidSite,
}

} // verus!
