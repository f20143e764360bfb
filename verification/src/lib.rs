//! A minimal server-side credential vault.
//!
//! One master secret gates access to an ordered collection of per-site
//! credential records. The crate holds the core: one-time master-secret
//! initialization, secret verification, session-scoped authorization,
//! site-identifier validation, random credential generation, and the
//! vault store those operations guard. Transport, cross-origin policy and
//! process bootstrap are collaborators outside it; they drive the
//! [`service::VaultService`] facade with plain values.

pub mod errors;
pub mod generator;
pub mod hashing;
pub mod service;
pub mod session;
pub mod site;
pub mod vault;
