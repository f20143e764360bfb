//! The façade a transport layer calls: initialization, login, and the two
//! gated vault operations.
//!
//! One `VaultService` exists for the process lifetime. Its owner serializes
//! every call (each takes the whole service exclusively), so each operation
//! here is one atomic critical section over the shared vault: reads see
//! every earlier write and no addition is ever lost.

use vstd::prelude::*;
use crate::errors::VaultError;
use crate::generator;
use crate::hashing;
use crate::session::SessionGate;
use crate::site;
use crate::vault::{CredentialRecord, CredentialView, VaultState};

verus! {

/// The vault behind its gate: the one shared mutable aggregate.
pub struct VaultService {
    vault: VaultState,
    sessions: SessionGate,
}

impl VaultService {
    /// The stored verifier; empty while uninitialized.
    pub closed spec fn master_verifier(&self) -> Seq<char> {
        self.vault.master_verifier()
    }

    /// Whether the master verifier has been set.
    pub open spec fn initialized(&self) -> bool {
        self.master_verifier().len() > 0
    }

    /// The stored records in insertion order, as abstract values.
    pub closed spec fn creds(&self) -> Seq<CredentialView> {
        self.vault.creds()
    }

    /// Whether a session handle is authenticated.
    pub closed spec fn is_authenticated(&self, handle: u64) -> bool {
        self.sessions.is_authenticated(handle)
    }

    /// The session issuing mark: every handle handed out lies below it.
    pub closed spec fn issued_up_to(&self) -> u64 {
        self.sessions.issued_up_to()
    }

    /// Validity of the aggregate.
    pub closed spec fn wf(&self) -> bool {
        self.vault.wf() && self.sessions.wf()
    }

    /// A fresh service: uninitialized vault, no records, no sessions.
    pub fn new() -> (r: VaultService)
        ensures
            r.wf(),
            !r.initialized(),
            r.creds() == Seq::<CredentialView>::empty(),
            r.issued_up_to() == 0,
            forall|h: u64| !r.is_authenticated(h),
    {
        VaultService { vault: VaultState::new(), sessions: SessionGate::new() }
    }

    /// The issuing mark, readable at run time so a caller can see that
    /// handles cannot run out before asking for one.
    pub fn session_mark(&self) -> (r: u64)
        ensures
            r == self.issued_up_to(),
    {
        self.sessions.mark()
    }

    /// Hand out a session handle for a new client; it starts
    /// unauthenticated.
    pub fn fresh_session(&mut self) -> (r: u64)
        requires
            old(self).wf(),
            old(self).issued_up_to() < u64::MAX,
        ensures
            final(self).wf(),
            r == old(self).issued_up_to(),
            final(self).issued_up_to() == old(self).issued_up_to() + 1,
            !final(self).is_authenticated(r),
            forall|h: u64|
                final(self).is_authenticated(h) == old(self).is_authenticated(h),
            final(self).master_verifier() == old(self).master_verifier(),
            final(self).creds() == old(self).creds(),
    {
        self.sessions.fresh_handle()
    }

    /// Set the master secret, exactly once: a second call fails with
    /// `AlreadyInitialized` and leaves the stored verifier unchanged;
    /// the first call stores a verifier that accepts exactly that secret.
    /// Sessions are untouched either way.
    pub fn initialize(&mut self, secret: &str) -> (r: Result<(), VaultError>)
        requires
            old(self).wf(),
        ensures
            final(self).wf(),
            final(self).creds() == old(self).creds(),
            final(self).issued_up_to() == old(self).issued_up_to(),
            forall|h: u64|
                final(self).is_authenticated(h) == old(self).is_authenticated(h),
            old(self).initialized() ==> r == Err::<(), VaultError>(VaultError::AlreadyInitialized)
                && final(self).master_verifier() == old(self).master_verifier(),
            !old(self).initialized() ==> r == Ok::<(), VaultError>(()) && final(self).initialized()
                && hashing::bcrypt_accepts(secret@, final(self).master_verifier()),
    {
        self.vault.initialize_master(secret)
    }

    /// Authenticate a session: when the secret matches the stored
    /// verifier, a handle never seen before becomes the one authenticated
    /// session and the presented handle is retired — it is not
    /// authenticated afterwards. A mismatch, and in particular any login
    /// before initialization, fails with `BadCredential` and changes
    /// nothing. The vault itself is never touched.
    pub fn login(&mut self, secret: &str, handle: u64) -> (r: Result<u64, VaultError>)
        requires
            old(self).wf(),
            old(self).issued_up_to() < u64::MAX - 1,
        ensures
            final(self).wf(),
            final(self).master_verifier() == old(self).master_verifier(),
            final(self).creds() == old(self).creds(),
            final(self).issued_up_to() <= old(self).issued_up_to() + 2,
            !hashing::bcrypt_accepts(secret@, old(self).master_verifier()) ==> r == Err::<
                u64,
                VaultError,
            >(VaultError::BadCredential) && final(self).issued_up_to() == old(self).issued_up_to()
                && (forall|h: u64|
                final(self).is_authenticated(h) == old(self).is_authenticated(h)),
            !old(self).initialized() ==> r == Err::<u64, VaultError>(VaultError::BadCredential),
            hashing::bcrypt_accepts(secret@, old(self).master_verifier()) ==> match r {
                Ok(renewed) => {
                    &&& renewed != handle
                    &&& final(self).is_authenticated(renewed)
                    &&& !final(self).is_authenticated(handle)
                    &&& (forall|h: u64|
                        h != handle && h != renewed ==> final(self).is_authenticated(h) == old(
                            self,
                        ).is_authenticated(h))
                },
                Err(_) => false,
            },
    {
        if self.vault.verify_master(secret) {
            Ok(self.sessions.grant(handle))
        } else {
            Err(VaultError::BadCredential)
        }
    }

    /// Add a credential for `site` under an authenticated session: an
    /// unauthenticated handle is refused with `Unauthorized` whatever the
    /// vault holds; an invalid site with `InvalidSite`; otherwise exactly
    /// one record, holding the site and only a hash of a fresh generated
    /// secret, is appended behind everything already stored. Sessions and
    /// verifier are untouched.
    pub fn add_credential(&mut self, handle: u64, site_name: &str) -> (r: Result<
        CredentialRecord,
        VaultError,
    >)
        requires
            old(self).wf(),
        ensures
            final(self).wf(),
            final(self).master_verifier() == old(self).master_verifier(),
            final(self).issued_up_to() == old(self).issued_up_to(),
            forall|h: u64|
                final(self).is_authenticated(h) == old(self).is_authenticated(h),
            !old(self).is_authenticated(handle) ==> r == Err::<CredentialRecord, VaultError>(
                VaultError::Unauthorized,
            ) && final(self).creds() == old(self).creds(),
            old(self).is_authenticated(handle) && !site::site_matches(site_name@) ==> r == Err::<
                CredentialRecord,
                VaultError,
            >(VaultError::InvalidSite) && final(self).creds() == old(self).creds(),
            old(self).is_authenticated(handle) && site::site_matches(site_name@) ==> match r {
                Ok(rec) => {
                    &&& rec@.site == site_name@
                    &&& hashing::hash_shaped(rec@.stored_secret)
                    &&& (exists|p: Seq<char>|
                        generator::is_alnum_seq(p) && p.len() == generator::CREDENTIAL_LEN
                            && hashing::bcrypt_accepts(p, rec@.stored_secret))
                    &&& final(self).creds() == old(self).creds().push(rec@)
                },
                Err(_) => false,
            },
    {
        if !self.sessions.check(handle) {
            return Err(VaultError::Unauthorized);
        }
        self.vault.append_credential(site_name)
    }

    /// List the stored records under an authenticated session: an
    /// unauthenticated handle is refused with `Unauthorized`; otherwise a
    /// snapshot of the records, in insertion order. Nothing changes.
    pub fn list_credentials(&self, handle: u64) -> (r: Result<Vec<CredentialRecord>, VaultError>)
        ensures
            !self.is_authenticated(handle) ==> r == Err::<Vec<CredentialRecord>, VaultError>(
                VaultError::Unauthorized,
            ),
            self.is_authenticated(handle) ==> match r {
                Ok(list) => list@.len() == self.creds().len() && (forall|k: int|
                    0 <= k < list@.len() ==> #[trigger] list@[k]@ == self.creds()[k]),
                Err(_) => false,
            },
    {
        if !self.sessions.check(handle) {
            return Err(VaultError::Unauthorized);
        }
        Ok(self.vault.list_credentials())
    }
}

/// A handle at or past the issuing mark was never handed out, so it never
/// authenticated: whatever the vault holds, the gated operations refuse it.
pub proof fn lemma_unissued_handle_unauthenticated(service: &VaultService, handle: u64)
    requires
        service.wf(),
        handle >= service.issued_up_to(),
    ensures
        !service.is_authenticated(handle),
{
    crate::session::lemma_unissued_handle_unauthenticated(&service.sessions, handle);
}

/// Serialized additions accumulate: a run of successful additions extends
/// the records by exactly its own count, keeps every earlier record in
/// place, and appends the new ones in order — none is lost.
pub proof fn lemma_serialized_adds_accumulate(
    before: Seq<CredentialView>,
    added: Seq<CredentialView>,
)
    ensures
        (before + added).len() == before.len() + added.len(),
        forall|j: int| 0 <= j < before.len() ==> #[trigger] (before + added)[j] == before[j],
        forall|j: int|
            0 <= j < added.len() ==> #[trigger] (before + added)[before.len() + j] == added[j],
{
}

} // verus!
