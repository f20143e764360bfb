//! The vault: the master-secret verifier and the ordered credential records.
//!
//! Exactly one `VaultState` exists for the process lifetime and every
//! access to it is serialized by its owner; under that exclusive access the
//! operations here are the atomic critical sections.

use vstd::prelude::*;
use crate::errors::VaultError;
use crate::generator;
use crate::hashing;

verus! {

/// One stored site credential: the validated site identifier and the
/// one-way hash of a generated secret. The plaintext secret is never
/// stored and never returned.
#[derive(Debug)]
pub struct CredentialRecord {
    pub site: String,
    pub stored_secret: String,
}

/// The abstract value of a credential record.
pub struct CredentialView {
    pub site: Seq<char>,
    pub stored_secret: Seq<char>,
}

impl View for CredentialRecord {
    type V = CredentialView;

    open spec fn view(&self) -> CredentialView {
        CredentialView { site: self.site@, stored_secret: self.stored_secret@ }
    }
}

impl CredentialRecord {
    /// An equal, independently owned copy of the record.
    pub fn duplicate(&self) -> (r: CredentialRecord)
        ensures
            r@ == self@,
    {
        CredentialRecord { site: self.site.clone(), stored_secret: self.stored_secret.clone() }
    }
}

/// The vault aggregate: one optional master verifier and the records in
/// insertion order.
pub struct VaultState {
    master_key_hash: String,
    records: Vec<CredentialRecord>,
}

impl VaultState {
    /// The stored verifier, as characters; empty while uninitialized.
    pub closed spec fn master_verifier(&self) -> Seq<char> {
        self.master_key_hash@
    }

    /// Whether the master verifier has been set. Once set it never
    /// changes again for the life of the vault.
    pub open spec fn initialized(&self) -> bool {
        self.master_verifier().len() > 0
    }

    /// The stored records in insertion order, as abstract values.
    pub closed spec fn creds(&self) -> Seq<CredentialView> {
        self.records@.map(|k: int, r: CredentialRecord| r@)
    }

    /// Validity: the verifier is absent or a bcrypt verifier string, and
    /// every stored secret is one.
    pub open spec fn wf(&self) -> bool {
        &&& (self.master_verifier().len() == 0 || hashing::hash_shaped(self.master_verifier()))
        &&& forall|k: int|
            0 <= k < self.creds().len() ==> hashing::hash_shaped(
                #[trigger] self.creds()[k].stored_secret,
            )
    }

    /// An empty vault: no verifier, no records.
    pub fn new() -> (r: VaultState)
        ensures
            r.wf(),
            !r.initialized(),
            r.creds() == Seq::<CredentialView>::empty(),
    {
        let r = VaultState { master_key_hash: String::new(), records: Vec::new() };
        proof {
            assert(r.creds() =~= Seq::<CredentialView>::empty());
        }
        r
    }

    /// Set the master verifier, exactly once. Fails with
    /// `AlreadyInitialized`, changing nothing, when a verifier is already
    /// stored; otherwise stores a one-way verifier of `secret` that
    /// afterwards accepts exactly that secret.
    pub fn initialize_master(&mut self, secret: &str) -> (r: Result<(), VaultError>)
        requires
            old(self).wf(),
        ensures
            final(self).wf(),
            final(self).creds() == old(self).creds(),
            old(self).initialized() ==> r == Err::<(), VaultError>(VaultError::AlreadyInitialized)
                && final(self).master_verifier() == old(self).master_verifier(),
            !old(self).initialized() ==> r == Ok::<(), VaultError>(()) && final(self).initialized()
                && hashing::bcrypt_accepts(secret@, final(self).master_verifier()),
    {
        if self.master_key_hash.as_str().is_empty() {
            let salt = hashing::random_salt();
            self.master_key_hash = hashing::hash_secret(secret, salt);
            proof {
                assert(self.creds() =~= old(self).creds());
            }
            Ok(())
        } else {
            Err(VaultError::AlreadyInitialized)
        }
    }

    /// Whether `secret` matches the stored verifier. Verifying against an
    /// absent verifier is an ordinary mismatch, never a fault.
    pub fn verify_master(&self, secret: &str) -> (r: bool)
        ensures
            r == hashing::bcrypt_accepts(secret@, self.master_verifier()),
            !self.initialized() ==> r == false,
    {
        hashing::check_secret(secret, self.master_key_hash.as_str())
    }

    /// Append one credential for `site`: reject a site that fails
    /// validation; otherwise generate a fresh secret, store only its hash,
    /// and return a copy of the stored record. Nothing already stored
    /// moves or disappears.
    pub fn append_credential(&mut self, site: &str) -> (r: Result<CredentialRecord, VaultError>)
        requires
            old(self).wf(),
        ensures
            final(self).wf(),
            final(self).master_verifier() == old(self).master_verifier(),
            !crate::site::site_matches(site@) ==> r == Err::<CredentialRecord, VaultError>(
                VaultError::InvalidSite,
            ) && final(self).creds() == old(self).creds(),
            crate::site::site_matches(site@) ==> match r {
                Ok(rec) => {
                    &&& rec@.site == site@
                    &&& hashing::hash_shaped(rec@.stored_secret)
                    &&& (exists|p: Seq<char>|
                        generator::is_alnum_seq(p) && p.len() == generator::CREDENTIAL_LEN
                            && hashing::bcrypt_accepts(p, rec@.stored_secret))
                    &&& final(self).creds() == old(self).creds().push(rec@)
                },
                Err(_) => false,
            },
    {
        if !crate::site::is_valid(site) {
            return Err(VaultError::InvalidSite);
        }
        let plain = generator::generate(generator::CREDENTIAL_LEN);
        let salt = hashing::random_salt();
        let hashed = hashing::hash_secret(plain.as_str(), salt);
        let rec = CredentialRecord { site: site.to_owned(), stored_secret: hashed };
        let out = rec.duplicate();
        proof {
            assert(generator::is_alnum_seq(plain@) && plain@.len() == generator::CREDENTIAL_LEN
                && hashing::bcrypt_accepts(plain@, rec@.stored_secret));
        }
        self.records.push(rec);
        proof {
            assert(self.creds() =~= old(self).creds().push(rec@));
        }
        Ok(out)
    }

    /// A snapshot copy of the records, in insertion order.
    pub fn list_credentials(&self) -> (r: Vec<CredentialRecord>)
        ensures
            r@.len() == self.creds().len(),
            forall|k: int| 0 <= k < r@.len() ==> #[trigger] r@[k]@ == self.creds()[k],
    {
        let mut out: Vec<CredentialRecord> = Vec::new();
        let mut k: usize = 0;
        while k < self.records.len()
            invariant
                k <= self.records.len(),
                out@.len() == k,
                forall|j: int| 0 <= j < k ==> #[trigger] out@[j]@ == self.creds()[j],
            decreases self.records.len() - k,
        {
            out.push(self.records[k].duplicate());
            k = k + 1;
        }
        out
    }
}

/// No plaintext a generator could have produced is ever a stored secret:
/// stored secrets have the shape of a bcrypt verifier string, which starts
/// with a dollar sign, and the credential alphabet has none.
pub proof fn lemma_storage_opacity(plain: Seq<char>, stored: Seq<char>)
    requires
        generator::is_alnum_seq(plain),
        hashing::hash_shaped(stored),
    ensures
        plain != stored,
{
    if plain == stored {
        assert(generator::is_alnum_char(plain[0]));
        assert(plain[0] == '$');
    }
}

} // verus!
