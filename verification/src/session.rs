//! The session gate: one authentication flag per opaque session handle.
//!
//! A handle starts unauthenticated; a successful login marks a freshly
//! issued handle authenticated and retires the handle it was called with,
//! so a fixated handle never becomes valid. No transition back exists
//! here: expiry belongs to whoever owns the store.

use vstd::prelude::*;
use std::collections::HashMap;

verus! {

broadcast use vstd::std_specs::hash::group_hash_axioms;

/// Maps session handles to their authentication flag and issues fresh
/// handles. Handles are issued in increasing order, so every handle at or
/// past the issuing mark has never carried a flag.
pub struct SessionGate {
    flags: HashMap<u64, bool>,
    next_handle: u64,
}

impl SessionGate {
    /// The flag stored for a handle, if any.
    pub closed spec fn flag_of(&self, handle: u64) -> Option<bool> {
        if self.flags@.contains_key(handle) {
            Some(self.flags@[handle])
        } else {
            None
        }
    }

    /// A handle is authenticated exactly when its flag is present and
    /// true; an absent or false flag is the same: unauthenticated.
    pub open spec fn is_authenticated(&self, handle: u64) -> bool {
        self.flag_of(handle) == Some(true)
    }

    /// The issuing mark: every handle ever handed out lies below it.
    pub closed spec fn issued_up_to(&self) -> u64 {
        self.next_handle
    }

    /// Validity: only handles below the issuing mark carry a flag.
    pub closed spec fn wf(&self) -> bool {
        forall|h: u64| self.flags@.contains_key(h) ==> h < self.next_handle
    }

    /// An empty gate: nothing issued, every handle unauthenticated.
    pub fn new() -> (r: SessionGate)
        ensures
            r.wf(),
            r.issued_up_to() == 0,
            forall|h: u64| r.flag_of(h) == None::<bool>,
    {
        SessionGate { flags: HashMap::new(), next_handle: 0 }
    }

    /// Issue a handle no request has seen before; it starts with no flag,
    /// hence unauthenticated.
    pub fn fresh_handle(&mut self) -> (r: u64)
        requires
            old(self).wf(),
            old(self).issued_up_to() < u64::MAX,
        ensures
            final(self).wf(),
            r == old(self).issued_up_to(),
            final(self).issued_up_to() == old(self).issued_up_to() + 1,
            !final(self).is_authenticated(r),
            forall|h: u64| final(self).flag_of(h) == old(self).flag_of(h),
    {
        let r = self.next_handle;
        self.next_handle = self.next_handle + 1;
        r
    }

    /// Mark a freshly issued handle authenticated and retire the handle
    /// the caller presented: afterwards the new handle alone gained
    /// authentication and the old one holds no flag at all.
    pub fn grant(&mut self, handle: u64) -> (r: u64)
        requires
            old(self).wf(),
            old(self).issued_up_to() < u64::MAX - 1,
        ensures
            final(self).wf(),
            r != handle,
            final(self).is_authenticated(r),
            final(self).flag_of(handle) == None::<bool>,
            !final(self).is_authenticated(handle),
            forall|h: u64|
                h != handle && h != r ==> final(self).flag_of(h) == old(self).flag_of(h),
            final(self).issued_up_to() <= old(self).issued_up_to() + 2,
            final(self).issued_up_to() > old(self).issued_up_to(),
    {
        let fresh: u64 = if self.next_handle == handle {
            handle + 1
        } else {
            self.next_handle
        };
        self.flags.remove(&handle);
        self.flags.insert(fresh, true);
        self.next_handle = fresh + 1;
        fresh
    }

    /// The issuing mark, readable at run time.
    pub fn mark(&self) -> (r: u64)
        ensures
            r == self.issued_up_to(),
    {
        self.next_handle
    }

    /// Read the flag of a handle: present and true alone authenticates.
    pub fn check(&self, handle: u64) -> (r: bool)
        ensures
            r == self.is_authenticated(handle),
    {
        match self.flags.get(&handle) {
            Some(b) => *b,
            None => false,
        }
    }
}

/// A handle at or past the issuing mark has never been handed out, so no
/// flag can be stored under it: it is unauthenticated.
pub proof fn lemma_unissued_handle_unauthenticated(gate: &SessionGate, handle: u64)
    requires
        gate.wf(),
        handle >= gate.issued_up_to(),
    ensures
        !gate.is_authenticated(handle),
{
}

} // verus!
