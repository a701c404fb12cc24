//! The process-wide cancellation registry: a map from a transfer's identity
//! (its source URL) to its cancellation handle.
//!
//! Callers that share the registry across concurrent transfers wrap it in a
//! lock; every operation here is a short critical section.
use vstd::prelude::*;
use vstd::string::StringExecFns;

verus! {

/// A single-use cancellation signal with two states: armed, then cancelled.
/// The transition is one-way; asking an already-cancelled handle to cancel
/// again changes nothing.
#[derive(Clone, Debug)]
pub struct CancellationHandle {
    pub cancelled: bool,
}

impl CancellationHandle {
    /// A fresh handle in the armed state.
    pub fn new() -> (h: Self)
        ensures
            !h.cancelled,
    {
        CancellationHandle { cancelled: false }
    }

    /// Signal the handle.  One-way and idempotent.
    pub fn cancel(&mut self)
        ensures
            final(self).cancelled,
    {
        self.cancelled = true;
    }

    pub fn is_cancelled(&self) -> (r: bool)
        ensures
            r == self.cancelled,
    {
        self.cancelled
    }
}

/// One registry slot.  The slot survives revocation so that a transfer can
/// still observe a signal delivered before its entry was removed: `active`
/// says whether the identity is currently registered, while the handle keeps
/// its own state.
#[derive(Clone, Debug)]
pub struct RegistryEntry {
    pub identity: String,
    pub active: bool,
    pub handle: CancellationHandle,
}

/// Map from transfer identity to cancellation handle.  At most one entry —
/// registered or revoked — exists per identity.
#[derive(Debug)]
pub struct CancellationRegistry {
    pub entries: Vec<RegistryEntry>,
}

impl CancellationRegistry {
    /// Identities are unique across all slots.
    pub open spec fn wf(&self) -> bool {
        forall|i: int, j: int|
            0 <= i < self.entries@.len() && 0 <= j < self.entries@.len()
                && (#[trigger] self.entries@[i]).identity@ == (
            #[trigger] self.entries@[j]).identity@ ==> i == j
    }

    /// Whether some slot (registered or revoked) exists for `id`.
    pub open spec fn has_entry(&self, id: Seq<char>) -> bool {
        exists|i: int|
            0 <= i < self.entries@.len() && (#[trigger] self.entries@[i]).identity@ == id
    }

    /// The slot for `id`, where one exists.
    pub open spec fn entry_for(&self, id: Seq<char>) -> RegistryEntry {
        self.entries@[choose|i: int|
            0 <= i < self.entries@.len() && (#[trigger] self.entries@[i]).identity@ == id]
    }

    /// Whether a registered (not yet revoked) handle exists for `id`.
    pub open spec fn active_for(&self, id: Seq<char>) -> bool {
        self.has_entry(id) && self.entry_for(id).active
    }

    /// Whether the handle for `id` has been signalled.
    pub open spec fn cancelled_for(&self, id: Seq<char>) -> bool {
        self.has_entry(id) && self.entry_for(id).handle.cancelled
    }

    pub fn new() -> (r: Self)
        ensures
            r.wf(),
            r.entries@.len() == 0,
            forall|id: Seq<char>| !r.has_entry(id),
    {
        CancellationRegistry { entries: Vec::new() }
    }

    /// Index of the slot for `id`, if any.
    fn position(&self, id: &String) -> (r: Option<usize>)
        ensures
            match r {
                Some(i) => i < self.entries@.len() && self.entries@[i as int].identity@ == id@,
                None => !self.has_entry(id@),
            },
    {
        let n = self.entries.len();
        let mut i: usize = 0;
        while i < n
            invariant
                n == self.entries@.len(),
                i <= n,
                forall|k: int| 0 <= k < i ==> (#[trigger] self.entries@[k]).identity@ != id@,
            decreases n - i,
        {
            if self.entries[i].identity == *id {
                return Some(i);
            }
            i = i + 1;
        }
        None
    }

    /// Store `handle` for `identity`, overwriting any prior slot for that
    /// identity.  Slots for other identities are untouched.
    pub fn register(&mut self, identity: String, handle: CancellationHandle)
        requires
            old(self).wf(),
        ensures
            final(self).wf(),
            final(self).active_for(identity@),
            final(self).cancelled_for(identity@) == handle.cancelled,
            final(self).entry_for(identity@) == (RegistryEntry {
                identity: identity,
                active: true,
                handle: handle,
            }),
            forall|id: Seq<char>|
                id != identity@ ==> #[trigger] final(self).has_entry(id) == old(self).has_entry(id)
                    && final(self).active_for(id) == old(self).active_for(id) && final(self).cancelled_for(id) == old(self).cancelled_for(id),
    {
        let entry = RegistryEntry { identity, active: true, handle };
        let pos = self.position(&entry.identity);
        match pos {
            Some(i) => {
                self.entries[i] = entry;
                proof {
                    Self::lemma_same_ids(*old(self), *self);
                    self.lemma_entry_for_at(i as int);
                    assert forall|id: Seq<char>|
                        id != identity@ implies #[trigger] final(self).has_entry(id) == old(
                        self,
                    ).has_entry(id) && final(self).active_for(id) == old(self).active_for(id)
                        && final(self).cancelled_for(id) == old(self).cancelled_for(id) by {
                        if old(self).has_entry(id) {
                            let k = choose|k: int|
                                0 <= k < old(self).entries@.len() && (
                                #[trigger] old(self).entries@[k]).identity@ == id;
                            old(self).lemma_entry_for_at(k);
                            self.lemma_entry_for_at(k);
                        }
                    }
                }
            },
            None => {
                self.entries.push(entry);
                proof {
                    let n = old(self).entries@.len() as int;
                    assert forall|i: int, j: int|
                        0 <= i < self.entries@.len() && 0 <= j < self.entries@.len()
                            && (#[trigger] self.entries@[i]).identity@ == (
                        #[trigger] self.entries@[j]).identity@ implies i == j by {
                        if i < n && j < n {
                            assert(old(self).entries@[i].identity@ == old(
                                self,
                            ).entries@[j].identity@);
                        }
                    }
                    self.lemma_entry_for_at(n);
                    assert forall|id: Seq<char>|
                        id != identity@ implies #[trigger] final(self).has_entry(id) == old(
                        self,
                    ).has_entry(id) && final(self).active_for(id) == old(self).active_for(id)
                        && final(self).cancelled_for(id) == old(self).cancelled_for(id) by {
                        if old(self).has_entry(id) {
                            let k = choose|k: int|
                                0 <= k < old(self).entries@.len() && (
                                #[trigger] old(self).entries@[k]).identity@ == id;
                            old(self).lemma_entry_for_at(k);
                            self.lemma_entry_for_at(k);
                        }
                        if self.has_entry(id) {
                            let k = choose|k: int|
                                0 <= k < self.entries@.len() && (
                                #[trigger] self.entries@[k]).identity@ == id;
                            assert(k != n);
                            assert(old(self).entries@[k].identity@ == id);
                        }
                    }
                }
            },
        }
    }

    /// Helper: when two registries have slots with pointwise-equal identities,
    /// lookups agree slot by slot.
    proof fn lemma_same_ids(a: Self, b: Self)
        requires
            a.entries@.len() == b.entries@.len(),
            forall|i: int|
                0 <= i < a.entries@.len() ==> (#[trigger] a.entries@[i]).identity@ == (
                #[trigger] b.entries@[i]).identity@,
            a.wf(),
        ensures
            b.wf(),
            forall|id: Seq<char>| #[trigger] b.has_entry(id) == a.has_entry(id),
    {
        assert forall|i: int, j: int|
            0 <= i < b.entries@.len() && 0 <= j < b.entries@.len()
                && (#[trigger] b.entries@[i]).identity@ == (
            #[trigger] b.entries@[j]).identity@ implies i == j by {
            assert(a.entries@[i].identity@ == b.entries@[i].identity@);
            assert(a.entries@[j].identity@ == b.entries@[j].identity@);
        }
        assert forall|id: Seq<char>| #[trigger] b.has_entry(id) == a.has_entry(id) by {
            if a.has_entry(id) {
                let i = choose|i: int|
                    0 <= i < a.entries@.len() && (#[trigger] a.entries@[i]).identity@ == id;
                assert(b.entries@[i].identity@ == id);
            }
            if b.has_entry(id) {
                let i = choose|i: int|
                    0 <= i < b.entries@.len() && (#[trigger] b.entries@[i]).identity@ == id;
                assert(a.entries@[i].identity@ == id);
            }
        }
    }

    /// Helper: in a well-formed registry, the slot chosen for the identity at
    /// index `i` is index `i` itself.
    proof fn lemma_entry_for_at(&self, i: int)
        requires
            self.wf(),
            0 <= i < self.entries@.len(),
        ensures
            self.has_entry(self.entries@[i].identity@),
            self.entry_for(self.entries@[i].identity@) == self.entries@[i],
    {
        let id = self.entries@[i].identity@;
        assert(self.has_entry(id));
        let k = choose|k: int|
            0 <= k < self.entries@.len() && (#[trigger] self.entries@[k]).identity@ == id;
        assert(self.entries@[k].identity@ == self.entries@[i].identity@);
    }

    /// Look up and remove the registered handle for `identity`, then signal
    /// it.  Fails with a "no active download" message when no registered
    /// handle exists — including after a completed transfer revoked its
    /// entry, and on a second cancel of the same identity.
    pub fn cancel(&mut self, identity: &String) -> (r: Result<(), String>)
        requires
            old(self).wf(),
        ensures
            final(self).wf(),
            r is Ok <==> old(self).active_for(identity@),
            !final(self).active_for(identity@),
            r is Ok ==> final(self).cancelled_for(identity@),
            r is Err ==> *final(self) == *old(self) && r->Err_0@ == "No active download found for: "@
                + identity@,
            forall|id: Seq<char>|
                id != identity@ ==> #[trigger] final(self).has_entry(id) == old(self).has_entry(id)
                    && final(self).active_for(id) == old(self).active_for(id) && final(self).cancelled_for(id) == old(self).cancelled_for(id),
            final(self).has_entry(identity@) == old(self).has_entry(identity@),
    {
        let pos = self.position(identity);
        match pos {
            Some(i) => {
                if self.entries[i].active {
                    let ghost pre = *self;
                    self.entries[i].active = false;
                    self.entries[i].handle.cancelled = true;
                    proof {
                        Self::lemma_same_ids(pre, *self);
                    }
                    return Ok(());
                }
            },
            None => {},
        }
        let mut msg = String::from_str("No active download found for: ");
        msg.append(identity.as_str());
        Err(msg)
    }

    /// Remove the registered handle for `identity` without signalling it.
    /// Used on every terminal outcome so the registry cannot leak entries.
    pub fn revoke(&mut self, identity: &String)
        requires
            old(self).wf(),
        ensures
            final(self).wf(),
            !final(self).active_for(identity@),
            final(self).cancelled_for(identity@) == old(self).cancelled_for(identity@),
            final(self).has_entry(identity@) == old(self).has_entry(identity@),
            forall|id: Seq<char>|
                id != identity@ ==> #[trigger] final(self).has_entry(id) == old(self).has_entry(id)
                    && final(self).active_for(id) == old(self).active_for(id) && final(self).cancelled_for(id) == old(self).cancelled_for(id),
    {
        let pos = self.position(identity);
        match pos {
            Some(i) => {
                let ghost pre = *self;
                self.entries[i].active = false;
                proof {
                    Self::lemma_same_ids(pre, *self);
                }
            },
            None => {},
        }
    }

    /// Whether the handle for `identity` has been signalled.  A transfer
    /// polls this at each of its cancellation check points.
    pub fn is_cancelled(&self, identity: &String) -> (r: bool)
        requires
            self.wf(),
        ensures
            r == self.cancelled_for(identity@),
    {
        let pos = self.position(identity);
        match pos {
            Some(i) => self.entries[i].handle.is_cancelled(),
            None => false,
        }
    }

    /// Whether a registered handle exists for `identity`.
    pub fn is_active(&self, identity: &String) -> (r: bool)
        requires
            self.wf(),
        ensures
            r == self.active_for(identity@),
    {
        let pos = self.position(identity);
        match pos {
            Some(i) => self.entries[i].active,
            None => false,
        }
    }
}

} // verus!
