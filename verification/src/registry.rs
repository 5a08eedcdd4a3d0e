//! The engine thread's registry of decoded sources: each registered buffer
//! gets a fresh handle, and a launch looks its buffer up by handle.
use vstd::prelude::*;
use std::collections::HashMap;
use crate::command::SourceHandle;

verus! {

broadcast use vstd::std_specs::hash::group_hash_axioms;

/// Why a launch could not find its source.
#[derive(Debug, Clone, Copy, PartialEq, Eq, Structural)]
pub enum RegistryError {
    /// No source is registered under the handle.
    SourceNotFound,
}

/// Registered sources by handle number, and the next number to hand out.
pub struct SourceRegistry<B> {
    sources: HashMap<u64, B>,
    next_handle: u64,
}

impl<B> View for SourceRegistry<B> {
    type V = Map<u64, B>;

    closed spec fn view(&self) -> Map<u64, B> {
        self.sources@
    }
}

impl<B> SourceRegistry<B> {
    /// The number the next registration receives.
    pub closed spec fn next(&self) -> u64 {
        self.next_handle
    }

    /// Every registered handle was handed out before the next one.
    pub open spec fn wf(&self) -> bool {
        &&& self.next() >= 1
        &&& forall|h: u64| #[trigger] self@.contains_key(h) ==> h < self.next()
    }

    /// An empty registry whose first handle is 1.
    pub fn new() -> (r: Self)
        ensures
            r.wf(),
            r@ == Map::<u64, B>::empty(),
            r.next() == 1,
    {
        SourceRegistry { sources: HashMap::new(), next_handle: 1 }
    }

    /// Registers a buffer under a fresh handle.
    pub fn register(&mut self, buffer: B) -> (h: SourceHandle)
        requires
            old(self).wf(),
            old(self).next() < u64::MAX,
        ensures
            final(self).wf(),
            h.0 == old(self).next(),
            !old(self)@.contains_key(h.0),
            final(self)@ == old(self)@.insert(h.0, buffer),
            final(self).next() == old(self).next() + 1,
    {
        let handle = SourceHandle(self.next_handle);
        self.next_handle = self.next_handle + 1;
        self.sources.insert(handle.0, buffer);
        proof {
            assert forall|h: u64| #[trigger] self@.contains_key(h) implies h < self.next() by {
                if h != handle.0 {
                    assert(old(self)@.contains_key(h));
                }
            }
        }
        handle
    }

    /// Drops the registry's entry for `h`, if any.
    pub fn unregister(&mut self, h: SourceHandle)
        requires
            old(self).wf(),
        ensures
            final(self).wf(),
            final(self)@ == old(self)@.remove(h.0),
            final(self).next() == old(self).next(),
    {
        self.sources.remove(&h.0);
        proof {
            assert forall|k: u64| #[trigger] self@.contains_key(k) implies k < self.next() by {
                assert(old(self)@.contains_key(k));
            }
        }
    }

    /// The buffer a launch of `h` plays, or why there is none.
    pub fn source_for_launch(&self, h: SourceHandle) -> (r: Result<&B, RegistryError>)
        ensures
            self@.contains_key(h.0) ==> (r matches Ok(b) && *b == self@[h.0]),
            !self@.contains_key(h.0) ==> r == Err::<&B, RegistryError>(
                RegistryError::SourceNotFound,
            ),
    {
        match self.sources.get(&h.0) {
            Some(b) => Ok(b),
            None => Err(RegistryError::SourceNotFound),
        }
    }
}

/// A registered source can be launched with the buffer it was registered
/// with until it is unregistered; registering or dropping one source leaves
/// the others as they were; handles are never handed out twice.
pub proof fn law_register_then_launch<B>(m: Map<u64, B>, next: u64, b: B, other: u64)
    requires
        forall|h: u64| #[trigger] m.contains_key(h) ==> h < next,
        other != next,
    ensures
        m.insert(next, b).contains_key(next) && m.insert(next, b)[next] == b,
        !m.contains_key(next),
        m.insert(next, b).contains_key(other) == m.contains_key(other),
        m.contains_key(other) ==> m.insert(next, b)[other] == m[other],
        !m.insert(next, b).remove(next).contains_key(next),
        m.insert(next, b).remove(next) == m,
{
    assert(m.insert(next, b).remove(next) =~= m);
}

} // verus!
