//! The identity translator: a client's mapping from a server-minted
//! `NetworkId` to that client's local object handle for the same logical
//! object. A client never mints an identity; it only records the ones the
//! server tells it about and drops them when the server despawns them.
use vstd::prelude::*;

use crate::kv;
use crate::message::NetworkId;

verus! {

/// Per-client map from a server identity to a local object handle.
pub struct NetworkIds {
    entries: Vec<(NetworkId, u64)>,
}

impl View for NetworkIds {
    type V = Map<NetworkId, u64>;

    closed spec fn view(&self) -> Map<NetworkId, u64> {
        kv::map_of(self.entries@)
    }
}

impl NetworkIds {
    /// Every tracked identity has exactly one entry.
    pub closed spec fn wf(self) -> bool {
        kv::keys_unique(self.entries@)
    }

    /// How many identities are tracked.
    pub closed spec fn count(self) -> nat {
        self.entries@.len()
    }

    /// An empty translator.
    pub fn new() -> (t: NetworkIds)
        ensures
            t@ == Map::<NetworkId, u64>::empty(),
            t.wf(),
            t.count() == 0,
    {
        NetworkIds { entries: Vec::new() }
    }

    /// The index of the entry holding `id`, if it is tracked.
    fn find(&self, id: NetworkId) -> (r: Option<usize>)
        ensures
            match r {
                Some(i) => i < self.entries@.len() && self.entries@[i as int].0 == id,
                None => forall|j: int|
                    0 <= j < self.entries@.len() ==> self.entries@[j].0 != id,
            },
    {
        let mut i: usize = 0;
        while i < self.entries.len()
            invariant
                i <= self.entries@.len(),
                forall|j: int| 0 <= j < i ==> self.entries@[j].0 != id,
            decreases self.entries@.len() - i,
        {
            if self.entries[i].0 == id {
                return Some(i);
            }
            i = i + 1;
        }
        None
    }

    /// The local handle standing for `id`, if the identity is tracked.
    pub fn lookup(&self, id: NetworkId) -> (r: Option<u64>)
        requires
            self.wf(),
        ensures
            match r {
                Some(h) => self@.contains_key(id) && self@[id] == h,
                None => !self@.contains_key(id),
            },
    {
        match self.find(id) {
            Some(i) => {
                proof {
                    kv::lemma_map_of_index(self.entries@, i as int);
                }
                Some(self.entries[i].1)
            }
            None => {
                proof {
                    kv::lemma_map_of_contains(self.entries@, id);
                }
                None
            }
        }
    }

    /// Records a binding. A duplicate identity is ignored unchanged: a
    /// retransmitted spawn must not bind a second local object.
    pub fn insert(&mut self, id: NetworkId, handle: u64) -> (r: bool)
        requires
            old(self).wf(),
        ensures
            final(self).wf(),
            !old(self)@.contains_key(id) ==> {
                &&& r
                &&& final(self)@ == old(self)@.insert(id, handle)
                &&& final(self).count() == old(self).count() + 1
            },
            old(self)@.contains_key(id) ==> !r && *final(self) == *old(self),
    {
        let ghost s = self.entries@;
        match self.find(id) {
            Some(i) => {
                proof {
                    kv::lemma_map_of_index(s, i as int);
                }
                false
            }
            None => {
                proof {
                    kv::lemma_map_of_contains(s, id);
                    kv::lemma_map_of_push(s, id, handle);
                    kv::lemma_keys_unique_push(s, id, handle);
                }
                self.entries.push((id, handle));
                true
            }
        }
    }

    /// Unbinds an identity, yielding its handle. A miss yields nothing and
    /// changes nothing: the caller treats it as a recoverable desync.
    pub fn remove(&mut self, id: NetworkId) -> (r: Option<u64>)
        requires
            old(self).wf(),
        ensures
            final(self).wf(),
            old(self)@.contains_key(id) ==> {
                &&& r matches Some(h)
                &&& h == old(self)@[id]
                &&& final(self)@ == old(self)@.remove(id)
                &&& final(self).count() == old(self).count() - 1
            },
            !old(self)@.contains_key(id) ==> r is None && *final(self) == *old(self),
    {
        let ghost s = self.entries@;
        match self.find(id) {
            Some(i) => {
                let handle = self.entries[i].1;
                self.entries.remove(i);
                proof {
                    kv::lemma_map_of_index(s, i as int);
                    kv::lemma_map_of_remove(s, i as int);
                    kv::lemma_keys_unique_remove(s, i as int);
                }
                Some(handle)
            }
            None => {
                proof {
                    kv::lemma_map_of_contains(s, id);
                }
                None
            }
        }
    }

    /// How many identities are tracked.
    pub fn len(&self) -> (r: usize)
        ensures
            r == self.count(),
    {
        self.entries.len()
    }

    /// Empties the translator, yielding every binding it held, so a full
    /// world resync can despawn the old local objects first.
    pub fn take_all(&mut self) -> (r: Vec<(NetworkId, u64)>)
        requires
            old(self).wf(),
        ensures
            final(self)@ == Map::<NetworkId, u64>::empty(),
            final(self).wf(),
            final(self).count() == 0,
            kv::map_of(r@) == old(self)@,
            kv::keys_unique(r@),
            r@.len() == old(self).count(),
    {
        let mut r: Vec<(NetworkId, u64)> = Vec::new();
        let mut i: usize = 0;
        while i < self.entries.len()
            invariant
                i <= self.entries@.len(),
                r@ == self.entries@.take(i as int),
            decreases self.entries@.len() - i,
        {
            r.push(self.entries[i]);
            proof {
                assert(r@ =~= self.entries@.take(i as int + 1));
            }
            i = i + 1;
        }
        proof {
            assert(r@ =~= self.entries@);
        }
        self.entries = Vec::new();
        proof {
            assert(kv::map_of(self.entries@) =~= Map::<NetworkId, u64>::empty());
        }
        r
    }
}

/// Translator round trip, first half: binding a fresh identity to a handle
/// makes a lookup of that identity yield exactly that handle.
pub proof fn lemma_insert_then_lookup(t0: NetworkIds, t1: NetworkIds, id: NetworkId, h: u64)
    requires
        !t0@.contains_key(id),
        t1@ == t0@.insert(id, h),
    ensures
        t1@.contains_key(id),
        t1@[id] == h,
{
}

/// Translator round trip, second half: after unbinding an identity, a
/// lookup of it yields nothing, and every other binding is untouched.
pub proof fn lemma_remove_then_lookup(t1: NetworkIds, t2: NetworkIds, id: NetworkId)
    requires
        t1@.contains_key(id),
        t2@ == t1@.remove(id),
    ensures
        !t2@.contains_key(id),
        forall|other: NetworkId| #![trigger t2@.contains_key(other)]
            other != id ==> t2@.contains_key(other) == t1@.contains_key(other)
                && (t1@.contains_key(other) ==> t2@[other] == t1@[other]),
{
}

} // verus!
