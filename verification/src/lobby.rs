//! The lobby: who is connected and what is known about them. The server's
//! lobby is the authoritative player state, keyed by connection identity;
//! a client's lobby maps connection identities to local player handles and
//! is written only by the client reconciler.
use vstd::prelude::*;

use crate::kv;
use crate::player::{PlayerLocation, PlayerSyncData};

verus! {

/// Authoritative (server-side) player state, keyed by connection identity.
pub struct Lobby {
    entries: Vec<(u64, PlayerSyncData)>,
}

impl View for Lobby {
    type V = Map<u64, PlayerSyncData>;

    closed spec fn view(&self) -> Map<u64, PlayerSyncData> {
        kv::map_of(self.entries@)
    }
}

impl Lobby {
    /// Every connection has exactly one entry.
    pub closed spec fn wf(self) -> bool {
        kv::keys_unique(self.entries@)
    }

    /// How many players are present.
    pub closed spec fn count(self) -> nat {
        self.entries@.len()
    }

    /// An empty lobby.
    pub fn new() -> (l: Lobby)
        ensures
            l@ == Map::<u64, PlayerSyncData>::empty(),
            l.wf(),
            l.count() == 0,
    {
        Lobby { entries: Vec::new() }
    }

    /// The index of the entry for connection `id`, if present.
    fn find(&self, id: u64) -> (r: Option<usize>)
        ensures
            match r {
                Some(i) => i < self.entries@.len() && self.entries@[i as int].0 == id,
                None => forall|j: int|
                    0 <= j < self.entries@.len() ==> self.entries@[j].0 != id,
            },
    {
        let mut i: usize = 0;
        while i < self.entries.len()
            invariant
                i <= self.entries@.len(),
                forall|j: int| 0 <= j < i ==> self.entries@[j].0 != id,
            decreases self.entries@.len() - i,
        {
            if self.entries[i].0 == id {
                return Some(i);
            }
            i = i + 1;
        }
        None
    }

    /// The state of the player on connection `id`, if present.
    pub fn lookup(&self, id: u64) -> (r: Option<PlayerSyncData>)
        requires
            self.wf(),
        ensures
            match r {
                Some(d) => self@.contains_key(id) && self@[id] == d,
                None => !self@.contains_key(id),
            },
    {
        match self.find(id) {
            Some(i) => {
                proof {
                    kv::lemma_map_of_index(self.entries@, i as int);
                }
                Some(self.entries[i].1)
            }
            None => {
                proof {
                    kv::lemma_map_of_contains(self.entries@, id);
                }
                None
            }
        }
    }

    /// Records a player's state, overwriting any previous state for the
    /// same connection.
    pub fn insert(&mut self, id: u64, data: PlayerSyncData)
        requires
            old(self).wf(),
        ensures
            final(self).wf(),
            final(self)@ == old(self)@.insert(id, data),
            old(self)@.contains_key(id) ==> final(self).count() == old(self).count(),
            !old(self)@.contains_key(id) ==> final(self).count() == old(self).count() + 1,
    {
        let ghost s = self.entries@;
        match self.find(id) {
            Some(i) => {
                self.entries.set(i, (id, data));
                proof {
                    kv::lemma_map_of_index(s, i as int);
                    kv::lemma_map_of_update(s, i as int, data);
                    kv::lemma_keys_unique_update(s, i as int, data);
                }
            }
            None => {
                proof {
                    kv::lemma_map_of_contains(s, id);
                    kv::lemma_map_of_push(s, id, data);
                    kv::lemma_keys_unique_push(s, id, data);
                }
                self.entries.push((id, data));
            }
        }
    }

    /// Overwrites the authoritative position of the player on connection
    /// `id`, keeping the colour. A miss changes nothing: a movement from an
    /// untracked connection is a recoverable desync, never a crash.
    pub fn set_pos(&mut self, id: u64, pos: PlayerLocation) -> (r: bool)
        requires
            old(self).wf(),
        ensures
            final(self).wf(),
            r <==> old(self)@.contains_key(id),
            r ==> final(self)@ == old(self)@.insert(
                id,
                (PlayerSyncData { pos, color: old(self)@[id].color }),
            ),
            !r ==> *final(self) == *old(self),
    {
        let ghost s = self.entries@;
        match self.find(id) {
            Some(i) => {
                let color = self.entries[i].1.color;
                let data = PlayerSyncData { pos, color };
                self.entries.set(i, (id, data));
                proof {
                    kv::lemma_map_of_index(s, i as int);
                    kv::lemma_map_of_update(s, i as int, data);
                    kv::lemma_keys_unique_update(s, i as int, data);
                }
                true
            }
            None => {
                proof {
                    kv::lemma_map_of_contains(s, id);
                }
                false
            }
        }
    }

    /// Drops the player on connection `id`. A miss changes nothing.
    pub fn remove(&mut self, id: u64) -> (r: bool)
        requires
            old(self).wf(),
        ensures
            final(self).wf(),
            r <==> old(self)@.contains_key(id),
            r ==> {
                &&& final(self)@ == old(self)@.remove(id)
                &&& final(self).count() == old(self).count() - 1
            },
            !r ==> *final(self) == *old(self),
    {
        let ghost s = self.entries@;
        match self.find(id) {
            Some(i) => {
                self.entries.remove(i);
                proof {
                    kv::lemma_map_of_index(s, i as int);
                    kv::lemma_map_of_remove(s, i as int);
                    kv::lemma_keys_unique_remove(s, i as int);
                }
                true
            }
            None => {
                proof {
                    kv::lemma_map_of_contains(s, id);
                }
                false
            }
        }
    }

    /// The full roster, for the initial sync of a newly joined client.
    pub fn roster(&self) -> (r: Vec<(u64, PlayerSyncData)>)
        requires
            self.wf(),
        ensures
            kv::map_of(r@) == self@,
            kv::keys_unique(r@),
            r@.len() == self.count(),
    {
        let mut r: Vec<(u64, PlayerSyncData)> = Vec::new();
        let mut i: usize = 0;
        while i < self.entries.len()
            invariant
                i <= self.entries@.len(),
                r@ == self.entries@.take(i as int),
            decreases self.entries@.len() - i,
        {
            r.push(self.entries[i]);
            proof {
                assert(r@ =~= self.entries@.take(i as int + 1));
            }
            i = i + 1;
        }
        proof {
            assert(r@ =~= self.entries@);
        }
        r
    }

    /// How many players are present.
    pub fn len(&self) -> (r: usize)
        ensures
            r == self.count(),
    {
        self.entries.len()
    }
}

/// A client's replicated lobby: connection identity to local player handle.
pub struct ClientLobby {
    entries: Vec<(u64, u64)>,
}

impl View for ClientLobby {
    type V = Map<u64, u64>;

    closed spec fn view(&self) -> Map<u64, u64> {
        kv::map_of(self.entries@)
    }
}

impl ClientLobby {
    /// Every connection has exactly one entry.
    pub closed spec fn wf(self) -> bool {
        kv::keys_unique(self.entries@)
    }

    /// How many player replicas exist.
    pub closed spec fn count(self) -> nat {
        self.entries@.len()
    }

    /// An empty replica lobby.
    pub fn new() -> (l: ClientLobby)
        ensures
            l@ == Map::<u64, u64>::empty(),
            l.wf(),
            l.count() == 0,
    {
        ClientLobby { entries: Vec::new() }
    }

    /// The index of the entry for connection `id`, if present.
    fn find(&self, id: u64) -> (r: Option<usize>)
        ensures
            match r {
                Some(i) => i < self.entries@.len() && self.entries@[i as int].0 == id,
                None => forall|j: int|
                    0 <= j < self.entries@.len() ==> self.entries@[j].0 != id,
            },
    {
        let mut i: usize = 0;
        while i < self.entries.len()
            invariant
                i <= self.entries@.len(),
                forall|j: int| 0 <= j < i ==> self.entries@[j].0 != id,
            decreases self.entries@.len() - i,
        {
            if self.entries[i].0 == id {
                return Some(i);
            }
            i = i + 1;
        }
        None
    }

    /// The local handle of the player on connection `id`, if known.
    pub fn lookup(&self, id: u64) -> (r: Option<u64>)
        requires
            self.wf(),
        ensures
            match r {
                Some(h) => self@.contains_key(id) && self@[id] == h,
                None => !self@.contains_key(id),
            },
    {
        match self.find(id) {
            Some(i) => {
                proof {
                    kv::lemma_map_of_index(self.entries@, i as int);
                }
                Some(self.entries[i].1)
            }
            None => {
                proof {
                    kv::lemma_map_of_contains(self.entries@, id);
                }
                None
            }
        }
    }

    /// Records a local handle for a newly learned connection. A duplicate
    /// is ignored unchanged: the roster reconciler never duplicates.
    pub fn insert(&mut self, id: u64, handle: u64) -> (r: bool)
        requires
            old(self).wf(),
        ensures
            final(self).wf(),
            !old(self)@.contains_key(id) ==> {
                &&& r
                &&& final(self)@ == old(self)@.insert(id, handle)
                &&& final(self).count() == old(self).count() + 1
            },
            old(self)@.contains_key(id) ==> !r && *final(self) == *old(self),
    {
        let ghost s = self.entries@;
        match self.find(id) {
            Some(i) => {
                proof {
                    kv::lemma_map_of_index(s, i as int);
                }
                false
            }
            None => {
                proof {
                    kv::lemma_map_of_contains(s, id);
                    kv::lemma_map_of_push(s, id, handle);
                    kv::lemma_keys_unique_push(s, id, handle);
                }
                self.entries.push((id, handle));
                true
            }
        }
    }

    /// Drops the replica for connection `id`, yielding its local handle so
    /// the presentation layer can destroy the object. A miss yields nothing
    /// and changes nothing: a recoverable desync.
    pub fn remove(&mut self, id: u64) -> (r: Option<u64>)
        requires
            old(self).wf(),
        ensures
            final(self).wf(),
            old(self)@.contains_key(id) ==> {
                &&& r matches Some(h)
                &&& h == old(self)@[id]
                &&& final(self)@ == old(self)@.remove(id)
                &&& final(self).count() == old(self).count() - 1
            },
            !old(self)@.contains_key(id) ==> r is None && *final(self) == *old(self),
    {
        let ghost s = self.entries@;
        match self.find(id) {
            Some(i) => {
                let handle = self.entries[i].1;
                self.entries.remove(i);
                proof {
                    kv::lemma_map_of_index(s, i as int);
                    kv::lemma_map_of_remove(s, i as int);
                    kv::lemma_keys_unique_remove(s, i as int);
                }
                Some(handle)
            }
            None => {
                proof {
                    kv::lemma_map_of_contains(s, id);
                }
                None
            }
        }
    }

    /// How many player replicas exist.
    pub fn len(&self) -> (r: usize)
        ensures
            r == self.count(),
    {
        self.entries.len()
    }
}

} // verus!
