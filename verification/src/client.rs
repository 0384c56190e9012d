//! The client reconciler: applies server-authoritative messages to the
//! local replicas and never mutates authoritative truth itself. Local
//! presentation objects are named by handles the client allocates; what to
//! create, move or destroy on screen comes back as a list of effects for
//! the presentation layer to carry out.
use vstd::prelude::*;

use crate::ids::NetworkIds;
use crate::kv;
use crate::lobby::ClientLobby;
use crate::message::{
    ClientReliable, NetworkEvent, NetworkId, NetworkSpawnCommand, ServerBlocking,
    ServerReliable, ServerUnreliable,
};
use crate::player::{PlayerLocation, PlayerSyncData};
use crate::tile::{self, GridPos, TileKind, Tiles};

verus! {

/// What the presentation layer must do after a message was applied. A
/// handle names a client-local object; the client allocated it and the
/// server never sees it.
#[derive(Clone, Copy, PartialEq, Eq, Structural, Debug)]
pub enum ClientEffect {
    /// Create a local player object under this handle.
    SpawnPlayer(u64, PlayerSyncData),
    /// Destroy the local player object under this handle.
    DespawnPlayer(u64),
    /// Move and recolour the local player object under this handle.
    UpdatePlayer(u64, PlayerSyncData),
    /// Move the local player object under this handle.
    MovePlayer(u64, PlayerLocation),
    /// Create a local tile object under this handle.
    SpawnTile(u64, NetworkId, GridPos, TileKind),
    /// Destroy the local tile object under this handle.
    DespawnTile(u64),
}

/// The replicated end of the session: the lobby replica, the identity
/// translator, the world mirror, and the local handle allocator.
pub struct ClientState {
    pub lobby: ClientLobby,
    pub ids: NetworkIds,
    pub tiles: Tiles,
    pub next_handle: u64,
}

impl ClientState {
    /// All three replicas well-formed.
    pub open spec fn wf(self) -> bool {
        &&& self.lobby.wf()
        &&& self.ids.wf()
        &&& self.tiles.wf()
    }

    /// A fresh client with empty replicas.
    pub fn new() -> (c: ClientState)
        ensures
            c.wf(),
            c.lobby@ == Map::<u64, u64>::empty(),
            c.ids@ == Map::<NetworkId, u64>::empty(),
            c.tiles@ == Map::<GridPos, (NetworkId, TileKind)>::empty(),
            c.next_handle == 0,
    {
        ClientState {
            lobby: ClientLobby::new(),
            ids: NetworkIds::new(),
            tiles: Tiles::new(),
            next_handle: 0,
        }
    }

    /// Allocates a local handle that no earlier allocation returned.
    pub fn alloc_handle(&mut self) -> (h: u64)
        requires
            old(self).next_handle < u64::MAX,
        ensures
            h == old(self).next_handle,
            final(self).next_handle == old(self).next_handle + 1,
            final(self).lobby == old(self).lobby,
            final(self).ids == old(self).ids,
            final(self).tiles == old(self).tiles,
    {
        let h = self.next_handle;
        self.next_handle = self.next_handle + 1;
        h
    }

    /// The optimistic pre-check before asking the server for a placement:
    /// no request is sent for a cell where a tile already visibly stands.
    /// This is an optimisation only; the server stays authoritative and
    /// nothing local is created until its broadcast arrives.
    pub fn request_place(&self, pos: GridPos, kind: TileKind) -> (r: Option<ClientReliable>)
        requires
            self.wf(),
        ensures
            self.tiles@.contains_key(pos) ==> r is None,
            !self.tiles@.contains_key(pos) ==> r == Some(
                ClientReliable::Event(NetworkEvent::SpawnBlock(pos, kind)),
            ),
    {
        match self.tiles.get(pos) {
            Some(_) => None,
            None => Some(ClientReliable::Event(NetworkEvent::SpawnBlock(pos, kind))),
        }
    }

    /// The break intent for whatever tile the mirror shows at a cell;
    /// nothing is sent for an empty cell. Nothing local is destroyed until
    /// the server's broadcast arrives.
    pub fn request_break(&self, pos: GridPos) -> (r: Option<ClientReliable>)
        requires
            self.wf(),
        ensures
            self.tiles@.contains_key(pos) ==> r == Some(
                ClientReliable::Event(NetworkEvent::BreakBlock(self.tiles@[pos].0)),
            ),
            !self.tiles@.contains_key(pos) ==> r is None,
    {
        match self.tiles.get(pos) {
            Some(v) => Some(ClientReliable::Event(NetworkEvent::BreakBlock(v.0))),
            None => None,
        }
    }

    /// Applies one reliable-channel message. Joins and spawns create local
    /// objects; leaves and breaks destroy them. A duplicate spawn or join,
    /// a leave or break for an untracked identity, and a spawn event that
    /// only the server may originate are all tolerated unchanged: they are
    /// retransmissions or recoverable desyncs, never a crash.
    pub fn handle_reliable(&mut self, msg: ServerReliable) -> (eff: Vec<ClientEffect>)
        requires
            old(self).wf(),
            old(self).next_handle < u64::MAX,
        ensures
            final(self).wf(),
            match msg {
                ServerReliable::PlayerJoined(cid, d) => {
                    if old(self).lobby@.contains_key(cid) {
                        *final(self) == *old(self) && eff@.len() == 0
                    } else {
                        &&& final(self).lobby@ == old(self).lobby@.insert(
                            cid,
                            old(self).next_handle,
                        )
                        &&& final(self).ids == old(self).ids
                        &&& final(self).tiles == old(self).tiles
                        &&& final(self).next_handle == old(self).next_handle + 1
                        &&& eff@.len() == 1
                        &&& eff@[0] == ClientEffect::SpawnPlayer(old(self).next_handle, d)
                    }
                }
                ServerReliable::PlayerLeft(cid) => {
                    if old(self).lobby@.contains_key(cid) {
                        &&& final(self).lobby@ == old(self).lobby@.remove(cid)
                        &&& final(self).ids == old(self).ids
                        &&& final(self).tiles == old(self).tiles
                        &&& final(self).next_handle == old(self).next_handle
                        &&& eff@.len() == 1
                        &&& eff@[0] == ClientEffect::DespawnPlayer(old(self).lobby@[cid])
                    } else {
                        *final(self) == *old(self) && eff@.len() == 0
                    }
                }
                ServerReliable::Event(NetworkEvent::SpawnBlock(pos, kind)) => {
                    *final(self) == *old(self) && eff@.len() == 0
                }
                ServerReliable::Event(NetworkEvent::BreakBlock(id)) => {
                    if old(self).ids@.contains_key(id) {
                        &&& final(self).ids@ == old(self).ids@.remove(id)
                        &&& final(self).lobby == old(self).lobby
                        &&& final(self).next_handle == old(self).next_handle
                        &&& forall|p: GridPos|
                            old(self).tiles@.contains_key(p) && old(self).tiles@[p].0 == id
                                ==> !final(self).tiles@.contains_key(p)
                        &&& forall|p: GridPos|
                            old(self).tiles@.contains_key(p) && old(self).tiles@[p].0 != id
                                ==> final(self).tiles@.contains_key(p) && final(self).tiles@[p]
                                == old(self).tiles@[p]
                        &&& forall|p: GridPos| #![trigger final(self).tiles@.contains_key(p)]
                            final(self).tiles@.contains_key(p) ==> old(self).tiles@.contains_key(p)
                        &&& eff@.len() == 1
                        &&& eff@[0] == ClientEffect::DespawnTile(old(self).ids@[id])
                    } else {
                        &&& final(self).ids == old(self).ids
                        &&& final(self).lobby == old(self).lobby
                        &&& final(self).next_handle == old(self).next_handle
                        &&& final(self).tiles@ == old(self).tiles@
                        &&& final(self).tiles.fresh_id() == old(self).tiles.fresh_id()
                        &&& eff@.len() == 0
                    }
                }
                ServerReliable::Spawn(id, NetworkSpawnCommand::Block(pos, kind)) => {
                    if old(self).ids@.contains_key(id) || old(self).tiles@.contains_key(pos)
                        || tile::map_has_id(old(self).tiles@, id) {
                        *final(self) == *old(self) && eff@.len() == 0
                    } else {
                        &&& final(self).ids@ == old(self).ids@.insert(id, old(self).next_handle)
                        &&& final(self).tiles@ == old(self).tiles@.insert(pos, (id, kind))
                        &&& final(self).lobby == old(self).lobby
                        &&& final(self).next_handle == old(self).next_handle + 1
                        &&& eff@.len() == 1
                        &&& eff@[0] == ClientEffect::SpawnTile(
                            old(self).next_handle,
                            id,
                            pos,
                            kind,
                        )
                    }
                }
            },
    {
        let mut eff: Vec<ClientEffect> = Vec::new();
        match msg {
            ServerReliable::PlayerJoined(cid, d) => {
                match self.lobby.lookup(cid) {
                    Some(_) => {}
                    None => {
                        let h = self.next_handle;
                        self.next_handle = self.next_handle + 1;
                        self.lobby.insert(cid, h);
                        eff.push(ClientEffect::SpawnPlayer(h, d));
                    }
                }
            }
            ServerReliable::PlayerLeft(cid) => {
                match self.lobby.remove(cid) {
                    Some(h) => {
                        eff.push(ClientEffect::DespawnPlayer(h));
                    }
                    None => {}
                }
            }
            ServerReliable::Event(NetworkEvent::SpawnBlock(_, _)) => {}
            ServerReliable::Event(NetworkEvent::BreakBlock(id)) => {
                match self.ids.remove(id) {
                    Some(h) => {
                        self.tiles.apply_break(id);
                        proof {
                            assert forall|p: GridPos| self.tiles@.contains_key(p)
                                implies old(self).tiles@.contains_key(p) by {
                            }
                        }
                        eff.push(ClientEffect::DespawnTile(h));
                    }
                    None => {}
                }
            }
            ServerReliable::Spawn(id, NetworkSpawnCommand::Block(pos, kind)) => {
                let known = self.ids.lookup(id);
                let occupied = self.tiles.get(pos);
                let duplicate = self.tiles.id_lookup(id);
                match (known, occupied, duplicate) {
                    (None, None, None) => {
                        let h = self.next_handle;
                        self.next_handle = self.next_handle + 1;
                        self.ids.insert(id, h);
                        self.tiles.apply_spawn(id, pos, kind);
                        eff.push(ClientEffect::SpawnTile(h, id, pos, kind));
                    }
                    _ => {}
                }
            }
        }
        eff
    }

    /// Applies one bulk-channel message. A roster sync creates a replica
    /// for every player not yet known and updates the known ones in place,
    /// never duplicating. A world sync fully replaces the mirror: every
    /// old local tile object is destroyed, every listed tile is created
    /// and its identity seeded into the translator. A world list with a
    /// repeated cell or id is a transport-level protocol violation and is
    /// rejected unchanged.
    pub fn handle_blocking(&mut self, msg: ServerBlocking) -> (eff: Vec<ClientEffect>)
        requires
            old(self).wf(),
            match msg {
                ServerBlocking::SyncPlayers(v) => old(self).next_handle + v@.len() <= u64::MAX,
                ServerBlocking::SyncWorld(v) => old(self).next_handle + v@.len() <= u64::MAX,
            },
        ensures
            final(self).wf(),
            match msg {
                ServerBlocking::SyncPlayers(v) => {
                    &&& final(self).ids == old(self).ids
                    &&& final(self).tiles == old(self).tiles
                    &&& forall|x: int|
                        0 <= x < v@.len() ==> #[trigger] final(self).lobby@.contains_key(v@[x].0)
                    &&& forall|cid: u64| #![trigger old(self).lobby@.contains_key(cid)]
                        old(self).lobby@.contains_key(cid) ==> final(self).lobby@.contains_key(
                            cid,
                        ) && final(self).lobby@[cid] == old(self).lobby@[cid]
                    &&& forall|cid: u64| #![trigger final(self).lobby@.contains_key(cid)]
                        final(self).lobby@.contains_key(cid) ==> old(self).lobby@.contains_key(
                            cid,
                        ) || exists|x: int| 0 <= x < v@.len() && (#[trigger] v@[x]).0 == cid
                    &&& eff@.len() == v@.len()
                    &&& forall|x: int| #![trigger eff@[x]]
                        0 <= x < v@.len() ==> {
                            ||| (eff@[x] matches ClientEffect::SpawnPlayer(h, d) && d == v@[x].1
                                && final(self).lobby@.contains_key(v@[x].0) && h == final(self).lobby@[v@[x].0])
                            ||| (eff@[x] matches ClientEffect::UpdatePlayer(h, d) && d == v@[x].1
                                && final(self).lobby@.contains_key(v@[x].0) && h == final(self).lobby@[v@[x].0])
                        }
                }
                ServerBlocking::SyncWorld(v) => {
                    if kv::keys_unique(v@) && tile::entry_ids_unique(v@) {
                        &&& final(self).lobby == old(self).lobby
                        &&& final(self).tiles@ == kv::map_of(v@)
                        &&& final(self).tiles.count() == v@.len()
                        &&& final(self).ids.count() == v@.len()
                        &&& forall|x: int|
                            0 <= x < v@.len() ==> final(self).ids@.contains_key(
                                (#[trigger] v@[x]).1.0,
                            )
                        &&& eff@.len() == old(self).ids.count() + v@.len()
                        &&& forall|x: int| #![trigger eff@[x]]
                            0 <= x < old(self).ids.count() ==> (eff@[x] matches
                                ClientEffect::DespawnTile(h) && exists|id: NetworkId|
                                #[trigger] old(self).ids@.contains_key(id) && old(self).ids@[id]
                                    == h)
                        &&& forall|x: int| #![trigger eff@[x]]
                            old(self).ids.count() <= x < eff@.len() ==> (eff@[x] matches
                                ClientEffect::SpawnTile(h, id, pos, kind) && final(self).tiles@.contains_key(pos) && final(self).tiles@[pos] == (id, kind)
                                && final(self).ids@.contains_key(id) && final(self).ids@[id] == h)
                    } else {
                        *final(self) == *old(self) && eff@.len() == 0
                    }
                }
            },
    {
        let mut eff: Vec<ClientEffect> = Vec::new();
        match msg {
            ServerBlocking::SyncPlayers(v) => {
                let mut x: usize = 0;
                while x < v.len()
                    invariant
                        x <= v@.len(),
                        self.lobby.wf(),
                        self.ids == old(self).ids,
                        self.tiles == old(self).tiles,
                        old(self).wf(),
                        old(self).next_handle + v@.len() <= u64::MAX,
                        old(self).next_handle <= self.next_handle,
                        self.next_handle - old(self).next_handle <= x,
                        forall|y: int|
                            0 <= y < x ==> #[trigger] self.lobby@.contains_key(v@[y].0),
                        forall|cid: u64| #![trigger old(self).lobby@.contains_key(cid)]
                            old(self).lobby@.contains_key(cid) ==> self.lobby@.contains_key(cid)
                                && self.lobby@[cid] == old(self).lobby@[cid],
                        forall|cid: u64| #![trigger self.lobby@.contains_key(cid)]
                            self.lobby@.contains_key(cid) ==> old(self).lobby@.contains_key(cid)
                                || exists|y: int| 0 <= y < x && (#[trigger] v@[y]).0 == cid,
                        eff@.len() == x,
                        forall|y: int| #![trigger eff@[y]]
                            0 <= y < x ==> {
                                ||| (eff@[y] matches ClientEffect::SpawnPlayer(h, d) && d
                                    == v@[y].1 && self.lobby@.contains_key(v@[y].0) && h
                                    == self.lobby@[v@[y].0])
                                ||| (eff@[y] matches ClientEffect::UpdatePlayer(h, d) && d
                                    == v@[y].1 && self.lobby@.contains_key(v@[y].0) && h
                                    == self.lobby@[v@[y].0])
                            },
                    decreases v@.len() - x,
                {
                    let e = v[x];
                    match self.lobby.lookup(e.0) {
                        Some(h) => {
                            eff.push(ClientEffect::UpdatePlayer(h, e.1));
                        }
                        None => {
                            let h = self.next_handle;
                            self.next_handle = self.next_handle + 1;
                            self.lobby.insert(e.0, h);
                            eff.push(ClientEffect::SpawnPlayer(h, e.1));
                        }
                    }
                    x = x + 1;
                }
            }
            ServerBlocking::SyncWorld(v) => {
                let ghost ventries = v@;
                let ghost idc0 = old(self).ids.count();
                if self.tiles.replace_all(v) {
                    let old_bindings = self.ids.take_all();
                    let mut x: usize = 0;
                    while x < old_bindings.len()
                        invariant
                            x <= old_bindings@.len(),
                            eff@.len() == x,
                            kv::map_of(old_bindings@) == old(self).ids@,
                            kv::keys_unique(old_bindings@),
                            old_bindings@.len() == idc0,
                            idc0 == old(self).ids.count(),
                            forall|y: int| #![trigger eff@[y]]
                                0 <= y < x ==> (eff@[y] matches ClientEffect::DespawnTile(h)
                                    && exists|id: NetworkId|
                                    #[trigger] old(self).ids@.contains_key(id) && old(self).ids@[id] == h),
                        decreases old_bindings@.len() - x,
                    {
                        let b = old_bindings[x];
                        proof {
                            kv::lemma_map_of_index(old_bindings@, x as int);
                        }
                        eff.push(ClientEffect::DespawnTile(b.1));
                        x = x + 1;
                    }
                    let world = self.tiles.snapshot();
                    let ghost nh0 = self.next_handle;
                    let mut y: usize = 0;
                    while y < world.len()
                        invariant
                            y <= world@.len(),
                            world@.len() == ventries.len(),
                            kv::map_of(world@) == self.tiles@,
                            kv::keys_unique(world@),
                            tile::entry_ids_unique(world@),
                            self.tiles@ == kv::map_of(ventries),
                            self.tiles.wf(),
                            self.tiles.count() == ventries.len(),
                            self.lobby == old(self).lobby,
                            self.ids.wf(),
                            self.ids.count() == y,
                            nh0 == old(self).next_handle,
                            nh0 + ventries.len() <= u64::MAX,
                            self.next_handle == nh0 + y,
                            forall|id: NetworkId| #![trigger self.ids@.contains_key(id)]
                                self.ids@.contains_key(id) ==> exists|z: int|
                                    0 <= z < y && (#[trigger] world@[z]).1.0 == id,
                            forall|z: int|
                                0 <= z < y ==> self.ids@.contains_key(
                                    (#[trigger] world@[z]).1.0,
                                ) && self.ids@[world@[z].1.0] == nh0 + z,
                            eff@.len() == idc0 + y,
                            forall|z: int| #![trigger eff@[z]]
                                0 <= z < idc0 ==> (eff@[z] matches ClientEffect::DespawnTile(h)
                                    && exists|id: NetworkId|
                                    #[trigger] old(self).ids@.contains_key(id) && old(self).ids@[id] == h),
                            forall|z: int| #![trigger eff@[z]]
                                idc0 <= z < idc0 + y ==> (eff@[z] matches ClientEffect::SpawnTile(
                                    h,
                                    id,
                                    pos,
                                    kind,
                                ) && id == world@[z - idc0].1.0 && pos == world@[z - idc0].0
                                    && kind == world@[z - idc0].1.1 && h == nh0 + (z - idc0)),
                        decreases world@.len() - y,
                    {
                        let e = world[y];
                        let h = self.next_handle;
                        self.next_handle = self.next_handle + 1;
                        proof {
                            assert(!self.ids@.contains_key(e.1.0)) by {
                                if self.ids@.contains_key(e.1.0) {
                                    let z = choose|z: int|
                                        0 <= z < y && (#[trigger] world@[z]).1.0 == e.1.0;
                                    assert(world@[z].1.0 == world@[y as int].1.0);
                                }
                            }
                        }
                        self.ids.insert(e.1.0, h);
                        eff.push(ClientEffect::SpawnTile(h, e.1.0, e.0, e.1.1));
                        y = y + 1;
                    }
                    proof {
                        assert forall|x: int| 0 <= x < ventries.len() implies self.ids@.contains_key(
                            (#[trigger] ventries[x]).1.0,
                        ) by {
                            kv::lemma_map_of_index(ventries, x);
                            kv::lemma_map_of_contains(world@, ventries[x].0);
                            let z = choose|z: int|
                                0 <= z < world@.len() && (#[trigger] world@[z]).0 == ventries[x].0;
                            kv::lemma_map_of_index(world@, z);
                        }
                        assert forall|z: int| #![trigger eff@[z]]
                            idc0 <= z < eff@.len() implies (eff@[z] matches ClientEffect::SpawnTile(
                            h,
                            id,
                            pos,
                            kind,
                        ) && self.tiles@.contains_key(pos) && self.tiles@[pos] == (id, kind)
                            && self.ids@.contains_key(id) && self.ids@[id] == h) by {
                            kv::lemma_map_of_index(world@, z - idc0);
                        }
                    }
                } else {
                }
            }
        }
        eff
    }

    /// Applies one unreliable-channel message. A move for a player not yet
    /// known is silently ignored: its join may still be in flight. The
    /// replicas themselves do not change; position lives in the
    /// presentation objects.
    pub fn handle_unreliable(&mut self, msg: ServerUnreliable) -> (eff: Vec<ClientEffect>)
        requires
            old(self).wf(),
        ensures
            final(self).wf(),
            *final(self) == *old(self),
            match msg {
                ServerUnreliable::PlayerMoved(cid, l) => {
                    if old(self).lobby@.contains_key(cid) {
                        eff@.len() == 1 && eff@[0] == ClientEffect::MovePlayer(
                            old(self).lobby@[cid],
                            l,
                        )
                    } else {
                        eff@.len() == 0
                    }
                }
            },
    {
        let mut eff: Vec<ClientEffect> = Vec::new();
        match msg {
            ServerUnreliable::PlayerMoved(cid, l) => {
                match self.lobby.lookup(cid) {
                    Some(h) => {
                        eff.push(ClientEffect::MovePlayer(h, l));
                    }
                    None => {}
                }
            }
        }
        eff
    }
}

} // verus!
