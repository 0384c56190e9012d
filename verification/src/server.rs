//! The server reconciler: applies client intents to the authoritative
//! world and lobby and decides what to broadcast and to whom. It never
//! panics on a bad or racing message: an occupied cell silently drops the
//! request, a miss on removal is a no-op, and a movement from an untracked
//! connection is ignored.
use vstd::prelude::*;

use crate::kv;
use crate::lobby::Lobby;
use crate::message::{
    ClientReliable, ClientUnreliable, NetworkEvent, NetworkId, NetworkSpawnCommand,
    ServerBlocking, ServerBlockingAbs, ServerReliable, ServerUnreliable,
};
use crate::player::{PlayerSyncData};
use crate::tile::{self, GridPos, Tiles};

verus! {

/// Who an outgoing transmission is addressed to.
#[derive(Clone, Copy, PartialEq, Eq, Structural, Debug)]
pub enum Recipients {
    All,
    AllExcept(u64),
    One(u64),
}

/// One outgoing transmission: its recipients and the typed message. The
/// transport sends the message on its own channel, in list order.
#[derive(PartialEq, Debug)]
pub enum ServerOut {
    Reliable(Recipients, ServerReliable),
    Unreliable(Recipients, ServerUnreliable),
    Blocking(Recipients, ServerBlocking),
}

/// The authoritative end of the session: the lobby and the world store.
pub struct ServerState {
    pub lobby: Lobby,
    pub tiles: Tiles,
}

impl ServerState {
    /// Both stores well-formed, with the world's minting counter ahead of
    /// every live id.
    pub open spec fn wf(self) -> bool {
        &&& self.lobby.wf()
        &&& self.tiles.wf()
        &&& self.tiles.minted_ok()
    }

    /// A fresh server: empty lobby, the starting world.
    pub fn new() -> (s: ServerState)
        ensures
            s.wf(),
            s.lobby@ == Map::<u64, PlayerSyncData>::empty(),
            s.tiles.count() == 25,
            s.tiles.fresh_id() == 25,
            tile::world_prefix(s.tiles, 25),
    {
        ServerState { lobby: Lobby::new(), tiles: tile::create_world() }
    }

    /// A newly accepted connection: record the player, hand that one
    /// client the full roster and then the full world on the bulk channel,
    /// and tell everyone else it joined. The snapshot is taken within this
    /// step, before any later event can be broadcast, so the new client's
    /// picture is a consistent point in time.
    pub fn handle_connect(&mut self, id: u64, data: PlayerSyncData) -> (out: Vec<ServerOut>)
        requires
            old(self).wf(),
        ensures
            final(self).wf(),
            final(self).lobby@ == old(self).lobby@.insert(id, data),
            final(self).tiles == old(self).tiles,
            out@.len() == 3,
            out@[0] matches ServerOut::Blocking(r0, m0) && r0 == Recipients::One(id) && (
            m0@ matches ServerBlockingAbs::SyncPlayers(s) && kv::map_of(s) == final(self).lobby@
                && kv::keys_unique(s) && s.len() == final(self).lobby.count()),
            out@[1] matches ServerOut::Blocking(r1, m1) && r1 == Recipients::One(id) && (
            m1@ matches ServerBlockingAbs::SyncWorld(w) && kv::map_of(w) == final(self).tiles@
                && kv::keys_unique(w) && tile::entry_ids_unique(w)
                && w.len() == final(self).tiles.count()),
            out@[2] == ServerOut::Reliable(
                Recipients::AllExcept(id),
                ServerReliable::PlayerJoined(id, data),
            ),
    {
        self.lobby.insert(id, data);
        let roster = self.lobby.roster();
        let world = self.tiles.snapshot();
        let mut out: Vec<ServerOut> = Vec::new();
        out.push(ServerOut::Blocking(Recipients::One(id), ServerBlocking::SyncPlayers(roster)));
        out.push(ServerOut::Blocking(Recipients::One(id), ServerBlocking::SyncWorld(world)));
        out.push(
            ServerOut::Reliable(Recipients::AllExcept(id), ServerReliable::PlayerJoined(id, data)),
        );
        out
    }

    /// A closed connection: purge the lobby entry and tell every remaining
    /// client exactly once that the player left.
    pub fn handle_disconnect(&mut self, id: u64) -> (out: Vec<ServerOut>)
        requires
            old(self).wf(),
        ensures
            final(self).wf(),
            final(self).tiles == old(self).tiles,
            old(self).lobby@.contains_key(id) ==> final(self).lobby@ == old(self).lobby@.remove(
                id,
            ),
            !old(self).lobby@.contains_key(id) ==> final(self).lobby@ == old(self).lobby@,
            out@.len() == 1,
            out@[0] == ServerOut::Reliable(
                Recipients::AllExcept(id),
                ServerReliable::PlayerLeft(id),
            ),
    {
        self.lobby.remove(id);
        let mut out: Vec<ServerOut> = Vec::new();
        out.push(ServerOut::Reliable(Recipients::AllExcept(id), ServerReliable::PlayerLeft(id)));
        out
    }

    /// A client's structural intent. A spawn at a free cell mints a fresh
    /// id and is broadcast to every client, the requester included: the
    /// requester materialises the tile only on that broadcast. A spawn at
    /// an occupied cell is silently dropped, even when the requester's view
    /// thought the cell free. A break is applied and broadcast to every
    /// client whether or not the id was still live.
    pub fn handle_client_reliable(&mut self, sender: u64, msg: ClientReliable) -> (out: Vec<
        ServerOut,
    >)
        requires
            old(self).wf(),
            old(self).tiles.fresh_id() < u64::MAX,
        ensures
            final(self).wf(),
            final(self).lobby == old(self).lobby,
            final(self).tiles.fresh_id() >= old(self).tiles.fresh_id(),
            match msg {
                ClientReliable::Event(NetworkEvent::SpawnBlock(pos, kind)) => {
                    if old(self).tiles@.contains_key(pos) {
                        &&& final(self).tiles@ == old(self).tiles@
                        &&& final(self).tiles.fresh_id() == old(self).tiles.fresh_id()
                        &&& final(self).tiles.count() == old(self).tiles.count()
                        &&& out@.len() == 0
                    } else {
                        &&& final(self).tiles@ == old(self).tiles@.insert(
                            pos,
                            (NetworkId(old(self).tiles.fresh_id()), kind),
                        )
                        &&& final(self).tiles.fresh_id() == old(self).tiles.fresh_id() + 1
                        &&& out@.len() == 1
                        &&& out@[0] == ServerOut::Reliable(
                            Recipients::All,
                            ServerReliable::Spawn(
                                NetworkId(old(self).tiles.fresh_id()),
                                NetworkSpawnCommand::Block(pos, kind),
                            ),
                        )
                    }
                }
                ClientReliable::Event(NetworkEvent::BreakBlock(id)) => {
                    &&& forall|p: GridPos|
                        old(self).tiles@.contains_key(p) && old(self).tiles@[p].0 == id
                            ==> !final(self).tiles@.contains_key(p)
                    &&& forall|p: GridPos|
                        old(self).tiles@.contains_key(p) && old(self).tiles@[p].0 != id
                            ==> final(self).tiles@.contains_key(p) && final(self).tiles@[p]
                            == old(self).tiles@[p]
                    &&& forall|p: GridPos| #![trigger final(self).tiles@.contains_key(p)]
                        final(self).tiles@.contains_key(p) ==> old(self).tiles@.contains_key(p)
                    &&& final(self).tiles.fresh_id() == old(self).tiles.fresh_id()
                    &&& out@.len() == 1
                    &&& out@[0] == ServerOut::Reliable(
                        Recipients::All,
                        ServerReliable::Event(NetworkEvent::BreakBlock(id)),
                    )
                }
            },
    {
        let mut out: Vec<ServerOut> = Vec::new();
        match msg {
            ClientReliable::Event(NetworkEvent::SpawnBlock(pos, kind)) => {
                match self.tiles.try_place(pos, kind) {
                    Some(id) => {
                        proof {
                            assert(id == NetworkId(old(self).tiles.fresh_id()));
                        }
                        out.push(
                            ServerOut::Reliable(
                                Recipients::All,
                                ServerReliable::Spawn(id, NetworkSpawnCommand::Block(pos, kind)),
                            ),
                        );
                    }
                    None => {}
                }
            }
            ClientReliable::Event(NetworkEvent::BreakBlock(id)) => {
                self.tiles.remove(id);
                out.push(
                    ServerOut::Reliable(
                        Recipients::All,
                        ServerReliable::Event(NetworkEvent::BreakBlock(id)),
                    ),
                );
            }
        }
        let _ = sender;
        out
    }

    /// A client's position update. When the sender is tracked, its
    /// authoritative position is overwritten, colour kept, and the move is
    /// echoed to every client except the sender, which already holds its
    /// own position. An untracked sender is a recoverable desync: ignored.
    pub fn handle_client_unreliable(&mut self, sender: u64, msg: ClientUnreliable) -> (out: Vec<
        ServerOut,
    >)
        requires
            old(self).wf(),
        ensures
            final(self).wf(),
            final(self).tiles == old(self).tiles,
            match msg {
                ClientUnreliable::PlayerMovement(l) => {
                    if old(self).lobby@.contains_key(sender) {
                        &&& final(self).lobby@ == old(self).lobby@.insert(
                            sender,
                            (PlayerSyncData { pos: l, color: old(self).lobby@[sender].color }),
                        )
                        &&& out@.len() == 1
                        &&& out@[0] == ServerOut::Unreliable(
                            Recipients::AllExcept(sender),
                            ServerUnreliable::PlayerMoved(sender, l),
                        )
                    } else {
                        final(self).lobby@ == old(self).lobby@ && out@.len() == 0
                    }
                }
            },
    {
        let mut out: Vec<ServerOut> = Vec::new();
        match msg {
            ClientUnreliable::PlayerMovement(l) => {
                if self.lobby.set_pos(sender, l) {
                    out.push(
                        ServerOut::Unreliable(
                            Recipients::AllExcept(sender),
                            ServerUnreliable::PlayerMoved(sender, l),
                        ),
                    );
                }
            }
        }
        out
    }
}

} // verus!
