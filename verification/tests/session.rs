use gridsync::client::{ClientEffect, ClientState};
use gridsync::lobby::Lobby;
use gridsync::message::{
    ClientReliable, ClientUnreliable, NetworkEvent, SendOverRenet, ServerBlocking,
    ServerReliable, ServerUnreliable,
};
use gridsync::player::{ColorRgb, PlayerLocation, PlayerSyncData};
use gridsync::server::{Recipients, ServerOut, ServerState};
use gridsync::tile::{GridPos, TileKind, Tiles};

fn data(x: f32, y: f32) -> PlayerSyncData {
    PlayerSyncData {
        pos: PlayerLocation { x_bits: x.to_bits(), y_bits: y.to_bits() },
        color: ColorRgb {
            red_bits: 0.9f32.to_bits(),
            green_bits: 0.1f32.to_bits(),
            blue_bits: 0.4f32.to_bits(),
        },
    }
}

fn addressed_to(r: &Recipients, cid: u64) -> bool {
    match r {
        Recipients::All => true,
        Recipients::AllExcept(x) => cid != *x,
        Recipients::One(x) => cid == *x,
    }
}

/// Serialises each outgoing message, routes it to its recipients, decodes
/// it there and applies it, collecting each client's effects.
fn deliver(
    outs: &[ServerOut],
    clients: &mut Vec<(u64, ClientState)>,
) -> Vec<(u64, Vec<ClientEffect>)> {
    let mut effects = Vec::new();
    for out in outs {
        match out {
            ServerOut::Reliable(rcp, m) => {
                let bytes = m.prepare();
                for (cid, st) in clients.iter_mut() {
                    if addressed_to(rcp, *cid) {
                        let dm = ServerReliable::decode(&bytes).expect("reliable decodes");
                        effects.push((*cid, st.handle_reliable(dm)));
                    }
                }
            }
            ServerOut::Unreliable(rcp, m) => {
                let bytes = m.prepare();
                for (cid, st) in clients.iter_mut() {
                    if addressed_to(rcp, *cid) {
                        let dm = ServerUnreliable::decode(&bytes).expect("unreliable decodes");
                        effects.push((*cid, st.handle_unreliable(dm)));
                    }
                }
            }
            ServerOut::Blocking(rcp, m) => {
                let bytes = m.prepare();
                for (cid, st) in clients.iter_mut() {
                    if addressed_to(rcp, *cid) {
                        let dm = ServerBlocking::decode(&bytes).expect("blocking decodes");
                        effects.push((*cid, st.handle_blocking(dm)));
                    }
                }
            }
        }
    }
    effects
}

/// A server with an empty world, and `n` clients connected and synced.
fn session(n: u64) -> (ServerState, Vec<(u64, ClientState)>) {
    let mut server = ServerState { lobby: Lobby::new(), tiles: Tiles::new() };
    let mut clients: Vec<(u64, ClientState)> = Vec::new();
    for cid in 1..=n {
        clients.push((cid, ClientState::new()));
        let outs = server.handle_connect(cid, data(cid as f32, 0.0));
        deliver(&outs, &mut clients);
    }
    (server, clients)
}

#[test]
fn spawn_at_free_cell_reaches_everyone() {
    let (mut server, mut clients) = session(2);
    let intent = clients[0].1.request_place(GridPos { x: 0, y: 0 }, TileKind::Grass);
    let msg = intent.expect("cell is free in the mirror");
    let outs = server.handle_client_reliable(1, msg);
    assert_eq!(outs.len(), 1);
    assert!(matches!(&outs[0], ServerOut::Reliable(Recipients::All, ServerReliable::Spawn(_, _))));
    let effects = deliver(&outs, &mut clients);
    // the sender included: both clients materialise the tile
    assert_eq!(effects.len(), 2);
    for (_, eff) in &effects {
        assert_eq!(eff.len(), 1);
        assert!(matches!(eff[0], ClientEffect::SpawnTile(_, _, _, _)));
    }
    let (id, _) = server.tiles.get(GridPos { x: 0, y: 0 }).expect("authoritative tile");
    for (_, st) in &clients {
        let (mid, mkind) = st.tiles.get(GridPos { x: 0, y: 0 }).expect("mirrored tile");
        assert_eq!(mid, id);
        assert!(matches!(mkind, TileKind::Grass));
        assert_eq!(st.ids.lookup(id).is_some(), true);
    }
}

#[test]
fn simultaneous_spawns_keep_one_tile() {
    let (mut server, mut clients) = session(2);
    let pos = GridPos { x: 1, y: 1 };
    let m1 = clients[0].1.request_place(pos, TileKind::Stone).unwrap();
    let m2 = clients[1].1.request_place(pos, TileKind::Stone).unwrap();
    let outs1 = server.handle_client_reliable(1, m1);
    assert_eq!(outs1.len(), 1);
    // the second request races the first and is silently dropped
    let outs2 = server.handle_client_reliable(2, m2);
    assert_eq!(outs2.len(), 0);
    assert_eq!(server.tiles.len(), 1);
    deliver(&outs1, &mut clients);
    deliver(&outs2, &mut clients);
    for (_, st) in &clients {
        assert_eq!(st.tiles.len(), 1);
        assert!(st.tiles.get(pos).is_some());
    }
}

#[test]
fn movement_is_echoed_to_others_only() {
    let (mut server, mut clients) = session(2);
    let l = PlayerLocation { x_bits: 10.0f32.to_bits(), y_bits: 20.0f32.to_bits() };
    let outs = server.handle_client_unreliable(1, ClientUnreliable::PlayerMovement(l));
    assert_eq!(outs.len(), 1);
    assert!(matches!(
        &outs[0],
        ServerOut::Unreliable(Recipients::AllExcept(1), ServerUnreliable::PlayerMoved(1, _))
    ));
    assert_eq!(server.lobby.lookup(1).unwrap().pos, l);
    let effects = deliver(&outs, &mut clients);
    // only client 2 hears about it, and moves its replica of player 1
    assert_eq!(effects.len(), 1);
    let (cid, eff) = &effects[0];
    assert_eq!(*cid, 2);
    assert_eq!(eff.len(), 1);
    let expected = clients[1].1.lobby.lookup(1).unwrap();
    assert_eq!(eff[0], ClientEffect::MovePlayer(expected, l));
}

#[test]
fn late_joiner_gets_roster_and_world() {
    let (mut server, mut clients) = session(2);
    // some world state to hand over
    let outs = server.handle_client_reliable(
        1,
        ClientReliable::Event(NetworkEvent::SpawnBlock(GridPos { x: 3, y: 3 }, TileKind::Stone)),
    );
    deliver(&outs, &mut clients);
    clients.push((3, ClientState::new()));
    let outs = server.handle_connect(3, data(3.0, 0.0));
    assert_eq!(outs.len(), 3);
    // the bulk messages go to the new client alone, the join to the others
    assert!(matches!(
        &outs[0],
        ServerOut::Blocking(Recipients::One(3), ServerBlocking::SyncPlayers(v)) if v.len() == 3
    ));
    assert!(matches!(
        &outs[1],
        ServerOut::Blocking(Recipients::One(3), ServerBlocking::SyncWorld(w)) if w.len() == 1
    ));
    assert!(matches!(
        &outs[2],
        ServerOut::Reliable(Recipients::AllExcept(3), ServerReliable::PlayerJoined(3, _))
    ));
    let effects = deliver(&outs, &mut clients);
    // the two existing clients each learn of the join exactly once
    let joins: Vec<&(u64, Vec<ClientEffect>)> = effects
        .iter()
        .filter(|(_, eff)| eff.iter().any(|e| matches!(e, ClientEffect::SpawnPlayer(_, _))))
        .collect();
    assert!(joins.iter().any(|(cid, _)| *cid == 1));
    assert!(joins.iter().any(|(cid, _)| *cid == 2));
    let newcomer = &clients[2].1;
    // the newcomer knows all three players, itself included, and the world
    assert!(newcomer.lobby.lookup(1).is_some());
    assert!(newcomer.lobby.lookup(2).is_some());
    assert!(newcomer.lobby.lookup(3).is_some());
    assert_eq!(newcomer.tiles.len(), 1);
    assert!(newcomer.tiles.get(GridPos { x: 3, y: 3 }).is_some());
}

#[test]
fn disconnect_reaches_every_remaining_client_once() {
    let (mut server, mut clients) = session(3);
    for (_, st) in &clients {
        assert!(st.lobby.lookup(2).is_some());
    }
    let outs = server.handle_disconnect(2);
    assert_eq!(outs.len(), 1);
    assert!(matches!(
        &outs[0],
        ServerOut::Reliable(Recipients::AllExcept(2), ServerReliable::PlayerLeft(2))
    ));
    assert!(server.lobby.lookup(2).is_none());
    clients.retain(|(cid, _)| *cid != 2);
    let effects = deliver(&outs, &mut clients);
    assert_eq!(effects.len(), 2);
    for (_, eff) in &effects {
        assert_eq!(eff.len(), 1);
        assert!(matches!(eff[0], ClientEffect::DespawnPlayer(_)));
    }
    for (_, st) in &clients {
        assert!(st.lobby.lookup(2).is_none());
    }
}

#[test]
fn duplicate_spawn_broadcast_is_idempotent() {
    let (mut server, mut clients) = session(1);
    let outs = server.handle_client_reliable(
        1,
        ClientReliable::Event(NetworkEvent::SpawnBlock(GridPos { x: 2, y: 2 }, TileKind::Grass)),
    );
    deliver(&outs, &mut clients);
    let before = clients[0].1.ids.len();
    assert_eq!(before, 1);
    // the same broadcast again, as after a retransmission
    let effects = deliver(&outs, &mut clients);
    assert_eq!(effects.len(), 1);
    assert!(effects[0].1.is_empty());
    assert_eq!(clients[0].1.ids.len(), 1);
    assert_eq!(clients[0].1.tiles.len(), 1);
}

#[test]
fn break_is_broadcast_even_when_already_gone() {
    let (mut server, mut clients) = session(1);
    let outs = server.handle_client_reliable(
        1,
        ClientReliable::Event(NetworkEvent::SpawnBlock(GridPos { x: 0, y: 1 }, TileKind::Stone)),
    );
    deliver(&outs, &mut clients);
    let intent = clients[0].1.request_break(GridPos { x: 0, y: 1 }).unwrap();
    let outs1 = server.handle_client_reliable(1, intent);
    // a second break for the same id, as from a racing client
    let outs2 = server.handle_client_reliable(1, intent);
    assert_eq!(outs1.len(), 1);
    assert_eq!(outs2.len(), 1);
    let effects1 = deliver(&outs1, &mut clients);
    assert!(matches!(effects1[0].1[0], ClientEffect::DespawnTile(_)));
    // the duplicate is tolerated with nothing to do
    let effects2 = deliver(&outs2, &mut clients);
    assert!(effects2[0].1.is_empty());
    assert_eq!(server.tiles.len(), 0);
    assert_eq!(clients[0].1.tiles.len(), 0);
    // the mirror is empty again, so no further break intent is offered
    assert!(clients[0].1.request_break(GridPos { x: 0, y: 1 }).is_none());
}

#[test]
fn world_resync_replaces_the_mirror() {
    let (mut server, mut clients) = session(1);
    let outs = server.handle_client_reliable(
        1,
        ClientReliable::Event(NetworkEvent::SpawnBlock(GridPos { x: 1, y: 2 }, TileKind::Stone)),
    );
    deliver(&outs, &mut clients);
    assert_eq!(clients[0].1.tiles.len(), 1);
    // the server hands the same client a fresh snapshot, as on a resync:
    // the old local object goes, the listed one comes
    let snapshot = ServerBlocking::SyncWorld(server.tiles.snapshot());
    let effects = clients[0].1.handle_blocking(snapshot);
    assert_eq!(effects.len(), 2);
    assert!(matches!(effects[0], ClientEffect::DespawnTile(_)));
    assert!(matches!(effects[1], ClientEffect::SpawnTile(_, _, _, _)));
    assert_eq!(clients[0].1.tiles.len(), 1);
    assert_eq!(clients[0].1.ids.len(), 1);
    assert!(clients[0].1.tiles.get(GridPos { x: 1, y: 2 }).is_some());
}

#[test]
fn roster_resync_updates_in_place() {
    let (mut server, mut clients) = session(2);
    assert_eq!(clients[0].1.lobby.len(), 2);
    let roster = server.lobby.roster();
    let n = roster.len();
    let effects = clients[0].1.handle_blocking(ServerBlocking::SyncPlayers(roster));
    // every entry was already known: updated in place, never duplicated
    assert_eq!(effects.len(), n);
    for eff in &effects {
        assert!(matches!(eff, ClientEffect::UpdatePlayer(_, _)));
    }
    assert_eq!(clients[0].1.lobby.len(), 2);
}

#[test]
fn move_for_unknown_player_is_ignored() {
    let mut st = ClientState::new();
    let l = PlayerLocation { x_bits: 1.0f32.to_bits(), y_bits: 2.0f32.to_bits() };
    let effects = st.handle_unreliable(ServerUnreliable::PlayerMoved(99, l));
    assert!(effects.is_empty());
}

#[test]
fn leave_for_unknown_player_is_tolerated() {
    let mut st = ClientState::new();
    let effects = st.handle_reliable(ServerReliable::PlayerLeft(99));
    assert!(effects.is_empty());
    assert_eq!(st.lobby.len(), 0);
}

#[test]
fn occupied_mirror_suppresses_redundant_request() {
    let (mut server, mut clients) = session(1);
    let outs = server.handle_client_reliable(
        1,
        ClientReliable::Event(NetworkEvent::SpawnBlock(GridPos { x: 4, y: 4 }, TileKind::Grass)),
    );
    deliver(&outs, &mut clients);
    assert!(clients[0].1.request_place(GridPos { x: 4, y: 4 }, TileKind::Stone).is_none());
}
