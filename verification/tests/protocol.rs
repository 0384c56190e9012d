use gridsync::message::{
    ClientReliable, ClientUnreliable, NetworkEvent, NetworkId, NetworkSpawnCommand,
    SendOverRenet, ServerBlocking, ServerReliable, ServerUnreliable,
};
use gridsync::player::{ColorRgb, PlayerLocation, PlayerSyncData};
use gridsync::tile::{GridPos, TileKind};
use gridsync::{multiplayer_role, speaker, MultiplayerRole};

fn loc(x: f32, y: f32) -> PlayerLocation {
    PlayerLocation { x_bits: x.to_bits(), y_bits: y.to_bits() }
}

fn sync(x: f32, y: f32, r: f32, g: f32, b: f32) -> PlayerSyncData {
    PlayerSyncData {
        pos: loc(x, y),
        color: ColorRgb { red_bits: r.to_bits(), green_bits: g.to_bits(), blue_bits: b.to_bits() },
    }
}

#[test]
fn client_reliable_round_trip_spawn() {
    let m = ClientReliable::Event(NetworkEvent::SpawnBlock(
        GridPos { x: 3, y: 4 },
        TileKind::Stone,
    ));
    let bytes = m.prepare();
    assert_eq!(bytes, vec![0, 0, 3, 0, 0, 0, 4, 0, 0, 0, 0]);
    assert_eq!(ClientReliable::decode(&bytes), Some(m));
}

#[test]
fn client_reliable_round_trip_negative_coords() {
    let m = ClientReliable::Event(NetworkEvent::SpawnBlock(
        GridPos { x: -1, y: -2147483648 },
        TileKind::Grass,
    ));
    let bytes = m.prepare();
    assert_eq!(bytes, vec![0, 0, 255, 255, 255, 255, 0, 0, 0, 128, 1]);
    assert_eq!(ClientReliable::decode(&bytes), Some(m));
}

#[test]
fn client_reliable_round_trip_break() {
    let m = ClientReliable::Event(NetworkEvent::BreakBlock(NetworkId(7)));
    let bytes = m.prepare();
    assert_eq!(bytes, vec![0, 1, 7, 0, 0, 0, 0, 0, 0, 0]);
    assert_eq!(ClientReliable::decode(&bytes), Some(m));
}

#[test]
fn client_unreliable_round_trip() {
    let m = ClientUnreliable::PlayerMovement(loc(1.5, -2.25));
    let bytes = m.prepare();
    let back = ClientUnreliable::decode(&bytes).expect("decodes");
    assert_eq!(back, m);
    let ClientUnreliable::PlayerMovement(l) = back;
    assert_eq!(f32::from_bits(l.x_bits), 1.5);
    assert_eq!(f32::from_bits(l.y_bits), -2.25);
}

#[test]
fn server_reliable_round_trip_all_variants() {
    let ms = vec![
        ServerReliable::PlayerJoined(9, sync(0.5, -0.5, 0.1, 0.2, 0.3)),
        ServerReliable::PlayerLeft(11),
        ServerReliable::Event(NetworkEvent::BreakBlock(NetworkId(u64::MAX))),
        ServerReliable::Spawn(
            NetworkId(42),
            NetworkSpawnCommand::Block(GridPos { x: -3, y: 12 }, TileKind::Grass),
        ),
    ];
    for m in ms {
        let bytes = m.prepare();
        assert_eq!(ServerReliable::decode(&bytes), Some(m));
    }
}

#[test]
fn server_unreliable_round_trip() {
    let m = ServerUnreliable::PlayerMoved(42, loc(1.5, -2.25));
    let bytes = m.prepare();
    assert_eq!(ServerUnreliable::decode(&bytes), Some(m));
}

#[test]
fn server_blocking_round_trip_players() {
    let m = ServerBlocking::SyncPlayers(vec![
        (1, sync(10.0, 20.0, 1.0, 0.0, 0.0)),
        (2, sync(-1.0, 2.5, 0.0, 1.0, 0.0)),
    ]);
    let bytes = m.prepare();
    assert_eq!(ServerBlocking::decode(&bytes), Some(m));
}

#[test]
fn server_blocking_round_trip_world() {
    let m = ServerBlocking::SyncWorld(vec![
        (GridPos { x: 0, y: 0 }, (NetworkId(5), TileKind::Stone)),
        (GridPos { x: -7, y: 3 }, (NetworkId(6), TileKind::Grass)),
    ]);
    let bytes = m.prepare();
    assert_eq!(ServerBlocking::decode(&bytes), Some(m));
}

#[test]
fn server_blocking_round_trip_empty_world() {
    let m = ServerBlocking::SyncWorld(vec![]);
    let bytes = m.prepare();
    assert_eq!(bytes, vec![1, 0, 0, 0, 0]);
    assert_eq!(ServerBlocking::decode(&bytes), Some(m));
}

#[test]
fn decode_rejects_unknown_tag() {
    assert_eq!(ClientReliable::decode(&vec![9]), None);
    assert_eq!(ServerReliable::decode(&vec![4, 0, 0]), None);
    assert_eq!(ServerBlocking::decode(&vec![2]), None);
    // unknown tile kind inside an otherwise well-formed event
    assert_eq!(ClientReliable::decode(&vec![0, 0, 3, 0, 0, 0, 4, 0, 0, 0, 9]), None);
}

#[test]
fn decode_rejects_truncated_payload() {
    let m = ServerReliable::PlayerJoined(9, sync(0.5, -0.5, 0.1, 0.2, 0.3));
    let mut bytes = m.prepare();
    bytes.pop();
    assert_eq!(ServerReliable::decode(&bytes), None);
    assert_eq!(ServerReliable::decode(&vec![]), None);
}

#[test]
fn decode_rejects_trailing_bytes() {
    let m = ClientReliable::Event(NetworkEvent::BreakBlock(NetworkId(7)));
    let mut bytes = m.prepare();
    bytes.push(0);
    assert_eq!(ClientReliable::decode(&bytes), None);
}

#[test]
fn decode_rejects_overstated_count() {
    // claims two roster entries but carries none
    assert_eq!(ServerBlocking::decode(&vec![0, 2, 0, 0, 0]), None);
}

#[test]
fn channel_assignment() {
    let reliable = ClientReliable::Event(NetworkEvent::BreakBlock(NetworkId(0)));
    let unreliable = ClientUnreliable::PlayerMovement(loc(0.0, 0.0));
    let s_reliable = ServerReliable::PlayerLeft(0);
    let s_unreliable = ServerUnreliable::PlayerMoved(0, loc(0.0, 0.0));
    let s_blocking = ServerBlocking::SyncPlayers(vec![]);
    assert_eq!(reliable.channel_id(), 0);
    assert_eq!(unreliable.channel_id(), 1);
    assert_eq!(s_reliable.channel_id(), 0);
    assert_eq!(s_unreliable.channel_id(), 1);
    assert_eq!(s_blocking.channel_id(), 2);
}

#[test]
fn speaker_names_and_colours() {
    assert_eq!(speaker(MultiplayerRole::Host), "\u{1b}[32mhost\u{1b}[39m");
    assert_eq!(speaker(MultiplayerRole::Client), "\u{1b}[34mclient\u{1b}[39m");
    assert_eq!(speaker(MultiplayerRole::Server), "\u{1b}[33mserver\u{1b}[39m");
}

#[test]
fn role_codes() {
    assert!(matches!(multiplayer_role(0), MultiplayerRole::Host));
    assert!(matches!(multiplayer_role(1), MultiplayerRole::Client));
    assert!(matches!(multiplayer_role(2), MultiplayerRole::Server));
}
