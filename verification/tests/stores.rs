use gridsync::ids::NetworkIds;
use gridsync::lobby::{ClientLobby, Lobby};
use gridsync::message::NetworkId;
use gridsync::player::{ColorRgb, PlayerLocation, PlayerSyncData};
use gridsync::tile::{create_world, GridPos, TileKind, Tiles};

fn data(x: f32, y: f32) -> PlayerSyncData {
    PlayerSyncData {
        pos: PlayerLocation { x_bits: x.to_bits(), y_bits: y.to_bits() },
        color: ColorRgb {
            red_bits: 0.5f32.to_bits(),
            green_bits: 0.25f32.to_bits(),
            blue_bits: 1.0f32.to_bits(),
        },
    }
}

#[test]
fn occupancy_is_enforced() {
    let mut t = Tiles::new();
    let p = GridPos { x: 1, y: 1 };
    let first = t.try_place(p, TileKind::Stone);
    assert!(first.is_some());
    // a second placement at the same cell is rejected without a change
    let second = t.try_place(p, TileKind::Grass);
    assert!(second.is_none());
    assert_eq!(t.len(), 1);
    assert_eq!(t.get(p), Some((first.unwrap(), TileKind::Stone)));
}

#[test]
fn minted_ids_never_repeat() {
    let mut t = Tiles::new();
    let a = t.try_place(GridPos { x: 0, y: 0 }, TileKind::Stone).unwrap();
    t.remove(a);
    assert_eq!(t.len(), 0);
    // the cell is free again, but the old id is never reissued
    let b = t.try_place(GridPos { x: 0, y: 0 }, TileKind::Stone).unwrap();
    assert_ne!(a, b);
    assert!(b.0 > a.0);
}

#[test]
fn remove_by_id_misses_quietly() {
    let mut t = Tiles::new();
    let a = t.try_place(GridPos { x: 2, y: 3 }, TileKind::Grass).unwrap();
    t.remove(NetworkId(a.0 + 100));
    assert_eq!(t.len(), 1);
    t.remove(a);
    assert_eq!(t.len(), 0);
    assert_eq!(t.get(GridPos { x: 2, y: 3 }), None);
}

#[test]
fn replica_replace_and_patch() {
    let mut t = Tiles::new();
    let entries = vec![
        (GridPos { x: 0, y: 0 }, (NetworkId(10), TileKind::Stone)),
        (GridPos { x: 1, y: 0 }, (NetworkId(11), TileKind::Grass)),
    ];
    assert!(t.replace_all(entries));
    assert_eq!(t.len(), 2);
    t.apply_spawn(NetworkId(12), GridPos { x: 2, y: 0 }, TileKind::Stone);
    assert_eq!(t.len(), 3);
    // a retransmitted spawn for a known id or cell changes nothing
    t.apply_spawn(NetworkId(12), GridPos { x: 5, y: 5 }, TileKind::Stone);
    t.apply_spawn(NetworkId(99), GridPos { x: 2, y: 0 }, TileKind::Grass);
    assert_eq!(t.len(), 3);
    t.apply_break(NetworkId(11));
    assert_eq!(t.get(GridPos { x: 1, y: 0 }), None);
    assert_eq!(t.len(), 2);
}

#[test]
fn replica_rejects_duplicate_cells_and_ids() {
    let mut t = Tiles::new();
    let dup_cell = vec![
        (GridPos { x: 0, y: 0 }, (NetworkId(1), TileKind::Stone)),
        (GridPos { x: 0, y: 0 }, (NetworkId(2), TileKind::Grass)),
    ];
    assert!(!t.replace_all(dup_cell));
    assert_eq!(t.len(), 0);
    let dup_id = vec![
        (GridPos { x: 0, y: 0 }, (NetworkId(1), TileKind::Stone)),
        (GridPos { x: 1, y: 0 }, (NetworkId(1), TileKind::Grass)),
    ];
    assert!(!t.replace_all(dup_id));
    assert_eq!(t.len(), 0);
}

#[test]
fn starting_world_is_a_checkerboard() {
    let t = create_world();
    assert_eq!(t.len(), 25);
    for y in 0..5i32 {
        for x in 0..5i32 {
            let (id, kind) = t.get(GridPos { x, y }).expect("cell filled");
            assert_eq!(id, NetworkId((y * 5 + x) as u64));
            if (x + y) % 2 == 0 {
                assert!(matches!(kind, TileKind::Stone));
            } else {
                assert!(matches!(kind, TileKind::Grass));
            }
        }
    }
    assert_eq!(t.get(GridPos { x: 5, y: 0 }), None);
    assert_eq!(t.get(GridPos { x: -1, y: 0 }), None);
}

#[test]
fn translator_insert_lookup_remove() {
    let mut ids = NetworkIds::new();
    assert!(ids.insert(NetworkId(3), 30));
    assert_eq!(ids.lookup(NetworkId(3)), Some(30));
    assert_eq!(ids.remove(NetworkId(3)), Some(30));
    assert_eq!(ids.lookup(NetworkId(3)), None);
    assert_eq!(ids.remove(NetworkId(3)), None);
}

#[test]
fn translator_duplicate_insert_is_ignored() {
    let mut ids = NetworkIds::new();
    assert!(ids.insert(NetworkId(3), 30));
    assert!(!ids.insert(NetworkId(3), 31));
    assert_eq!(ids.len(), 1);
    assert_eq!(ids.lookup(NetworkId(3)), Some(30));
}

#[test]
fn translator_take_all_empties() {
    let mut ids = NetworkIds::new();
    ids.insert(NetworkId(1), 10);
    ids.insert(NetworkId(2), 20);
    let all = ids.take_all();
    assert_eq!(all.len(), 2);
    assert_eq!(ids.len(), 0);
    assert_eq!(ids.lookup(NetworkId(1)), None);
}

#[test]
fn lobby_overwrites_and_keeps_colour_on_move() {
    let mut l = Lobby::new();
    l.insert(7, data(1.0, 2.0));
    assert_eq!(l.len(), 1);
    let moved = PlayerLocation { x_bits: 10.0f32.to_bits(), y_bits: 20.0f32.to_bits() };
    assert!(l.set_pos(7, moved));
    let d = l.lookup(7).unwrap();
    assert_eq!(d.pos, moved);
    assert_eq!(d.color, data(0.0, 0.0).color);
    // a movement from an untracked connection is ignored, not a crash
    assert!(!l.set_pos(8, moved));
    assert!(l.remove(7));
    assert!(!l.remove(7));
    assert_eq!(l.len(), 0);
}

#[test]
fn lobby_roster_lists_everyone() {
    let mut l = Lobby::new();
    l.insert(1, data(0.0, 0.0));
    l.insert(2, data(1.0, 1.0));
    l.insert(1, data(9.0, 9.0));
    let roster = l.roster();
    assert_eq!(roster.len(), 2);
    assert!(roster.iter().any(|(cid, d)| *cid == 1 && *d == data(9.0, 9.0)));
    assert!(roster.iter().any(|(cid, _)| *cid == 2));
}

#[test]
fn client_lobby_tracks_handles() {
    let mut l = ClientLobby::new();
    assert!(l.insert(5, 50));
    assert!(!l.insert(5, 51));
    assert_eq!(l.lookup(5), Some(50));
    assert_eq!(l.remove(5), Some(50));
    assert_eq!(l.remove(5), None);
    assert_eq!(l.len(), 0);
}
