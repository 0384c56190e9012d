//! The wire protocol: message shapes, channel assignment, and the binary
//! encoding both ends agree on. Three channels with distinct guarantees:
//! channel 0 reliable-ordered for structural events, channel 1 unreliable
//! for high-frequency position updates, channel 2 reliable for bulk state
//! handoff at connection time.
use vstd::prelude::*;

use crate::codec;
use crate::player::{PlayerLocation, PlayerSyncData};
use crate::tile::{GridPos, TileKind};

verus! {

/// Handshake identifier; a connection whose peer presents another value is
/// rejected before any application message is exchanged.
pub const PROTOCOL_ID: u64 = 7;

/// Reliable-ordered channel for structural events.
pub const CHANNEL_RELIABLE: u8 = 0;

/// Unreliable channel for latest-value-wins state.
pub const CHANNEL_UNRELIABLE: u8 = 1;

/// Reliable channel for bulk state handoff at connection time.
pub const CHANNEL_BLOCKING: u8 = 2;

/// Server-minted identity of a replicated object. A client never assigns
/// one; it only echoes identities the server has told it about.
#[derive(Clone, Copy, PartialEq, Eq, Structural, Debug, Hash)]
pub struct NetworkId(pub u64);

/// A structural world event, sent by clients as an intent and echoed by the
/// server as authoritative.
#[derive(Clone, Copy, PartialEq, Eq, Structural, Debug)]
pub enum NetworkEvent {
    SpawnBlock(GridPos, TileKind),
    BreakBlock(NetworkId),
}

/// An authoritative instruction to materialise an object.
#[derive(Clone, Copy, PartialEq, Eq, Structural, Debug)]
pub enum NetworkSpawnCommand {
    Block(GridPos, TileKind),
}

/// Client-to-server traffic on the reliable channel.
#[derive(Clone, Copy, PartialEq, Eq, Structural, Debug)]
pub enum ClientReliable {
    Event(NetworkEvent),
}

/// Client-to-server traffic on the unreliable channel.
#[derive(Clone, Copy, PartialEq, Eq, Structural, Debug)]
pub enum ClientUnreliable {
    PlayerMovement(PlayerLocation),
}

/// Server-to-client traffic on the reliable channel.
#[derive(Clone, Copy, PartialEq, Eq, Structural, Debug)]
pub enum ServerReliable {
    PlayerJoined(u64, PlayerSyncData),
    PlayerLeft(u64),
    Event(NetworkEvent),
    Spawn(NetworkId, NetworkSpawnCommand),
}

/// Server-to-client traffic on the unreliable channel.
#[derive(Clone, Copy, PartialEq, Eq, Structural, Debug)]
pub enum ServerUnreliable {
    PlayerMoved(u64, PlayerLocation),
}

/// Server-to-client bulk state handoff: the full roster and the full world,
/// sent once to each newly connected client.
#[derive(PartialEq, Debug)]
pub enum ServerBlocking {
    SyncPlayers(Vec<(u64, PlayerSyncData)>),
    SyncWorld(Vec<(GridPos, (NetworkId, TileKind))>),
}

/// The mathematical value of a bulk message: its entry lists as sequences.
#[verifier::ext_equal]
pub enum ServerBlockingAbs {
    SyncPlayers(Seq<(u64, PlayerSyncData)>),
    SyncWorld(Seq<(GridPos, (NetworkId, TileKind))>),
}

impl View for ServerBlocking {
    type V = ServerBlockingAbs;

    open spec fn view(&self) -> ServerBlockingAbs {
        match self {
            ServerBlocking::SyncPlayers(entries) => ServerBlockingAbs::SyncPlayers(entries@),
            ServerBlocking::SyncWorld(entries) => ServerBlockingAbs::SyncWorld(entries@),
        }
    }
}

// ------------------------------------------------- events and commands

/// Bytes of a world event: a tag byte, then the payload.
pub open spec fn enc_event(e: NetworkEvent) -> Seq<u8> {
    match e {
        NetworkEvent::SpawnBlock(p, k) => seq![0u8] + codec::enc_gridpos(p) + codec::enc_kind(k),
        NetworkEvent::BreakBlock(id) => seq![1u8] + codec::enc_netid(id),
    }
}

/// Reads a world event; an unknown tag or truncated payload reads nothing.
pub open spec fn spec_read_event(b: Seq<u8>, i: int) -> Option<(NetworkEvent, int)> {
    if 0 <= i && i + 1 <= b.len() {
        if b[i] == 0 {
            match codec::spec_read_gridpos(b, i + 1) {
                Some((p, j)) => match codec::spec_read_kind(b, j) {
                    Some((k, j2)) => Some((NetworkEvent::SpawnBlock(p, k), j2)),
                    None => None,
                },
                None => None,
            }
        } else if b[i] == 1 {
            match codec::spec_read_netid(b, i + 1) {
                Some((id, j)) => Some((NetworkEvent::BreakBlock(id), j)),
                None => None,
            }
        } else {
            None
        }
    } else {
        None
    }
}

/// The reader inverts the encoder wherever the event's bytes stand.
pub proof fn lemma_read_enc_event(b: Seq<u8>, i: int, e: NetworkEvent)
    requires
        0 <= i,
        i + enc_event(e).len() <= b.len(),
        b.subrange(i, i + enc_event(e).len()) == enc_event(e),
    ensures
        spec_read_event(b, i) == Some((e, i + enc_event(e).len())),
{
    match e {
        NetworkEvent::SpawnBlock(p, k) => {
            let tag = seq![0u8];
            let gp = codec::enc_gridpos(p);
            let kk = codec::enc_kind(k);
            assert(tag.len() == 1 && gp.len() == 8 && kk.len() == 1);
            assert(enc_event(e).len() == 10);
            assert(b.subrange(i, i + 10) =~= tag + (gp + kk));
            codec::lemma_subrange_split(b, i, tag, gp + kk);
            codec::lemma_subrange_split(b, i + 1, gp, kk);
            assert(b[i] == 0) by {
                assert(b.subrange(i, i + 1)[0] == b[i]);
            }
            codec::lemma_read_enc_gridpos(b, i + 1, p);
            codec::lemma_read_enc_kind(b, i + 9, k);
        }
        NetworkEvent::BreakBlock(id) => {
            let tag = seq![1u8];
            let nid = codec::enc_netid(id);
            assert(tag.len() == 1 && nid.len() == 8);
            assert(enc_event(e).len() == 9);
            codec::lemma_subrange_split(b, i, tag, nid);
            assert(b[i] == 1) by {
                assert(b.subrange(i, i + 1)[0] == b[i]);
            }
            codec::lemma_read_enc_netid(b, i + 1, id);
        }
    }
}

/// Appends the bytes of a world event.
pub fn push_event(buf: &mut Vec<u8>, e: &NetworkEvent)
    ensures
        final(buf)@ == old(buf)@ + enc_event(*e),
{
    match e {
        NetworkEvent::SpawnBlock(p, k) => {
            buf.push(0);
            codec::push_gridpos(buf, *p);
            codec::push_kind(buf, *k);
        }
        NetworkEvent::BreakBlock(id) => {
            buf.push(1);
            codec::push_netid(buf, *id);
        }
    }
    proof {
        assert(buf@ =~= old(buf)@ + enc_event(*e));
    }
}

/// Reads a world event, or nothing on a truncated or unknown input.
pub fn read_event(b: &Vec<u8>, i: usize) -> (r: Option<(NetworkEvent, usize)>)
    requires
        i <= b@.len(),
    ensures
        r is Some <==> spec_read_event(b@, i as int) is Some,
        r matches Some((e, j)) ==> spec_read_event(b@, i as int) == Some((e, j as int)) && i < j
            <= b@.len(),
{
    if b.len() - i < 1 {
        return None;
    }
    let tag = b[i];
    if tag == 0 {
        match codec::read_gridpos(b, i + 1) {
            Some((p, j)) => match codec::read_kind(b, j) {
                Some((k, j2)) => Some((NetworkEvent::SpawnBlock(p, k), j2)),
                None => None,
            },
            None => None,
        }
    } else if tag == 1 {
        match codec::read_netid(b, i + 1) {
            Some((id, j)) => Some((NetworkEvent::BreakBlock(id), j)),
            None => None,
        }
    } else {
        None
    }
}

/// Bytes of a spawn command: a tag byte, then the payload.
pub open spec fn enc_cmd(c: NetworkSpawnCommand) -> Seq<u8> {
    match c {
        NetworkSpawnCommand::Block(p, k) => seq![0u8] + codec::enc_gridpos(p) + codec::enc_kind(k),
    }
}

/// Reads a spawn command; an unknown tag or truncated payload reads nothing.
pub open spec fn spec_read_cmd(b: Seq<u8>, i: int) -> Option<(NetworkSpawnCommand, int)> {
    if 0 <= i && i + 1 <= b.len() && b[i] == 0 {
        match codec::spec_read_gridpos(b, i + 1) {
            Some((p, j)) => match codec::spec_read_kind(b, j) {
                Some((k, j2)) => Some((NetworkSpawnCommand::Block(p, k), j2)),
                None => None,
            },
            None => None,
        }
    } else {
        None
    }
}

/// The reader inverts the encoder wherever the command's bytes stand.
pub proof fn lemma_read_enc_cmd(b: Seq<u8>, i: int, c: NetworkSpawnCommand)
    requires
        0 <= i,
        i + enc_cmd(c).len() <= b.len(),
        b.subrange(i, i + enc_cmd(c).len()) == enc_cmd(c),
    ensures
        spec_read_cmd(b, i) == Some((c, i + enc_cmd(c).len())),
{
    match c {
        NetworkSpawnCommand::Block(p, k) => {
            let tag = seq![0u8];
            let gp = codec::enc_gridpos(p);
            let kk = codec::enc_kind(k);
            assert(tag.len() == 1 && gp.len() == 8 && kk.len() == 1);
            assert(enc_cmd(c).len() == 10);
            assert(b.subrange(i, i + 10) =~= tag + (gp + kk));
            codec::lemma_subrange_split(b, i, tag, gp + kk);
            codec::lemma_subrange_split(b, i + 1, gp, kk);
            assert(b[i] == 0) by {
                assert(b.subrange(i, i + 1)[0] == b[i]);
            }
            codec::lemma_read_enc_gridpos(b, i + 1, p);
            codec::lemma_read_enc_kind(b, i + 9, k);
        }
    }
}

/// Appends the bytes of a spawn command.
pub fn push_cmd(buf: &mut Vec<u8>, c: &NetworkSpawnCommand)
    ensures
        final(buf)@ == old(buf)@ + enc_cmd(*c),
{
    match c {
        NetworkSpawnCommand::Block(p, k) => {
            buf.push(0);
            codec::push_gridpos(buf, *p);
            codec::push_kind(buf, *k);
        }
    }
    proof {
        assert(buf@ =~= old(buf)@ + enc_cmd(*c));
    }
}

/// Reads a spawn command, or nothing on a truncated or unknown input.
pub fn read_cmd(b: &Vec<u8>, i: usize) -> (r: Option<(NetworkSpawnCommand, usize)>)
    requires
        i <= b@.len(),
    ensures
        r is Some <==> spec_read_cmd(b@, i as int) is Some,
        r matches Some((c, j)) ==> spec_read_cmd(b@, i as int) == Some((c, j as int)) && i < j
            <= b@.len(),
{
    if b.len() - i < 1 {
        return None;
    }
    let tag = b[i];
    if tag == 0 {
        match codec::read_gridpos(b, i + 1) {
            Some((p, j)) => match codec::read_kind(b, j) {
                Some((k, j2)) => Some((NetworkSpawnCommand::Block(p, k), j2)),
                None => None,
            },
            None => None,
        }
    } else {
        None
    }
}

// ----------------------------------------------------- bulk entry lists

/// Bytes of one roster entry: connection identity, then player state.
pub open spec fn enc_player_entry(e: (u64, PlayerSyncData)) -> Seq<u8> {
    codec::enc_u64(e.0) + codec::enc_sync(e.1)
}

/// Reads one roster entry, or nothing on a truncated input.
pub open spec fn spec_read_player_entry(b: Seq<u8>, i: int) -> Option<((u64, PlayerSyncData), int)> {
    match codec::spec_read_u64(b, i) {
        Some((cid, j)) => match codec::spec_read_sync(b, j) {
            Some((d, j2)) => Some(((cid, d), j2)),
            None => None,
        },
        None => None,
    }
}

/// The reader inverts the encoder wherever the entry's bytes stand.
pub proof fn lemma_read_enc_player_entry(b: Seq<u8>, i: int, e: (u64, PlayerSyncData))
    requires
        0 <= i,
        i + 28 <= b.len(),
        b.subrange(i, i + 28) == enc_player_entry(e),
    ensures
        spec_read_player_entry(b, i) == Some((e, i + 28)),
{
    assert(codec::enc_u64(e.0).len() == 8);
    assert(codec::enc_sync(e.1).len() == 20);
    codec::lemma_subrange_split(b, i, codec::enc_u64(e.0), codec::enc_sync(e.1));
    codec::lemma_read_enc_u64(b, i, e.0);
    codec::lemma_read_enc_sync(b, i + 8, e.1);
}

/// Appends the bytes of one roster entry.
pub fn push_player_entry(buf: &mut Vec<u8>, e: (u64, PlayerSyncData))
    ensures
        final(buf)@ == old(buf)@ + enc_player_entry(e),
{
    codec::push_u64(buf, e.0);
    codec::push_sync(buf, e.1);
    proof {
        assert(buf@ =~= old(buf)@ + enc_player_entry(e));
    }
}

/// Reads one roster entry, or nothing on a truncated input.
pub fn read_player_entry(b: &Vec<u8>, i: usize) -> (r: Option<((u64, PlayerSyncData), usize)>)
    requires
        i <= b@.len(),
    ensures
        r is Some <==> spec_read_player_entry(b@, i as int) is Some,
        r matches Some((e, j)) ==> spec_read_player_entry(b@, i as int) == Some((e, j as int)) && i
            < j <= b@.len(),
{
    match codec::read_u64(b, i) {
        Some((cid, j)) => match codec::read_sync(b, j) {
            Some((d, j2)) => Some(((cid, d), j2)),
            None => None,
        },
        None => None,
    }
}

/// Bytes of a roster, entry after entry.
pub open spec fn enc_player_entries(s: Seq<(u64, PlayerSyncData)>) -> Seq<u8>
    decreases s.len(),
{
    if s.len() == 0 {
        Seq::empty()
    } else {
        enc_player_entry(s[0]) + enc_player_entries(s.skip(1))
    }
}

/// A roster encodes to 28 bytes per entry.
pub proof fn lemma_enc_player_entries_len(s: Seq<(u64, PlayerSyncData)>)
    ensures
        enc_player_entries(s).len() == 28 * s.len(),
    decreases s.len(),
{
    if s.len() > 0 {
        assert(enc_player_entry(s[0]).len() == 28);
        lemma_enc_player_entries_len(s.skip(1));
    }
}

/// Reads `n` roster entries, or nothing on a truncated input.
pub open spec fn spec_read_player_entries(b: Seq<u8>, i: int, n: nat) -> Option<
    (Seq<(u64, PlayerSyncData)>, int),
>
    decreases n,
{
    if n == 0 {
        Some((Seq::empty(), i))
    } else {
        match spec_read_player_entry(b, i) {
            Some((e, j)) => match spec_read_player_entries(b, j, (n - 1) as nat) {
                Some((rest, j2)) => Some((seq![e] + rest, j2)),
                None => None,
            },
            None => None,
        }
    }
}

/// The reader inverts the encoder wherever the roster's bytes stand.
#[verifier::rlimit(100)]
pub proof fn lemma_read_enc_player_entries(b: Seq<u8>, i: int, s: Seq<(u64, PlayerSyncData)>)
    requires
        0 <= i,
        i + 28 * s.len() <= b.len(),
        b.subrange(i, i + 28 * s.len()) == enc_player_entries(s),
    ensures
        spec_read_player_entries(b, i, s.len() as nat) == Some((s, i + 28 * s.len())),
    decreases s.len(),
{
    if s.len() == 0 {
        assert(Seq::<(u64, PlayerSyncData)>::empty() =~= s);
    } else {
        let e0 = enc_player_entry(s[0]);
        let rest = enc_player_entries(s.skip(1));
        assert(e0.len() == 28);
        lemma_enc_player_entries_len(s.skip(1));
        codec::lemma_subrange_split(b, i, e0, rest);
        lemma_read_enc_player_entry(b, i, s[0]);
        lemma_read_enc_player_entries(b, i + 28, s.skip(1));
        assert(seq![s[0]] + s.skip(1) =~= s);
    }
}

/// Appends the bytes of the roster entries from `from` on.
pub fn push_player_entries(buf: &mut Vec<u8>, entries: &Vec<(u64, PlayerSyncData)>, from: usize)
    requires
        from <= entries@.len(),
    ensures
        final(buf)@ == old(buf)@ + enc_player_entries(entries@.skip(from as int)),
    decreases entries@.len() - from,
{
    if from < entries.len() {
        push_player_entry(buf, entries[from]);
        push_player_entries(buf, entries, from + 1);
        proof {
            let sk = entries@.skip(from as int);
            assert(sk[0] == entries@[from as int]);
            assert(sk.skip(1) =~= entries@.skip(from as int + 1));
            assert(buf@ =~= old(buf)@ + enc_player_entries(sk));
        }
    } else {
        proof {
            assert(entries@.skip(from as int) =~= Seq::<(u64, PlayerSyncData)>::empty());
        }
    }
}

/// Reads `n` roster entries, or nothing on a truncated input.
pub fn read_player_entries(b: &Vec<u8>, i: usize, n: u32) -> (r: Option<
    (Vec<(u64, PlayerSyncData)>, usize),
>)
    requires
        i <= b@.len(),
    ensures
        r is Some <==> spec_read_player_entries(b@, i as int, n as nat) is Some,
        r matches Some((v, j)) ==> spec_read_player_entries(b@, i as int, n as nat) == Some(
            (v@, j as int),
        ) && i <= j <= b@.len(),
    decreases n,
{
    if n == 0 {
        let v: Vec<(u64, PlayerSyncData)> = Vec::new();
        proof {
            assert(v@ =~= Seq::<(u64, PlayerSyncData)>::empty());
        }
        Some((v, i))
    } else {
        match read_player_entry(b, i) {
            Some((e, j)) => match read_player_entries(b, j, n - 1) {
                Some((v, j2)) => {
                    let mut v2 = v;
                    v2.insert(0, e);
                    proof {
                        assert(v2@ =~= seq![e] + v@);
                    }
                    Some((v2, j2))
                }
                None => None,
            },
            None => None,
        }
    }
}

/// Bytes of one world entry: cell, identity, kind.
pub open spec fn enc_world_entry(e: (GridPos, (NetworkId, TileKind))) -> Seq<u8> {
    codec::enc_gridpos(e.0) + codec::enc_netid(e.1.0) + codec::enc_kind(e.1.1)
}

/// Reads one world entry, or nothing on a truncated input.
pub open spec fn spec_read_world_entry(b: Seq<u8>, i: int) -> Option<
    ((GridPos, (NetworkId, TileKind)), int),
> {
    match codec::spec_read_gridpos(b, i) {
        Some((p, j)) => match codec::spec_read_netid(b, j) {
            Some((id, j2)) => match codec::spec_read_kind(b, j2) {
                Some((k, j3)) => Some(((p, (id, k)), j3)),
                None => None,
            },
            None => None,
        },
        None => None,
    }
}

/// The reader inverts the encoder wherever the entry's bytes stand.
pub proof fn lemma_read_enc_world_entry(b: Seq<u8>, i: int, e: (GridPos, (NetworkId, TileKind)))
    requires
        0 <= i,
        i + 17 <= b.len(),
        b.subrange(i, i + 17) == enc_world_entry(e),
    ensures
        spec_read_world_entry(b, i) == Some((e, i + 17)),
{
    let gp = codec::enc_gridpos(e.0);
    let nid = codec::enc_netid(e.1.0);
    let kk = codec::enc_kind(e.1.1);
    assert(gp.len() == 8 && nid.len() == 8 && kk.len() == 1);
    assert(b.subrange(i, i + 17) =~= gp + (nid + kk));
    codec::lemma_subrange_split(b, i, gp, nid + kk);
    codec::lemma_subrange_split(b, i + 8, nid, kk);
    codec::lemma_read_enc_gridpos(b, i, e.0);
    codec::lemma_read_enc_netid(b, i + 8, e.1.0);
    codec::lemma_read_enc_kind(b, i + 16, e.1.1);
}

/// Appends the bytes of one world entry.
pub fn push_world_entry(buf: &mut Vec<u8>, e: (GridPos, (NetworkId, TileKind)))
    ensures
        final(buf)@ == old(buf)@ + enc_world_entry(e),
{
    codec::push_gridpos(buf, e.0);
    codec::push_netid(buf, e.1.0);
    codec::push_kind(buf, e.1.1);
    proof {
        assert(buf@ =~= old(buf)@ + enc_world_entry(e));
    }
}

/// Reads one world entry, or nothing on a truncated input.
pub fn read_world_entry(b: &Vec<u8>, i: usize) -> (r: Option<
    ((GridPos, (NetworkId, TileKind)), usize),
>)
    requires
        i <= b@.len(),
    ensures
        r is Some <==> spec_read_world_entry(b@, i as int) is Some,
        r matches Some((e, j)) ==> spec_read_world_entry(b@, i as int) == Some((e, j as int)) && i
            < j <= b@.len(),
{
    match codec::read_gridpos(b, i) {
        Some((p, j)) => match codec::read_netid(b, j) {
            Some((id, j2)) => match codec::read_kind(b, j2) {
                Some((k, j3)) => Some(((p, (id, k)), j3)),
                None => None,
            },
            None => None,
        },
        None => None,
    }
}

/// Bytes of a world snapshot, entry after entry.
pub open spec fn enc_world_entries(s: Seq<(GridPos, (NetworkId, TileKind))>) -> Seq<u8>
    decreases s.len(),
{
    if s.len() == 0 {
        Seq::empty()
    } else {
        enc_world_entry(s[0]) + enc_world_entries(s.skip(1))
    }
}

/// A world snapshot encodes to 17 bytes per entry.
pub proof fn lemma_enc_world_entries_len(s: Seq<(GridPos, (NetworkId, TileKind))>)
    ensures
        enc_world_entries(s).len() == 17 * s.len(),
    decreases s.len(),
{
    if s.len() > 0 {
        assert(enc_world_entry(s[0]).len() == 17);
        lemma_enc_world_entries_len(s.skip(1));
    }
}

/// Reads `n` world entries, or nothing on a truncated input.
pub open spec fn spec_read_world_entries(b: Seq<u8>, i: int, n: nat) -> Option<
    (Seq<(GridPos, (NetworkId, TileKind))>, int),
>
    decreases n,
{
    if n == 0 {
        Some((Seq::empty(), i))
    } else {
        match spec_read_world_entry(b, i) {
            Some((e, j)) => match spec_read_world_entries(b, j, (n - 1) as nat) {
                Some((rest, j2)) => Some((seq![e] + rest, j2)),
                None => None,
            },
            None => None,
        }
    }
}

/// The reader inverts the encoder wherever the snapshot's bytes stand.
#[verifier::rlimit(100)]
pub proof fn lemma_read_enc_world_entries(
    b: Seq<u8>,
    i: int,
    s: Seq<(GridPos, (NetworkId, TileKind))>,
)
    requires
        0 <= i,
        i + 17 * s.len() <= b.len(),
        b.subrange(i, i + 17 * s.len()) == enc_world_entries(s),
    ensures
        spec_read_world_entries(b, i, s.len() as nat) == Some((s, i + 17 * s.len())),
    decreases s.len(),
{
    if s.len() == 0 {
        assert(Seq::<(GridPos, (NetworkId, TileKind))>::empty() =~= s);
    } else {
        let e0 = enc_world_entry(s[0]);
        let rest = enc_world_entries(s.skip(1));
        assert(e0.len() == 17);
        lemma_enc_world_entries_len(s.skip(1));
        codec::lemma_subrange_split(b, i, e0, rest);
        lemma_read_enc_world_entry(b, i, s[0]);
        lemma_read_enc_world_entries(b, i + 17, s.skip(1));
        assert(seq![s[0]] + s.skip(1) =~= s);
    }
}

/// Appends the bytes of the world entries from `from` on.
pub fn push_world_entries(
    buf: &mut Vec<u8>,
    entries: &Vec<(GridPos, (NetworkId, TileKind))>,
    from: usize,
)
    requires
        from <= entries@.len(),
    ensures
        final(buf)@ == old(buf)@ + enc_world_entries(entries@.skip(from as int)),
    decreases entries@.len() - from,
{
    if from < entries.len() {
        push_world_entry(buf, entries[from]);
        push_world_entries(buf, entries, from + 1);
        proof {
            let sk = entries@.skip(from as int);
            assert(sk[0] == entries@[from as int]);
            assert(sk.skip(1) =~= entries@.skip(from as int + 1));
            assert(buf@ =~= old(buf)@ + enc_world_entries(sk));
        }
    } else {
        proof {
            assert(entries@.skip(from as int) =~= Seq::<
                (GridPos, (NetworkId, TileKind)),
            >::empty());
        }
    }
}

/// Reads `n` world entries, or nothing on a truncated input.
pub fn read_world_entries(b: &Vec<u8>, i: usize, n: u32) -> (r: Option<
    (Vec<(GridPos, (NetworkId, TileKind))>, usize),
>)
    requires
        i <= b@.len(),
    ensures
        r is Some <==> spec_read_world_entries(b@, i as int, n as nat) is Some,
        r matches Some((v, j)) ==> spec_read_world_entries(b@, i as int, n as nat) == Some(
            (v@, j as int),
        ) && i <= j <= b@.len(),
    decreases n,
{
    if n == 0 {
        let v: Vec<(GridPos, (NetworkId, TileKind))> = Vec::new();
        proof {
            assert(v@ =~= Seq::<(GridPos, (NetworkId, TileKind))>::empty());
        }
        Some((v, i))
    } else {
        match read_world_entry(b, i) {
            Some((e, j)) => match read_world_entries(b, j, n - 1) {
                Some((v, j2)) => {
                    let mut v2 = v;
                    v2.insert(0, e);
                    proof {
                        assert(v2@ =~= seq![e] + v@);
                    }
                    Some((v2, j2))
                }
                None => None,
            },
            None => None,
        }
    }
}

// ------------------------------------------------------- full messages

/// A message knows its channel and serialises itself to the fixed,
/// versionless binary encoding both reconcilers agree on.
pub trait SendOverRenet {
    /// Which channel this message travels on.
    spec fn spec_channel(&self) -> u8;

    /// The bytes this message encodes to.
    spec fn spec_bytes(&self) -> Seq<u8>;

    /// Whether the message fits the encoding's limits.
    spec fn prepare_ok(&self) -> bool;

    /// The channel to send this message on.
    fn channel_id(&self) -> (r: u8)
        ensures
            r == self.spec_channel(),
    ;

    /// Serialises the message.
    fn prepare(&self) -> (r: Vec<u8>)
        requires
            self.prepare_ok(),
        ensures
            r@ == self.spec_bytes(),
    ;
}

/// Bytes of a reliable client message.
pub open spec fn spec_encode_client_reliable(m: ClientReliable) -> Seq<u8> {
    match m {
        ClientReliable::Event(e) => seq![0u8] + enc_event(e),
    }
}

/// The reliable client message some bytes stand for, if they are exactly
/// the encoding of one; an unknown tag or a truncated or overlong payload
/// is a decode error, never a fallback value.
pub open spec fn spec_decode_client_reliable(b: Seq<u8>) -> Option<ClientReliable> {
    if b.len() >= 1 && b[0] == 0 {
        match spec_read_event(b, 1) {
            Some((e, j)) => if j == b.len() {
                Some(ClientReliable::Event(e))
            } else {
                None
            },
            None => None,
        }
    } else {
        None
    }
}

/// Decoding inverts encoding for every reliable client message.
pub proof fn lemma_client_reliable_round_trip(m: ClientReliable)
    ensures
        spec_decode_client_reliable(spec_encode_client_reliable(m)) == Some(m),
{
    match m {
        ClientReliable::Event(e) => {
            let b = spec_encode_client_reliable(m);
            assert(b.len() == 1 + enc_event(e).len());
            assert(b[0] == 0);
            assert(b.subrange(1, 1 + enc_event(e).len() as int) =~= enc_event(e));
            lemma_read_enc_event(b, 1, e);
        }
    }
}

impl SendOverRenet for ClientReliable {
    open spec fn spec_channel(&self) -> u8 {
        CHANNEL_RELIABLE
    }

    open spec fn spec_bytes(&self) -> Seq<u8> {
        spec_encode_client_reliable(*self)
    }

    open spec fn prepare_ok(&self) -> bool {
        true
    }

    fn channel_id(&self) -> u8 {
        CHANNEL_RELIABLE
    }

    fn prepare(&self) -> Vec<u8> {
        let mut buf: Vec<u8> = Vec::new();
        match self {
            ClientReliable::Event(e) => {
                buf.push(0);
                push_event(&mut buf, e);
            }
        }
        proof {
            assert(buf@ =~= spec_encode_client_reliable(*self));
        }
        buf
    }
}

impl ClientReliable {
    /// Decodes a reliable client message; rejects anything that is not
    /// exactly the encoding of one.
    pub fn decode(bytes: &Vec<u8>) -> (r: Option<ClientReliable>)
        ensures
            r == spec_decode_client_reliable(bytes@),
    {
        if bytes.len() < 1 {
            return None;
        }
        let tag = bytes[0];
        if tag == 0 {
            match read_event(bytes, 1) {
                Some((e, j)) => if j == bytes.len() {
                    Some(ClientReliable::Event(e))
                } else {
                    None
                },
                None => None,
            }
        } else {
            None
        }
    }
}

/// Bytes of an unreliable client message.
pub open spec fn spec_encode_client_unreliable(m: ClientUnreliable) -> Seq<u8> {
    match m {
        ClientUnreliable::PlayerMovement(l) => seq![0u8] + codec::enc_loc(l),
    }
}

/// The unreliable client message some bytes stand for, if any.
pub open spec fn spec_decode_client_unreliable(b: Seq<u8>) -> Option<ClientUnreliable> {
    if b.len() >= 1 && b[0] == 0 {
        match codec::spec_read_loc(b, 1) {
            Some((l, j)) => if j == b.len() {
                Some(ClientUnreliable::PlayerMovement(l))
            } else {
                None
            },
            None => None,
        }
    } else {
        None
    }
}

/// Decoding inverts encoding for every unreliable client message.
pub proof fn lemma_client_unreliable_round_trip(m: ClientUnreliable)
    ensures
        spec_decode_client_unreliable(spec_encode_client_unreliable(m)) == Some(m),
{
    match m {
        ClientUnreliable::PlayerMovement(l) => {
            let b = spec_encode_client_unreliable(m);
            assert(b.len() == 9);
            assert(b[0] == 0);
            assert(b.subrange(1, 9) =~= codec::enc_loc(l));
            codec::lemma_read_enc_loc(b, 1, l);
        }
    }
}

impl SendOverRenet for ClientUnreliable {
    open spec fn spec_channel(&self) -> u8 {
        CHANNEL_UNRELIABLE
    }

    open spec fn spec_bytes(&self) -> Seq<u8> {
        spec_encode_client_unreliable(*self)
    }

    open spec fn prepare_ok(&self) -> bool {
        true
    }

    fn channel_id(&self) -> u8 {
        CHANNEL_UNRELIABLE
    }

    fn prepare(&self) -> Vec<u8> {
        let mut buf: Vec<u8> = Vec::new();
        match self {
            ClientUnreliable::PlayerMovement(l) => {
                buf.push(0);
                codec::push_loc(&mut buf, *l);
            }
        }
        proof {
            assert(buf@ =~= spec_encode_client_unreliable(*self));
        }
        buf
    }
}

impl ClientUnreliable {
    /// Decodes an unreliable client message; rejects anything that is not
    /// exactly the encoding of one.
    pub fn decode(bytes: &Vec<u8>) -> (r: Option<ClientUnreliable>)
        ensures
            r == spec_decode_client_unreliable(bytes@),
    {
        if bytes.len() < 1 {
            return None;
        }
        let tag = bytes[0];
        if tag == 0 {
            match codec::read_loc(bytes, 1) {
                Some((l, j)) => if j == bytes.len() {
                    Some(ClientUnreliable::PlayerMovement(l))
                } else {
                    None
                },
                None => None,
            }
        } else {
            None
        }
    }
}

/// Bytes of a reliable server message.
pub open spec fn spec_encode_server_reliable(m: ServerReliable) -> Seq<u8> {
    match m {
        ServerReliable::PlayerJoined(cid, d) => seq![0u8] + codec::enc_u64(cid)
            + codec::enc_sync(d),
        ServerReliable::PlayerLeft(cid) => seq![1u8] + codec::enc_u64(cid),
        ServerReliable::Event(e) => seq![2u8] + enc_event(e),
        ServerReliable::Spawn(id, c) => seq![3u8] + codec::enc_netid(id) + enc_cmd(c),
    }
}

/// The reliable server message some bytes stand for, if any.
pub open spec fn spec_decode_server_reliable(b: Seq<u8>) -> Option<ServerReliable> {
    if b.len() >= 1 {
        if b[0] == 0 {
            match codec::spec_read_u64(b, 1) {
                Some((cid, j)) => match codec::spec_read_sync(b, j) {
                    Some((d, j2)) => if j2 == b.len() {
                        Some(ServerReliable::PlayerJoined(cid, d))
                    } else {
                        None
                    },
                    None => None,
                },
                None => None,
            }
        } else if b[0] == 1 {
            match codec::spec_read_u64(b, 1) {
                Some((cid, j)) => if j == b.len() {
                    Some(ServerReliable::PlayerLeft(cid))
                } else {
                    None
                },
                None => None,
            }
        } else if b[0] == 2 {
            match spec_read_event(b, 1) {
                Some((e, j)) => if j == b.len() {
                    Some(ServerReliable::Event(e))
                } else {
                    None
                },
                None => None,
            }
        } else if b[0] == 3 {
            match codec::spec_read_netid(b, 1) {
                Some((id, j)) => match spec_read_cmd(b, j) {
                    Some((c, j2)) => if j2 == b.len() {
                        Some(ServerReliable::Spawn(id, c))
                    } else {
                        None
                    },
                    None => None,
                },
                None => None,
            }
        } else {
            None
        }
    } else {
        None
    }
}

proof fn lemma_sr_round_joined(cid: u64, d: PlayerSyncData)
    ensures
        spec_decode_server_reliable(
            spec_encode_server_reliable(ServerReliable::PlayerJoined(cid, d)),
        ) == Some(ServerReliable::PlayerJoined(cid, d)),
{
    let b = spec_encode_server_reliable(ServerReliable::PlayerJoined(cid, d));
    assert(codec::enc_u64(cid).len() == 8 && codec::enc_sync(d).len() == 20);
    assert(b.len() == 29);
    assert(b[0] == 0);
    assert(b.subrange(1, 29) =~= codec::enc_u64(cid) + codec::enc_sync(d));
    codec::lemma_subrange_split(b, 1, codec::enc_u64(cid), codec::enc_sync(d));
    codec::lemma_read_enc_u64(b, 1, cid);
    codec::lemma_read_enc_sync(b, 9, d);
}

proof fn lemma_sr_round_left(cid: u64)
    ensures
        spec_decode_server_reliable(spec_encode_server_reliable(ServerReliable::PlayerLeft(cid)))
            == Some(ServerReliable::PlayerLeft(cid)),
{
    let b = spec_encode_server_reliable(ServerReliable::PlayerLeft(cid));
    assert(b.len() == 9);
    assert(b[0] == 1);
    assert(b.subrange(1, 9) =~= codec::enc_u64(cid));
    codec::lemma_read_enc_u64(b, 1, cid);
}

proof fn lemma_sr_round_event(e: NetworkEvent)
    ensures
        spec_decode_server_reliable(spec_encode_server_reliable(ServerReliable::Event(e))) == Some(
            ServerReliable::Event(e),
        ),
{
    let b = spec_encode_server_reliable(ServerReliable::Event(e));
    assert(b.len() == 1 + enc_event(e).len());
    assert(b[0] == 2);
    assert(b.subrange(1, 1 + enc_event(e).len() as int) =~= enc_event(e));
    lemma_read_enc_event(b, 1, e);
}

proof fn lemma_sr_round_spawn(id: NetworkId, c: NetworkSpawnCommand)
    ensures
        spec_decode_server_reliable(spec_encode_server_reliable(ServerReliable::Spawn(id, c)))
            == Some(ServerReliable::Spawn(id, c)),
{
    let b = spec_encode_server_reliable(ServerReliable::Spawn(id, c));
    assert(codec::enc_netid(id).len() == 8);
    assert(b.len() == 9 + enc_cmd(c).len());
    assert(b[0] == 3);
    assert(b.subrange(1, b.len() as int) =~= codec::enc_netid(id) + enc_cmd(c));
    codec::lemma_subrange_split(b, 1, codec::enc_netid(id), enc_cmd(c));
    codec::lemma_read_enc_netid(b, 1, id);
    lemma_read_enc_cmd(b, 9, c);
}

/// Decoding inverts encoding for every reliable server message.
pub proof fn lemma_server_reliable_round_trip(m: ServerReliable)
    ensures
        spec_decode_server_reliable(spec_encode_server_reliable(m)) == Some(m),
{
    match m {
        ServerReliable::PlayerJoined(cid, d) => lemma_sr_round_joined(cid, d),
        ServerReliable::PlayerLeft(cid) => lemma_sr_round_left(cid),
        ServerReliable::Event(e) => lemma_sr_round_event(e),
        ServerReliable::Spawn(id, c) => lemma_sr_round_spawn(id, c),
    }
}

impl SendOverRenet for ServerReliable {
    open spec fn spec_channel(&self) -> u8 {
        CHANNEL_RELIABLE
    }

    open spec fn spec_bytes(&self) -> Seq<u8> {
        spec_encode_server_reliable(*self)
    }

    open spec fn prepare_ok(&self) -> bool {
        true
    }

    fn channel_id(&self) -> u8 {
        CHANNEL_RELIABLE
    }

    fn prepare(&self) -> Vec<u8> {
        let mut buf: Vec<u8> = Vec::new();
        match self {
            ServerReliable::PlayerJoined(cid, d) => {
                buf.push(0);
                codec::push_u64(&mut buf, *cid);
                codec::push_sync(&mut buf, *d);
            }
            ServerReliable::PlayerLeft(cid) => {
                buf.push(1);
                codec::push_u64(&mut buf, *cid);
            }
            ServerReliable::Event(e) => {
                buf.push(2);
                push_event(&mut buf, e);
            }
            ServerReliable::Spawn(id, c) => {
                buf.push(3);
                codec::push_netid(&mut buf, *id);
                push_cmd(&mut buf, c);
            }
        }
        proof {
            assert(buf@ =~= spec_encode_server_reliable(*self));
        }
        buf
    }
}

impl ServerReliable {
    /// Decodes a reliable server message; rejects anything that is not
    /// exactly the encoding of one.
    pub fn decode(bytes: &Vec<u8>) -> (r: Option<ServerReliable>)
        ensures
            r == spec_decode_server_reliable(bytes@),
    {
        if bytes.len() < 1 {
            return None;
        }
        let tag = bytes[0];
        if tag == 0 {
            match codec::read_u64(bytes, 1) {
                Some((cid, j)) => match codec::read_sync(bytes, j) {
                    Some((d, j2)) => if j2 == bytes.len() {
                        Some(ServerReliable::PlayerJoined(cid, d))
                    } else {
                        None
                    },
                    None => None,
                },
                None => None,
            }
        } else if tag == 1 {
            match codec::read_u64(bytes, 1) {
                Some((cid, j)) => if j == bytes.len() {
                    Some(ServerReliable::PlayerLeft(cid))
                } else {
                    None
                },
                None => None,
            }
        } else if tag == 2 {
            match read_event(bytes, 1) {
                Some((e, j)) => if j == bytes.len() {
                    Some(ServerReliable::Event(e))
                } else {
                    None
                },
                None => None,
            }
        } else if tag == 3 {
            match codec::read_netid(bytes, 1) {
                Some((id, j)) => match read_cmd(bytes, j) {
                    Some((c, j2)) => if j2 == bytes.len() {
                        Some(ServerReliable::Spawn(id, c))
                    } else {
                        None
                    },
                    None => None,
                },
                None => None,
            }
        } else {
            None
        }
    }
}

/// Bytes of an unreliable server message.
pub open spec fn spec_encode_server_unreliable(m: ServerUnreliable) -> Seq<u8> {
    match m {
        ServerUnreliable::PlayerMoved(cid, l) => seq![0u8] + codec::enc_u64(cid)
            + codec::enc_loc(l),
    }
}

/// The unreliable server message some bytes stand for, if any.
pub open spec fn spec_decode_server_unreliable(b: Seq<u8>) -> Option<ServerUnreliable> {
    if b.len() >= 1 && b[0] == 0 {
        match codec::spec_read_u64(b, 1) {
            Some((cid, j)) => match codec::spec_read_loc(b, j) {
                Some((l, j2)) => if j2 == b.len() {
                    Some(ServerUnreliable::PlayerMoved(cid, l))
                } else {
                    None
                },
                None => None,
            },
            None => None,
        }
    } else {
        None
    }
}

/// Decoding inverts encoding for every unreliable server message.
pub proof fn lemma_server_unreliable_round_trip(m: ServerUnreliable)
    ensures
        spec_decode_server_unreliable(spec_encode_server_unreliable(m)) == Some(m),
{
    match m {
        ServerUnreliable::PlayerMoved(cid, l) => {
            let b = spec_encode_server_unreliable(m);
            assert(codec::enc_u64(cid).len() == 8 && codec::enc_loc(l).len() == 8);
            assert(b.len() == 17);
            assert(b[0] == 0);
            assert(b.subrange(1, 17) =~= codec::enc_u64(cid) + codec::enc_loc(l));
            codec::lemma_subrange_split(b, 1, codec::enc_u64(cid), codec::enc_loc(l));
            codec::lemma_read_enc_u64(b, 1, cid);
            codec::lemma_read_enc_loc(b, 9, l);
        }
    }
}

impl SendOverRenet for ServerUnreliable {
    open spec fn spec_channel(&self) -> u8 {
        CHANNEL_UNRELIABLE
    }

    open spec fn spec_bytes(&self) -> Seq<u8> {
        spec_encode_server_unreliable(*self)
    }

    open spec fn prepare_ok(&self) -> bool {
        true
    }

    fn channel_id(&self) -> u8 {
        CHANNEL_UNRELIABLE
    }

    fn prepare(&self) -> Vec<u8> {
        let mut buf: Vec<u8> = Vec::new();
        match self {
            ServerUnreliable::PlayerMoved(cid, l) => {
                buf.push(0);
                codec::push_u64(&mut buf, *cid);
                codec::push_loc(&mut buf, *l);
            }
        }
        proof {
            assert(buf@ =~= spec_encode_server_unreliable(*self));
        }
        buf
    }
}

impl ServerUnreliable {
    /// Decodes an unreliable server message; rejects anything that is not
    /// exactly the encoding of one.
    pub fn decode(bytes: &Vec<u8>) -> (r: Option<ServerUnreliable>)
        ensures
            r == spec_decode_server_unreliable(bytes@),
    {
        if bytes.len() < 1 {
            return None;
        }
        let tag = bytes[0];
        if tag == 0 {
            match codec::read_u64(bytes, 1) {
                Some((cid, j)) => match codec::read_loc(bytes, j) {
                    Some((l, j2)) => if j2 == bytes.len() {
                        Some(ServerUnreliable::PlayerMoved(cid, l))
                    } else {
                        None
                    },
                    None => None,
                },
                None => None,
            }
        } else {
            None
        }
    }
}

/// Whether a bulk message's entry count fits the 32-bit count field.
pub open spec fn blocking_encodable(a: ServerBlockingAbs) -> bool {
    match a {
        ServerBlockingAbs::SyncPlayers(s) => s.len() < 4294967296,
        ServerBlockingAbs::SyncWorld(s) => s.len() < 4294967296,
    }
}

/// Bytes of a bulk server message: a tag, the entry count, the entries.
pub open spec fn spec_encode_server_blocking(a: ServerBlockingAbs) -> Seq<u8> {
    match a {
        ServerBlockingAbs::SyncPlayers(s) => seq![0u8] + codec::enc_u32(s.len() as u32)
            + enc_player_entries(s),
        ServerBlockingAbs::SyncWorld(s) => seq![1u8] + codec::enc_u32(s.len() as u32)
            + enc_world_entries(s),
    }
}

/// The bulk server message some bytes stand for, if any.
pub open spec fn spec_decode_server_blocking(b: Seq<u8>) -> Option<ServerBlockingAbs> {
    if b.len() >= 1 {
        if b[0] == 0 {
            match codec::spec_read_u32(b, 1) {
                Some((n, j)) => match spec_read_player_entries(b, j, n as nat) {
                    Some((s, j2)) => if j2 == b.len() {
                        Some(ServerBlockingAbs::SyncPlayers(s))
                    } else {
                        None
                    },
                    None => None,
                },
                None => None,
            }
        } else if b[0] == 1 {
            match codec::spec_read_u32(b, 1) {
                Some((n, j)) => match spec_read_world_entries(b, j, n as nat) {
                    Some((s, j2)) => if j2 == b.len() {
                        Some(ServerBlockingAbs::SyncWorld(s))
                    } else {
                        None
                    },
                    None => None,
                },
                None => None,
            }
        } else {
            None
        }
    } else {
        None
    }
}

/// Decoding inverts encoding for every bulk server message whose entry
/// count fits the count field.
#[verifier::rlimit(100)]
pub proof fn lemma_server_blocking_round_trip(a: ServerBlockingAbs)
    requires
        blocking_encodable(a),
    ensures
        spec_decode_server_blocking(spec_encode_server_blocking(a)) == Some(a),
{
    let b = spec_encode_server_blocking(a);
    match a {
        ServerBlockingAbs::SyncPlayers(s) => {
            let n = s.len() as u32;
            lemma_enc_player_entries_len(s);
            assert(b.len() == 5 + 28 * s.len());
            assert(b[0] == 0);
            assert(b.subrange(1, b.len() as int) =~= codec::enc_u32(n) + enc_player_entries(s));
            codec::lemma_subrange_split(b, 1, codec::enc_u32(n), enc_player_entries(s));
            codec::lemma_read_enc_u32(b, 1, n);
            lemma_read_enc_player_entries(b, 5, s);
            assert(n as nat == s.len());
        }
        ServerBlockingAbs::SyncWorld(s) => {
            let n = s.len() as u32;
            lemma_enc_world_entries_len(s);
            assert(b.len() == 5 + 17 * s.len());
            assert(b[0] == 1);
            assert(b.subrange(1, b.len() as int) =~= codec::enc_u32(n) + enc_world_entries(s));
            codec::lemma_subrange_split(b, 1, codec::enc_u32(n), enc_world_entries(s));
            codec::lemma_read_enc_u32(b, 1, n);
            lemma_read_enc_world_entries(b, 5, s);
            assert(n as nat == s.len());
        }
    }
}

impl SendOverRenet for ServerBlocking {
    open spec fn spec_channel(&self) -> u8 {
        CHANNEL_BLOCKING
    }

    open spec fn spec_bytes(&self) -> Seq<u8> {
        spec_encode_server_blocking(self@)
    }

    open spec fn prepare_ok(&self) -> bool {
        blocking_encodable(self@)
    }

    fn channel_id(&self) -> u8 {
        CHANNEL_BLOCKING
    }

    fn prepare(&self) -> Vec<u8> {
        let mut buf: Vec<u8> = Vec::new();
        match self {
            ServerBlocking::SyncPlayers(entries) => {
                buf.push(0);
                codec::push_u32(&mut buf, entries.len() as u32);
                push_player_entries(&mut buf, entries, 0);
                proof {
                    assert(entries@.skip(0) =~= entries@);
                }
            }
            ServerBlocking::SyncWorld(entries) => {
                buf.push(1);
                codec::push_u32(&mut buf, entries.len() as u32);
                push_world_entries(&mut buf, entries, 0);
                proof {
                    assert(entries@.skip(0) =~= entries@);
                }
            }
        }
        proof {
            assert(buf@ =~= spec_encode_server_blocking(self@));
        }
        buf
    }
}

impl ServerBlocking {
    /// Decodes a bulk server message; rejects anything that is not exactly
    /// the encoding of one.
    pub fn decode(bytes: &Vec<u8>) -> (r: Option<ServerBlocking>)
        ensures
            r is Some <==> spec_decode_server_blocking(bytes@) is Some,
            r matches Some(m) ==> Some(m@) == spec_decode_server_blocking(bytes@),
    {
        if bytes.len() < 1 {
            return None;
        }
        let tag = bytes[0];
        if tag == 0 {
            match codec::read_u32(bytes, 1) {
                Some((n, j)) => match read_player_entries(bytes, j, n) {
                    Some((v, j2)) => if j2 == bytes.len() {
                        Some(ServerBlocking::SyncPlayers(v))
                    } else {
                        None
                    },
                    None => None,
                },
                None => None,
            }
        } else if tag == 1 {
            match codec::read_u32(bytes, 1) {
                Some((n, j)) => match read_world_entries(bytes, j, n) {
                    Some((v, j2)) => if j2 == bytes.len() {
                        Some(ServerBlocking::SyncWorld(v))
                    } else {
                        None
                    },
                    None => None,
                },
                None => None,
            }
        } else {
            None
        }
    }
}

} // verus!
