//! Primitives of the binary wire encoding. Integers go to little-endian
//! bytes; signed coordinates travel as their 32-bit two's-complement
//! pattern; a tile kind is one tag byte. Every reader returns the decoded
//! value with the next position, or nothing on a truncated or unknown
//! input, and each encoder comes with a proof that its reader inverts it.
use vstd::prelude::*;

use crate::message::NetworkId;
use crate::player::{ColorRgb, PlayerLocation, PlayerSyncData};
use crate::tile::{GridPos, TileKind};

verus! {

// ---------------------------------------------------------------- u32

/// Little-endian bytes of a 32-bit value.
pub open spec fn enc_u32(v: u32) -> Seq<u8> {
    seq![
        (v % 256) as u8,
        ((v / 256) % 256) as u8,
        ((v / 65536) % 256) as u8,
        ((v / 16777216) % 256) as u8,
    ]
}

/// The 32-bit value whose little-endian bytes begin at `i`.
pub open spec fn dec_u32_at(b: Seq<u8>, i: int) -> u32
    recommends
        0 <= i,
        i + 4 <= b.len(),
{
    ((b[i] as int) + 256 * (b[i + 1] as int) + 65536 * (b[i + 2] as int) + 16777216 * (b[i
        + 3] as int)) as u32
}

/// Reads a 32-bit value, or nothing on a truncated input.
pub open spec fn spec_read_u32(b: Seq<u8>, i: int) -> Option<(u32, int)> {
    if i + 4 <= b.len() {
        Some((dec_u32_at(b, i), i + 4))
    } else {
        None
    }
}

proof fn lemma_u32_digits(v: u32)
    by (bit_vector)
    ensures
        (v % 256) + 256 * ((v / 256) % 256) + 65536 * ((v / 65536) % 256) + 16777216 * ((v
            / 16777216) % 256) == v,
        (v / 16777216) % 256 == v / 16777216,
{
}

/// The reader inverts the encoder wherever the four bytes stand.
pub proof fn lemma_read_enc_u32(b: Seq<u8>, i: int, v: u32)
    requires
        0 <= i,
        i + 4 <= b.len(),
        b.subrange(i, i + 4) == enc_u32(v),
    ensures
        spec_read_u32(b, i) == Some((v, i + 4)),
{
    assert(b[i] == enc_u32(v)[0]) by {
        assert(b.subrange(i, i + 4)[0] == b[i]);
    }
    assert(b[i + 1] == enc_u32(v)[1]) by {
        assert(b.subrange(i, i + 4)[1] == b[i + 1]);
    }
    assert(b[i + 2] == enc_u32(v)[2]) by {
        assert(b.subrange(i, i + 4)[2] == b[i + 2]);
    }
    assert(b[i + 3] == enc_u32(v)[3]) by {
        assert(b.subrange(i, i + 4)[3] == b[i + 3]);
    }
    lemma_u32_digits(v);
}

/// Appends the little-endian bytes of `v`.
pub fn push_u32(buf: &mut Vec<u8>, v: u32)
    ensures
        final(buf)@ == old(buf)@ + enc_u32(v),
{
    proof {
        lemma_u32_digits(v);
    }
    buf.push((v % 256) as u8);
    buf.push(((v / 256) % 256) as u8);
    buf.push(((v / 65536) % 256) as u8);
    buf.push((v / 16777216) as u8);
    proof {
        assert(buf@ =~= old(buf)@ + enc_u32(v));
    }
}

/// Reads a 32-bit value, or nothing on a truncated input.
pub fn read_u32(b: &Vec<u8>, i: usize) -> (r: Option<(u32, usize)>)
    requires
        i <= b@.len(),
    ensures
        r is Some <==> spec_read_u32(b@, i as int) is Some,
        r matches Some((v, j)) ==> spec_read_u32(b@, i as int) == Some((v, j as int)) && i < j
            <= b@.len(),
{
    if b.len() - i >= 4 {
        let b0 = b[i] as u32;
        let b1 = b[i + 1] as u32;
        let b2 = b[i + 2] as u32;
        let b3 = b[i + 3] as u32;
        let v = b0 + b1 * 256 + b2 * 65536 + b3 * 16777216;
        Some((v, i + 4))
    } else {
        None
    }
}

// ---------------------------------------------------------------- u64

/// Little-endian bytes of a 64-bit value.
pub open spec fn enc_u64(v: u64) -> Seq<u8> {
    seq![
        (v % 256) as u8,
        ((v / 256) % 256) as u8,
        ((v / 65536) % 256) as u8,
        ((v / 16777216) % 256) as u8,
        ((v / 4294967296) % 256) as u8,
        ((v / 1099511627776) % 256) as u8,
        ((v / 281474976710656) % 256) as u8,
        ((v / 72057594037927936) % 256) as u8,
    ]
}

/// The 64-bit value whose little-endian bytes begin at `i`.
pub open spec fn dec_u64_at(b: Seq<u8>, i: int) -> u64
    recommends
        0 <= i,
        i + 8 <= b.len(),
{
    ((b[i] as int) + 256 * (b[i + 1] as int) + 65536 * (b[i + 2] as int) + 16777216 * (b[i
        + 3] as int) + 4294967296 * (b[i + 4] as int) + 1099511627776 * (b[i + 5] as int)
        + 281474976710656 * (b[i + 6] as int) + 72057594037927936 * (b[i + 7] as int)) as u64
}

/// Reads a 64-bit value, or nothing on a truncated input.
pub open spec fn spec_read_u64(b: Seq<u8>, i: int) -> Option<(u64, int)> {
    if i + 8 <= b.len() {
        Some((dec_u64_at(b, i), i + 8))
    } else {
        None
    }
}

proof fn lemma_u64_digits(v: u64)
    by (bit_vector)
    ensures
        (v % 256) + 256 * ((v / 256) % 256) + 65536 * ((v / 65536) % 256) + 16777216 * ((v
            / 16777216) % 256) + 4294967296 * ((v / 4294967296) % 256) + 1099511627776 * ((v
            / 1099511627776) % 256) + 281474976710656 * ((v / 281474976710656) % 256)
            + 72057594037927936 * ((v / 72057594037927936) % 256) == v,
        (v / 72057594037927936) % 256 == v / 72057594037927936,
{
}

/// The reader inverts the encoder wherever the eight bytes stand.
pub proof fn lemma_read_enc_u64(b: Seq<u8>, i: int, v: u64)
    requires
        0 <= i,
        i + 8 <= b.len(),
        b.subrange(i, i + 8) == enc_u64(v),
    ensures
        spec_read_u64(b, i) == Some((v, i + 8)),
{
    assert forall|k: int| 0 <= k < 8 implies b[i + k] == enc_u64(v)[k] by {
        assert(b.subrange(i, i + 8)[k] == b[i + k]);
    }
    lemma_u64_digits(v);
}

/// Appends the little-endian bytes of `v`.
pub fn push_u64(buf: &mut Vec<u8>, v: u64)
    ensures
        final(buf)@ == old(buf)@ + enc_u64(v),
{
    proof {
        lemma_u64_digits(v);
    }
    buf.push((v % 256) as u8);
    buf.push(((v / 256) % 256) as u8);
    buf.push(((v / 65536) % 256) as u8);
    buf.push(((v / 16777216) % 256) as u8);
    buf.push(((v / 4294967296) % 256) as u8);
    buf.push(((v / 1099511627776) % 256) as u8);
    buf.push(((v / 281474976710656) % 256) as u8);
    buf.push((v / 72057594037927936) as u8);
    proof {
        assert(buf@ =~= old(buf)@ + enc_u64(v));
    }
}

/// Reads a 64-bit value, or nothing on a truncated input.
pub fn read_u64(b: &Vec<u8>, i: usize) -> (r: Option<(u64, usize)>)
    requires
        i <= b@.len(),
    ensures
        r is Some <==> spec_read_u64(b@, i as int) is Some,
        r matches Some((v, j)) ==> spec_read_u64(b@, i as int) == Some((v, j as int)) && i < j
            <= b@.len(),
{
    if b.len() - i >= 8 {
        let b0 = b[i] as u64;
        let b1 = b[i + 1] as u64;
        let b2 = b[i + 2] as u64;
        let b3 = b[i + 3] as u64;
        let b4 = b[i + 4] as u64;
        let b5 = b[i + 5] as u64;
        let b6 = b[i + 6] as u64;
        let b7 = b[i + 7] as u64;
        let v = b0 + b1 * 256 + b2 * 65536 + b3 * 16777216 + b4 * 4294967296 + b5
            * 1099511627776 + b6 * 281474976710656 + b7 * 72057594037927936;
        Some((v, i + 8))
    } else {
        None
    }
}

// ---------------------------------------------------------------- i32

/// The unsigned pattern standing for a signed coordinate.
pub open spec fn u32_of_i32(v: i32) -> u32 {
    if v >= 0 {
        v as u32
    } else {
        (v + 4294967296) as u32
    }
}

/// The signed coordinate a stored pattern stands for.
pub open spec fn i32_of_u32(u: u32) -> i32 {
    if u < 2147483648 {
        u as i32
    } else {
        (u - 4294967296) as i32
    }
}

/// The two conversions invert each other.
pub proof fn lemma_i32_round(v: i32)
    ensures
        i32_of_u32(u32_of_i32(v)) == v,
{
}

/// Appends the four pattern bytes of a signed coordinate.
pub fn push_i32(buf: &mut Vec<u8>, v: i32)
    ensures
        final(buf)@ == old(buf)@ + enc_u32(u32_of_i32(v)),
{
    let bits: u32 = if v >= 0 {
        v as u32
    } else {
        ((v as i64) + 4294967296i64) as u32
    };
    proof {
        assert(bits == u32_of_i32(v));
    }
    push_u32(buf, bits);
}

/// Reads a signed coordinate, or nothing on a truncated input.
pub fn read_i32(b: &Vec<u8>, i: usize) -> (r: Option<(i32, usize)>)
    requires
        i <= b@.len(),
    ensures
        r is Some <==> spec_read_u32(b@, i as int) is Some,
        r matches Some((v, j)) ==> spec_read_u32(b@, i as int) matches Some((u, j2)) && v
            == i32_of_u32(u) && j == j2 && i < j <= b@.len(),
{
    match read_u32(b, i) {
        Some((u, j)) => {
            let v: i32 = if u < 2147483648 {
                u as i32
            } else {
                ((u as i64) - 4294967296i64) as i32
            };
            proof {
                assert(v == i32_of_u32(u));
            }
            Some((v, j))
        }
        None => None,
    }
}

// ------------------------------------------------------------ GridPos

/// Bytes of a grid cell: both coordinates as 32-bit patterns.
pub open spec fn enc_gridpos(p: GridPos) -> Seq<u8> {
    enc_u32(u32_of_i32(p.x)) + enc_u32(u32_of_i32(p.y))
}

/// Reads a grid cell, or nothing on a truncated input.
pub open spec fn spec_read_gridpos(b: Seq<u8>, i: int) -> Option<(GridPos, int)> {
    if i + 8 <= b.len() {
        Some(
            ((GridPos { x: i32_of_u32(dec_u32_at(b, i)), y: i32_of_u32(dec_u32_at(b, i + 4)) }), i
                + 8),
        )
    } else {
        None
    }
}

/// Splits one stretch of bytes known to be a concatenation in two.
pub proof fn lemma_subrange_split(b: Seq<u8>, i: int, s: Seq<u8>, t: Seq<u8>)
    requires
        0 <= i,
        i + s.len() + t.len() <= b.len(),
        b.subrange(i, i + s.len() + t.len()) == s + t,
    ensures
        b.subrange(i, i + s.len()) == s,
        b.subrange(i + s.len(), i + s.len() + t.len()) == t,
{
    let u = b.subrange(i, i + s.len() + t.len());
    assert forall|k: int| 0 <= k < s.len() implies b.subrange(i, i + s.len())[k] == s[k] by {
        assert(u[k] == b[i + k]);
        assert((s + t)[k] == s[k]);
    }
    assert(b.subrange(i, i + s.len()) =~= s);
    assert forall|k: int| 0 <= k < t.len() implies b.subrange(
        i + s.len(),
        i + s.len() + t.len(),
    )[k] == t[k] by {
        assert(u[s.len() + k] == b[i + s.len() + k]);
        assert((s + t)[s.len() + k] == t[k]);
    }
    assert(b.subrange(i + s.len(), i + s.len() + t.len()) =~= t);
}

/// The reader inverts the encoder wherever the eight bytes stand.
pub proof fn lemma_read_enc_gridpos(b: Seq<u8>, i: int, p: GridPos)
    requires
        0 <= i,
        i + 8 <= b.len(),
        b.subrange(i, i + 8) == enc_gridpos(p),
    ensures
        spec_read_gridpos(b, i) == Some((p, i + 8)),
{
    lemma_subrange_split(b, i, enc_u32(u32_of_i32(p.x)), enc_u32(u32_of_i32(p.y)));
    lemma_read_enc_u32(b, i, u32_of_i32(p.x));
    lemma_read_enc_u32(b, i + 4, u32_of_i32(p.y));
    lemma_i32_round(p.x);
    lemma_i32_round(p.y);
}

/// Appends the bytes of a grid cell.
pub fn push_gridpos(buf: &mut Vec<u8>, p: GridPos)
    ensures
        final(buf)@ == old(buf)@ + enc_gridpos(p),
{
    push_i32(buf, p.x);
    push_i32(buf, p.y);
    proof {
        assert(buf@ =~= old(buf)@ + enc_gridpos(p));
    }
}

/// Reads a grid cell, or nothing on a truncated input.
pub fn read_gridpos(b: &Vec<u8>, i: usize) -> (r: Option<(GridPos, usize)>)
    requires
        i <= b@.len(),
    ensures
        r is Some <==> spec_read_gridpos(b@, i as int) is Some,
        r matches Some((p, j)) ==> spec_read_gridpos(b@, i as int) == Some((p, j as int)) && i < j
            <= b@.len(),
{
    match read_i32(b, i) {
        Some((x, j)) => match read_i32(b, j) {
            Some((y, j2)) => Some((GridPos { x, y }, j2)),
            None => None,
        },
        None => None,
    }
}

// ----------------------------------------------------------- TileKind

/// The tag byte of a tile kind.
pub open spec fn kind_tag(k: TileKind) -> u8 {
    match k {
        TileKind::Stone => 0,
        TileKind::Grass => 1,
    }
}

/// Bytes of a tile kind: its tag alone.
pub open spec fn enc_kind(k: TileKind) -> Seq<u8> {
    seq![kind_tag(k)]
}

/// Reads a tile kind; an unknown tag is a decode error, never a fallback.
pub open spec fn spec_read_kind(b: Seq<u8>, i: int) -> Option<(TileKind, int)> {
    if 0 <= i && i + 1 <= b.len() {
        if b[i] == 0 {
            Some((TileKind::Stone, i + 1))
        } else if b[i] == 1 {
            Some((TileKind::Grass, i + 1))
        } else {
            None
        }
    } else {
        None
    }
}

/// The reader inverts the encoder wherever the tag byte stands.
pub proof fn lemma_read_enc_kind(b: Seq<u8>, i: int, k: TileKind)
    requires
        0 <= i,
        i + 1 <= b.len(),
        b.subrange(i, i + 1) == enc_kind(k),
    ensures
        spec_read_kind(b, i) == Some((k, i + 1)),
{
    assert(b[i] == kind_tag(k)) by {
        assert(b.subrange(i, i + 1)[0] == b[i]);
    }
}

/// Appends the tag byte of a tile kind.
pub fn push_kind(buf: &mut Vec<u8>, k: TileKind)
    ensures
        final(buf)@ == old(buf)@ + enc_kind(k),
{
    match k {
        TileKind::Stone => buf.push(0),
        TileKind::Grass => buf.push(1),
    }
    proof {
        assert(buf@ =~= old(buf)@ + enc_kind(k));
    }
}

/// Reads a tile kind, or nothing on a truncated or unknown input.
pub fn read_kind(b: &Vec<u8>, i: usize) -> (r: Option<(TileKind, usize)>)
    requires
        i <= b@.len(),
    ensures
        r is Some <==> spec_read_kind(b@, i as int) is Some,
        r matches Some((k, j)) ==> spec_read_kind(b@, i as int) == Some((k, j as int)) && i < j
            <= b@.len(),
{
    if b.len() - i >= 1 {
        let tag = b[i];
        if tag == 0 {
            Some((TileKind::Stone, i + 1))
        } else if tag == 1 {
            Some((TileKind::Grass, i + 1))
        } else {
            None
        }
    } else {
        None
    }
}

// ---------------------------------------------------------- NetworkId

/// Bytes of a server-minted identity: its 64-bit value.
pub open spec fn enc_netid(id: NetworkId) -> Seq<u8> {
    enc_u64(id.0)
}

/// Reads a server-minted identity, or nothing on a truncated input.
pub open spec fn spec_read_netid(b: Seq<u8>, i: int) -> Option<(NetworkId, int)> {
    if i + 8 <= b.len() {
        Some((NetworkId(dec_u64_at(b, i)), i + 8))
    } else {
        None
    }
}

/// The reader inverts the encoder wherever the eight bytes stand.
pub proof fn lemma_read_enc_netid(b: Seq<u8>, i: int, id: NetworkId)
    requires
        0 <= i,
        i + 8 <= b.len(),
        b.subrange(i, i + 8) == enc_netid(id),
    ensures
        spec_read_netid(b, i) == Some((id, i + 8)),
{
    lemma_read_enc_u64(b, i, id.0);
}

/// Appends the bytes of a server-minted identity.
pub fn push_netid(buf: &mut Vec<u8>, id: NetworkId)
    ensures
        final(buf)@ == old(buf)@ + enc_netid(id),
{
    push_u64(buf, id.0);
}

/// Reads a server-minted identity, or nothing on a truncated input.
pub fn read_netid(b: &Vec<u8>, i: usize) -> (r: Option<(NetworkId, usize)>)
    requires
        i <= b@.len(),
    ensures
        r is Some <==> spec_read_netid(b@, i as int) is Some,
        r matches Some((id, j)) ==> spec_read_netid(b@, i as int) == Some((id, j as int)) && i < j
            <= b@.len(),
{
    match read_u64(b, i) {
        Some((v, j)) => Some((NetworkId(v), j)),
        None => None,
    }
}

// ----------------------------------------------- PlayerLocation, colour

/// Bytes of a position: both coordinate patterns.
pub open spec fn enc_loc(l: PlayerLocation) -> Seq<u8> {
    enc_u32(l.x_bits) + enc_u32(l.y_bits)
}

/// Reads a position, or nothing on a truncated input.
pub open spec fn spec_read_loc(b: Seq<u8>, i: int) -> Option<(PlayerLocation, int)> {
    if i + 8 <= b.len() {
        Some(
            ((PlayerLocation { x_bits: dec_u32_at(b, i), y_bits: dec_u32_at(b, i + 4) }), i + 8),
        )
    } else {
        None
    }
}

/// The reader inverts the encoder wherever the eight bytes stand.
pub proof fn lemma_read_enc_loc(b: Seq<u8>, i: int, l: PlayerLocation)
    requires
        0 <= i,
        i + 8 <= b.len(),
        b.subrange(i, i + 8) == enc_loc(l),
    ensures
        spec_read_loc(b, i) == Some((l, i + 8)),
{
    lemma_subrange_split(b, i, enc_u32(l.x_bits), enc_u32(l.y_bits));
    lemma_read_enc_u32(b, i, l.x_bits);
    lemma_read_enc_u32(b, i + 4, l.y_bits);
}

/// Appends the bytes of a position.
pub fn push_loc(buf: &mut Vec<u8>, l: PlayerLocation)
    ensures
        final(buf)@ == old(buf)@ + enc_loc(l),
{
    push_u32(buf, l.x_bits);
    push_u32(buf, l.y_bits);
    proof {
        assert(buf@ =~= old(buf)@ + enc_loc(l));
    }
}

/// Reads a position, or nothing on a truncated input.
pub fn read_loc(b: &Vec<u8>, i: usize) -> (r: Option<(PlayerLocation, usize)>)
    requires
        i <= b@.len(),
    ensures
        r is Some <==> spec_read_loc(b@, i as int) is Some,
        r matches Some((l, j)) ==> spec_read_loc(b@, i as int) == Some((l, j as int)) && i < j
            <= b@.len(),
{
    match read_u32(b, i) {
        Some((x_bits, j)) => match read_u32(b, j) {
            Some((y_bits, j2)) => Some((PlayerLocation { x_bits, y_bits }, j2)),
            None => None,
        },
        None => None,
    }
}

/// Bytes of a colour: its three channel patterns.
pub open spec fn enc_color(c: ColorRgb) -> Seq<u8> {
    enc_u32(c.red_bits) + enc_u32(c.green_bits) + enc_u32(c.blue_bits)
}

/// Reads a colour, or nothing on a truncated input.
pub open spec fn spec_read_color(b: Seq<u8>, i: int) -> Option<(ColorRgb, int)> {
    if i + 12 <= b.len() {
        Some(
            ((ColorRgb {
                red_bits: dec_u32_at(b, i),
                green_bits: dec_u32_at(b, i + 4),
                blue_bits: dec_u32_at(b, i + 8),
            }), i + 12),
        )
    } else {
        None
    }
}

/// The reader inverts the encoder wherever the twelve bytes stand.
#[verifier::rlimit(50)]
pub proof fn lemma_read_enc_color(b: Seq<u8>, i: int, c: ColorRgb)
    requires
        0 <= i,
        i + 12 <= b.len(),
        b.subrange(i, i + 12) == enc_color(c),
    ensures
        spec_read_color(b, i) == Some((c, i + 12)),
{
    let r = enc_u32(c.red_bits);
    let g = enc_u32(c.green_bits);
    let bl = enc_u32(c.blue_bits);
    assert(r.len() == 4 && g.len() == 4 && bl.len() == 4);
    assert(b.subrange(i, i + 12) =~= r + (g + bl));
    lemma_subrange_split(b, i, r, g + bl);
    lemma_subrange_split(b, i + 4, g, bl);
    lemma_read_enc_u32(b, i, c.red_bits);
    lemma_read_enc_u32(b, i + 4, c.green_bits);
    lemma_read_enc_u32(b, i + 8, c.blue_bits);
}

/// Appends the bytes of a colour.
pub fn push_color(buf: &mut Vec<u8>, c: ColorRgb)
    ensures
        final(buf)@ == old(buf)@ + enc_color(c),
{
    push_u32(buf, c.red_bits);
    push_u32(buf, c.green_bits);
    push_u32(buf, c.blue_bits);
    proof {
        assert(buf@ =~= old(buf)@ + enc_color(c));
    }
}

/// Reads a colour, or nothing on a truncated input.
pub fn read_color(b: &Vec<u8>, i: usize) -> (r: Option<(ColorRgb, usize)>)
    requires
        i <= b@.len(),
    ensures
        r is Some <==> spec_read_color(b@, i as int) is Some,
        r matches Some((c, j)) ==> spec_read_color(b@, i as int) == Some((c, j as int)) && i < j
            <= b@.len(),
{
    match read_u32(b, i) {
        Some((red_bits, j)) => match read_u32(b, j) {
            Some((green_bits, j2)) => match read_u32(b, j2) {
                Some((blue_bits, j3)) => Some(
                    (ColorRgb { red_bits, green_bits, blue_bits }, j3),
                ),
                None => None,
            },
            None => None,
        },
        None => None,
    }
}

// ------------------------------------------------------ PlayerSyncData

/// Bytes of a player's synchronised state: position, then colour.
pub open spec fn enc_sync(d: PlayerSyncData) -> Seq<u8> {
    enc_loc(d.pos) + enc_color(d.color)
}

/// Reads a player's synchronised state, or nothing on a truncated input.
pub open spec fn spec_read_sync(b: Seq<u8>, i: int) -> Option<(PlayerSyncData, int)> {
    match spec_read_loc(b, i) {
        Some((pos, j)) => match spec_read_color(b, j) {
            Some((color, j2)) => Some(((PlayerSyncData { pos, color }), j2)),
            None => None,
        },
        None => None,
    }
}

/// The reader inverts the encoder wherever the twenty bytes stand.
pub proof fn lemma_read_enc_sync(b: Seq<u8>, i: int, d: PlayerSyncData)
    requires
        0 <= i,
        i + 20 <= b.len(),
        b.subrange(i, i + 20) == enc_sync(d),
    ensures
        spec_read_sync(b, i) == Some((d, i + 20)),
{
    assert(enc_loc(d.pos).len() == 8);
    assert(enc_color(d.color).len() == 12);
    lemma_subrange_split(b, i, enc_loc(d.pos), enc_color(d.color));
    lemma_read_enc_loc(b, i, d.pos);
    lemma_read_enc_color(b, i + 8, d.color);
}

/// Appends the bytes of a player's synchronised state.
pub fn push_sync(buf: &mut Vec<u8>, d: PlayerSyncData)
    ensures
        final(buf)@ == old(buf)@ + enc_sync(d),
{
    push_loc(buf, d.pos);
    push_color(buf, d.color);
    proof {
        assert(buf@ =~= old(buf)@ + enc_sync(d));
    }
}

/// Reads a player's synchronised state, or nothing on a truncated input.
pub fn read_sync(b: &Vec<u8>, i: usize) -> (r: Option<(PlayerSyncData, usize)>)
    requires
        i <= b@.len(),
    ensures
        r is Some <==> spec_read_sync(b@, i as int) is Some,
        r matches Some((d, j)) ==> spec_read_sync(b@, i as int) == Some((d, j as int)) && i < j
            <= b@.len(),
{
    match read_loc(b, i) {
        Some((pos, j)) => match read_color(b, j) {
            Some((color, j2)) => Some((PlayerSyncData { pos, color }, j2)),
            None => None,
        },
        None => None,
    }
}

} // verus!
