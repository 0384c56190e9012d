//! The world state store: at most one tile per grid cell, each tile carrying
//! a server-minted `NetworkId` and an immutable kind. On the server the
//! store is ground truth and mints identities; on a client it is a replica,
//! fully replaced on initial sync and patched by server messages thereafter.
use vstd::prelude::*;

use crate::kv;
use crate::message::NetworkId;

verus! {

/// The closed set of tile kinds; fixed once a tile is created.
#[derive(Clone, Copy, PartialEq, Eq, Structural, Debug, Hash)]
pub enum TileKind {
    Stone,
    Grass,
}

/// An integer cell on the (conceptually infinite) grid.
#[derive(Clone, Copy, PartialEq, Eq, Structural, Debug, Hash)]
pub struct GridPos {
    pub x: i32,
    pub y: i32,
}

/// One world entry as carried in a bulk sync message.
pub type TileEntry = (GridPos, (NetworkId, TileKind));

/// The id of some live tile of the map.
pub open spec fn map_has_id(m: Map<GridPos, (NetworkId, TileKind)>, id: NetworkId) -> bool {
    exists|p: GridPos| m.contains_key(p) && m[p].0 == id
}

/// No two live tiles share a `NetworkId`.
pub open spec fn ids_distinct(m: Map<GridPos, (NetworkId, TileKind)>) -> bool {
    forall|p: GridPos, q: GridPos|
        m.contains_key(p) && m.contains_key(q) && p != q ==> m[p].0 != m[q].0
}

/// No two entries of a sync list share a `NetworkId`.
pub open spec fn entry_ids_unique(s: Seq<TileEntry>) -> bool {
    forall|i: int, j: int| 0 <= i < j < s.len() ==> s[i].1.0 != s[j].1.0
}

/// The world state store. Its view is the map from occupied cells to the
/// identity and kind of the tile standing there.
pub struct Tiles {
    entries: Vec<TileEntry>,
    next_id: u64,
}

impl View for Tiles {
    type V = Map<GridPos, (NetworkId, TileKind)>;

    closed spec fn view(&self) -> Map<GridPos, (NetworkId, TileKind)> {
        kv::map_of(self.entries@)
    }
}

impl Tiles {
    /// Occupancy and identity invariant: no two live tiles share a cell or
    /// a `NetworkId`.
    pub closed spec fn wf(self) -> bool {
        &&& kv::keys_unique(self.entries@)
        &&& entry_ids_unique(self.entries@)
    }

    /// Server-side minting invariant: every live id was minted below the
    /// counter, so a fresh id can never collide with a live one.
    pub closed spec fn minted_ok(self) -> bool {
        forall|i: int| 0 <= i < self.entries@.len() ==> self.entries@[i].1.0.0 < self.next_id
    }

    /// The id the next successful placement returns. Placements move it up
    /// and nothing ever moves it down, so minted ids never repeat.
    pub closed spec fn fresh_id(self) -> u64 {
        self.next_id
    }

    /// How many tiles are live.
    pub closed spec fn count(self) -> nat {
        self.entries@.len()
    }

    /// An empty store.
    pub fn new() -> (t: Tiles)
        ensures
            t@ == Map::<GridPos, (NetworkId, TileKind)>::empty(),
            t.wf(),
            t.minted_ok(),
            t.fresh_id() == 0,
            t.count() == 0,
    {
        Tiles { entries: Vec::new(), next_id: 0 }
    }

    /// The index of the entry holding `pos`, if the cell is occupied.
    fn find_pos(&self, pos: GridPos) -> (r: Option<usize>)
        ensures
            match r {
                Some(i) => i < self.entries@.len() && self.entries@[i as int].0 == pos,
                None => forall|j: int|
                    0 <= j < self.entries@.len() ==> self.entries@[j].0 != pos,
            },
    {
        let mut i: usize = 0;
        while i < self.entries.len()
            invariant
                i <= self.entries@.len(),
                forall|j: int| 0 <= j < i ==> self.entries@[j].0 != pos,
            decreases self.entries@.len() - i,
        {
            if self.entries[i].0 == pos {
                return Some(i);
            }
            i = i + 1;
        }
        None
    }

    /// The index of the entry holding the tile with identity `id`, if any.
    fn find_id(&self, id: NetworkId) -> (r: Option<usize>)
        ensures
            match r {
                Some(i) => i < self.entries@.len() && self.entries@[i as int].1.0 == id,
                None => forall|j: int|
                    0 <= j < self.entries@.len() ==> self.entries@[j].1.0 != id,
            },
    {
        let mut i: usize = 0;
        while i < self.entries.len()
            invariant
                i <= self.entries@.len(),
                forall|j: int| 0 <= j < i ==> self.entries@[j].1.0 != id,
            decreases self.entries@.len() - i,
        {
            if self.entries[i].1.0 == id {
                return Some(i);
            }
            i = i + 1;
        }
        None
    }

    /// What stands at `pos`, if anything.
    pub fn get(&self, pos: GridPos) -> (r: Option<(NetworkId, TileKind)>)
        requires
            self.wf(),
        ensures
            match r {
                Some(v) => self@.contains_key(pos) && self@[pos] == v,
                None => !self@.contains_key(pos),
            },
    {
        match self.find_pos(pos) {
            Some(i) => {
                proof {
                    kv::lemma_map_of_index(self.entries@, i as int);
                }
                Some(self.entries[i].1)
            }
            None => {
                proof {
                    kv::lemma_map_of_contains(self.entries@, pos);
                }
                None
            }
        }
    }

    /// The cell of the live tile with identity `id`, if any.
    pub fn id_lookup(&self, id: NetworkId) -> (r: Option<GridPos>)
        requires
            self.wf(),
        ensures
            match r {
                Some(p) => self@.contains_key(p) && self@[p].0 == id,
                None => !map_has_id(self@, id),
            },
    {
        let ghost s = self.entries@;
        match self.find_id(id) {
            Some(i) => {
                proof {
                    kv::lemma_map_of_index(s, i as int);
                }
                Some(self.entries[i].0)
            }
            None => {
                proof {
                    assert forall|p: GridPos|
                        kv::map_of(s).contains_key(p) implies kv::map_of(s)[p].0 != id by {
                        kv::lemma_map_of_contains(s, p);
                        let j = choose|j: int| 0 <= j < s.len() && s[j].0 == p;
                        kv::lemma_map_of_index(s, j);
                    }
                }
                None
            }
        }
    }

    /// Authoritative placement. Rejects, changing nothing, when the cell is
    /// occupied; otherwise mints the next fresh id, records the tile and
    /// returns the id.
    pub fn try_place(&mut self, pos: GridPos, kind: TileKind) -> (r: Option<NetworkId>)
        requires
            old(self).wf(),
            old(self).minted_ok(),
            old(self).fresh_id() < u64::MAX,
        ensures
            final(self).wf(),
            final(self).minted_ok(),
            old(self)@.contains_key(pos) ==> {
                &&& r is None
                &&& final(self)@ == old(self)@
                &&& final(self).fresh_id() == old(self).fresh_id()
                &&& final(self).count() == old(self).count()
            },
            !old(self)@.contains_key(pos) ==> {
                &&& r matches Some(id)
                &&& id.0 == old(self).fresh_id()
                &&& final(self)@ == old(self)@.insert(pos, (id, kind))
                &&& final(self).fresh_id() == old(self).fresh_id() + 1
                &&& final(self).count() == old(self).count() + 1
            },
    {
        let ghost s = self.entries@;
        match self.find_pos(pos) {
            Some(i) => {
                proof {
                    kv::lemma_map_of_index(s, i as int);
                }
                None
            }
            None => {
                proof {
                    kv::lemma_map_of_contains(s, pos);
                }
                let id = NetworkId(self.next_id);
                self.entries.push((pos, (id, kind)));
                self.next_id = self.next_id + 1;
                proof {
                    kv::lemma_map_of_push(s, pos, (id, kind));
                    let s2 = s.push((pos, (id, kind)));
                    assert(kv::keys_unique(s2)) by {
                        assert(forall|x: int| 0 <= x < s.len() ==> s2[x] == s[x]);
                        assert(s2[s.len() as int] == (pos, (id, kind)));
                    }
                    assert(entry_ids_unique(s2)) by {
                        assert(forall|x: int| 0 <= x < s.len() ==> s2[x] == s[x]);
                        assert(s2[s.len() as int] == (pos, (id, kind)));
                        assert(forall|x: int| 0 <= x < s.len() ==> s[x].1.0.0 < id.0);
                    }
                }
                Some(id)
            }
        }
    }

    /// Authoritative removal by identity. A miss is a no-op: a break can
    /// race a concurrent break and must not fail.
    pub fn remove(&mut self, id: NetworkId)
        requires
            old(self).wf(),
        ensures
            final(self).wf(),
            old(self).minted_ok() ==> final(self).minted_ok(),
            final(self).fresh_id() == old(self).fresh_id(),
            forall|p: GridPos|
                old(self)@.contains_key(p) && old(self)@[p].0 == id
                    ==> !final(self)@.contains_key(p),
            forall|p: GridPos|
                old(self)@.contains_key(p) && old(self)@[p].0 != id
                    ==> final(self)@.contains_key(p) && final(self)@[p] == old(self)@[p],
            forall|p: GridPos| #![trigger final(self)@.contains_key(p)]
                final(self)@.contains_key(p)
                    ==> old(self)@.contains_key(p) && final(self)@[p] == old(self)@[p],
            map_has_id(old(self)@, id) ==> final(self).count() == old(self).count() - 1,
            !map_has_id(old(self)@, id) ==> final(self).count() == old(self).count(),
    {
        let ghost s = self.entries@;
        match self.find_id(id) {
            Some(i) => {
                self.entries.remove(i);
                proof {
                    kv::lemma_map_of_index(s, i as int);
                    kv::lemma_map_of_remove(s, i as int);
                    kv::lemma_keys_unique_remove(s, i as int);
                    assert(entry_ids_unique(s.remove(i as int))) by {
                        assert(forall|x: int, y: int|
                            #![trigger s.remove(i as int)[x], s.remove(i as int)[y]]
                            0 <= x < y < s.remove(i as int).len() ==> {
                                let x0 = if x < i { x } else { x + 1 };
                                let y0 = if y < i { y } else { y + 1 };
                                s.remove(i as int)[x] == s[x0] && s.remove(i as int)[y] == s[y0]
                            });
                    }
                    assert(map_has_id(kv::map_of(s), id)) by {
                        kv::lemma_map_of_index(s, i as int);
                    }
                    assert forall|p: GridPos|
                        kv::map_of(s).contains_key(p) && kv::map_of(s)[p].0 == id
                            implies !kv::map_of(s.remove(i as int)).contains_key(p) by {
                        kv::lemma_map_of_contains(s, p);
                        let j = choose|j: int| 0 <= j < s.len() && s[j].0 == p;
                        kv::lemma_map_of_index(s, j);
                        assert(s[j].1.0 == id);
                        assert(j == i);
                    }
                    assert(old(self).minted_ok() ==> final(self).minted_ok()) by {
                        if old(self).minted_ok() {
                            assert(forall|x: int|
                                #![trigger s.remove(i as int)[x]]
                                0 <= x < s.remove(i as int).len() ==> {
                                    let x0 = if x < i { x } else { x + 1 };
                                    s.remove(i as int)[x] == s[x0]
                                });
                        }
                    }
                }
            }
            None => {
                proof {
                    assert forall|p: GridPos|
                        kv::map_of(s).contains_key(p) implies kv::map_of(s)[p].0 != id by {
                        kv::lemma_map_of_contains(s, p);
                        let j = choose|j: int| 0 <= j < s.len() && s[j].0 == p;
                        kv::lemma_map_of_index(s, j);
                    }
                }
            }
        }
    }

    /// The full world, for the initial sync of a newly joined client.
    pub fn snapshot(&self) -> (r: Vec<TileEntry>)
        requires
            self.wf(),
        ensures
            kv::map_of(r@) == self@,
            kv::keys_unique(r@),
            entry_ids_unique(r@),
            r@.len() == self.count(),
    {
        let mut r: Vec<TileEntry> = Vec::new();
        let mut i: usize = 0;
        while i < self.entries.len()
            invariant
                i <= self.entries@.len(),
                r@ == self.entries@.take(i as int),
            decreases self.entries@.len() - i,
        {
            r.push(self.entries[i]);
            proof {
                assert(r@ =~= self.entries@.take(i as int + 1));
            }
            i = i + 1;
        }
        proof {
            assert(r@ =~= self.entries@);
        }
        r
    }

    /// Replica reset from a bulk sync message. Accepts exactly the lists a
    /// correct server sends, those without a repeated cell or id, and then
    /// holds exactly the listed tiles; rejects anything else unchanged, a
    /// transport-level protocol violation.
    pub fn replace_all(&mut self, entries: Vec<TileEntry>) -> (r: bool)
        ensures
            r <==> (kv::keys_unique(entries@) && entry_ids_unique(entries@)),
            r ==> {
                &&& final(self)@ == kv::map_of(entries@)
                &&& final(self).wf()
                &&& final(self).count() == entries@.len()
                &&& final(self).fresh_id() == old(self).fresh_id()
            },
            !r ==> *final(self) == *old(self),
    {
        let n = entries.len();
        let mut i: usize = 0;
        while i < n
            invariant
                n == entries@.len(),
                i <= n,
                forall|x: int, y: int|
                    0 <= x < y < n && x < i ==> entries@[x].0 != entries@[y].0
                        && entries@[x].1.0 != entries@[y].1.0,
            decreases n - i,
        {
            let mut j: usize = i + 1;
            while j < n
                invariant
                    n == entries@.len(),
                    i < j <= n || (i + 1 == j && j > n),
                    i < n,
                    forall|y: int| i < y < j ==> entries@[i as int].0 != entries@[y].0
                        && entries@[i as int].1.0 != entries@[y].1.0,
                decreases n - j,
            {
                if entries[i].0 == entries[j].0 || entries[i].1.0 == entries[j].1.0 {
                    return false;
                }
                j = j + 1;
            }
            i = i + 1;
        }
        self.entries = entries;
        true
    }

    /// Replica patch for an authoritative spawn. Ignored when the cell or
    /// the id is already present: a retransmitted spawn must not duplicate.
    pub fn apply_spawn(&mut self, id: NetworkId, pos: GridPos, kind: TileKind)
        requires
            old(self).wf(),
        ensures
            final(self).wf(),
            final(self).fresh_id() == old(self).fresh_id(),
            (!old(self)@.contains_key(pos) && !map_has_id(old(self)@, id)) ==> {
                &&& final(self)@ == old(self)@.insert(pos, (id, kind))
                &&& final(self).count() == old(self).count() + 1
            },
            (old(self)@.contains_key(pos) || map_has_id(old(self)@, id))
                ==> *final(self) == *old(self),
    {
        let ghost s = self.entries@;
        let occupied = self.find_pos(pos);
        let known = self.find_id(id);
        match (occupied, known) {
            (None, None) => {
                proof {
                    kv::lemma_map_of_contains(s, pos);
                    assert(!map_has_id(kv::map_of(s), id)) by {
                        assert forall|p: GridPos|
                            kv::map_of(s).contains_key(p) implies kv::map_of(s)[p].0 != id by {
                            kv::lemma_map_of_contains(s, p);
                            let j = choose|j: int| 0 <= j < s.len() && s[j].0 == p;
                            kv::lemma_map_of_index(s, j);
                        }
                    }
                }
                self.entries.push((pos, (id, kind)));
                proof {
                    kv::lemma_map_of_push(s, pos, (id, kind));
                    let s2 = s.push((pos, (id, kind)));
                    assert(kv::keys_unique(s2)) by {
                        assert(forall|x: int| 0 <= x < s.len() ==> s2[x] == s[x]);
                        assert(s2[s.len() as int] == (pos, (id, kind)));
                    }
                    assert(entry_ids_unique(s2)) by {
                        assert(forall|x: int| 0 <= x < s.len() ==> s2[x] == s[x]);
                        assert(s2[s.len() as int] == (pos, (id, kind)));
                    }
                }
            }
            (Some(i), _) => {
                proof {
                    kv::lemma_map_of_index(s, i as int);
                }
            }
            (_, Some(i)) => {
                proof {
                    kv::lemma_map_of_index(s, i as int);
                    assert(map_has_id(kv::map_of(s), id));
                }
            }
        }
    }

    /// Replica patch for an authoritative break; same behaviour as `remove`.
    pub fn apply_break(&mut self, id: NetworkId)
        requires
            old(self).wf(),
        ensures
            final(self).wf(),
            final(self).fresh_id() == old(self).fresh_id(),
            forall|p: GridPos|
                old(self)@.contains_key(p) && old(self)@[p].0 == id
                    ==> !final(self)@.contains_key(p),
            forall|p: GridPos|
                old(self)@.contains_key(p) && old(self)@[p].0 != id
                    ==> final(self)@.contains_key(p) && final(self)@[p] == old(self)@[p],
            forall|p: GridPos| #![trigger final(self)@.contains_key(p)]
                final(self)@.contains_key(p)
                    ==> old(self)@.contains_key(p) && final(self)@[p] == old(self)@[p],
    {
        self.remove(id);
        proof {
            assert forall|p: GridPos| self@.contains_key(p)
                implies old(self)@.contains_key(p) && self@[p] == old(self)@[p] by {
            }
        }
    }

    /// How many tiles are live.
    pub fn len(&self) -> (r: usize)
        ensures
            r == self.count(),
    {
        self.entries.len()
    }

    /// The id the next successful placement would return.
    pub fn next_fresh(&self) -> (r: u64)
        ensures
            r == self.fresh_id(),
    {
        self.next_id
    }
}

/// The occupancy and identity invariant. Occupancy is the model itself:
/// the store's view keys tiles by cell, so under any sequence of
/// placements and removals no two concurrently live tiles can share a
/// `GridPos`. This lemma reads the rest off the map: a well-formed store
/// never holds two live tiles with one id, and on the server every live
/// id lies below the minting counter.
pub proof fn lemma_wf_invariant(t: Tiles)
    requires
        t.wf(),
    ensures
        ids_distinct(t@),
        t.minted_ok() ==> forall|p: GridPos| t@.contains_key(p) ==> t@[p].0.0 < t.fresh_id(),
{
    assert forall|p: GridPos, q: GridPos|
        t@.contains_key(p) && t@.contains_key(q) && p != q implies t@[p].0 != t@[q].0 by {
        let s = t.entries@;
        kv::lemma_map_of_contains(s, p);
        kv::lemma_map_of_contains(s, q);
        let i = choose|i: int| 0 <= i < s.len() && s[i].0 == p;
        let j = choose|j: int| 0 <= j < s.len() && s[j].0 == q;
        kv::lemma_map_of_index(s, i);
        kv::lemma_map_of_index(s, j);
    }
    if t.minted_ok() {
        assert forall|p: GridPos| t@.contains_key(p) implies t@[p].0.0 < t.fresh_id() by {
            let s = t.entries@;
            kv::lemma_map_of_contains(s, p);
            let i = choose|i: int| 0 <= i < s.len() && s[i].0 == p;
            kv::lemma_map_of_index(s, i);
        }
    }
}

/// The kind of the starting world's tile at a cell: a checkerboard.
pub open spec fn checker_kind(x: int, y: int) -> TileKind {
    if (x + y) % 2 == 0 {
        TileKind::Stone
    } else {
        TileKind::Grass
    }
}

/// The row-major index of a starting-world cell, which is also the id its
/// tile is minted with.
pub open spec fn cell_index(p: GridPos) -> int {
    5 * (p.y as int) + (p.x as int)
}

/// The starting world holds exactly the cells with row-major index below
/// `n`, each with its minted id and checkerboard kind.
pub open spec fn world_prefix(t: Tiles, n: int) -> bool {
    &&& forall|p: GridPos| #![trigger t@.contains_key(p)]
        0 <= p.x < 5 && 0 <= p.y < 5 && cell_index(p) < n ==> t@.contains_key(p) && t@[p] == (
            NetworkId(cell_index(p) as u64),
            checker_kind(p.x as int, p.y as int),
        )
    &&& forall|p: GridPos| #![trigger t@.contains_key(p)]
        t@.contains_key(p) ==> 0 <= p.x < 5 && 0 <= p.y < 5 && cell_index(p) < n
}

/// Builds the server's starting world: a 5 by 5 checkerboard whose tile in
/// column x of row y carries the id 5 * y + x.
pub fn create_world() -> (t: Tiles)
    ensures
        t.wf(),
        t.minted_ok(),
        t.fresh_id() == 25,
        t.count() == 25,
        world_prefix(t, 25),
        forall|p: GridPos| #![trigger t@.contains_key(p)]
            0 <= p.x < 5 && 0 <= p.y < 5 ==> t@.contains_key(p) && t@[p] == (
                NetworkId(cell_index(p) as u64),
                checker_kind(p.x as int, p.y as int),
            ),
        forall|p: GridPos| t@.contains_key(p) ==> 0 <= p.x < 5 && 0 <= p.y < 5,
{
    let mut t = Tiles::new();
    let mut c: u64 = 0;
    while c < 25
        invariant
            0 <= c <= 25,
            t.wf(),
            t.minted_ok(),
            t.fresh_id() == c,
            t.count() == c,
            world_prefix(t, c as int),
        decreases 25 - c,
    {
        let x = (c % 5) as i32;
        let y = (c / 5) as i32;
        let kind = if (x + y) % 2 == 0 {
            TileKind::Stone
        } else {
            TileKind::Grass
        };
        let pos = GridPos { x, y };
        let ghost pre = t;
        let r = t.try_place(pos, kind);
        proof {
            assert(cell_index(pos) == c);
            assert(!pre@.contains_key(pos));
            assert forall|p: GridPos|
                0 <= p.x < 5 && 0 <= p.y < 5 && cell_index(p) < c + 1
                    implies t@.contains_key(p) && t@[p] == (
                    NetworkId(cell_index(p) as u64),
                    checker_kind(p.x as int, p.y as int),
                ) by {
                if p.x == pos.x && p.y == pos.y {
                    assert(p == pos);
                    assert(t@.contains_key(pos));
                    assert(t@[pos].0.0 == c);
                    assert(t@[pos].0 == NetworkId(c as u64));
                    assert(t@[pos].1 == kind);
                    assert(kind == checker_kind(p.x as int, p.y as int));
                } else {
                    assert(p != pos);
                    assert(cell_index(p) != c) by {
                        if cell_index(p) == c {
                            assert(p.x == pos.x && p.y == pos.y);
                        }
                    }
                    assert(cell_index(p) < c);
                    assert(pre@.contains_key(p));
                    assert(t@[p] == pre@[p]);
                }
            }
            assert forall|p: GridPos| t@.contains_key(p)
                implies 0 <= p.x < 5 && 0 <= p.y < 5 && cell_index(p) < c + 1 by {
                if p != pos {
                    assert(pre@.contains_key(p));
                }
            }
        }
        c = c + 1;
    }
    t
}

/// `post` is `pre` after a successful placement that returned `id`.
pub open spec fn placed(pre: Tiles, post: Tiles, id: NetworkId) -> bool {
    &&& id.0 == pre.fresh_id()
    &&& post.fresh_id() == pre.fresh_id() + 1
}

/// Minted ids are distinct for the session: a placement returns the store's
/// fresh id and moves the counter past it, and no operation ever moves the
/// counter down, so an id returned later is strictly larger than any id
/// returned earlier, even one whose tile was removed in between.
pub proof fn lemma_minted_ids_distinct(
    pre1: Tiles,
    post1: Tiles,
    id1: NetworkId,
    pre2: Tiles,
    post2: Tiles,
    id2: NetworkId,
)
    requires
        placed(pre1, post1, id1),
        post1.fresh_id() <= pre2.fresh_id(),
        placed(pre2, post2, id2),
    ensures
        id2.0 > id1.0,
        id1 != id2,
{
}

} // verus!
