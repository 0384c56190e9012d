//! Association lists with unique keys, and the finite map each one stands
//! for. The world state store, the identity translator and the lobbies all
//! keep their entries in such a list and state their contracts over the map.
use vstd::prelude::*;

verus! {

/// The map an entry list stands for; a later entry overrides an earlier one
/// with the same key, which `keys_unique` rules out.
pub open spec fn map_of<K, V>(s: Seq<(K, V)>) -> Map<K, V>
    decreases s.len(),
{
    if s.len() == 0 {
        Map::empty()
    } else {
        map_of(s.drop_last()).insert(s.last().0, s.last().1)
    }
}

/// No two entries share a key.
pub open spec fn keys_unique<K, V>(s: Seq<(K, V)>) -> bool {
    forall|i: int, j: int| 0 <= i < j < s.len() ==> s[i].0 != s[j].0
}

/// A key is in the map exactly when some entry holds it.
pub proof fn lemma_map_of_contains<K, V>(s: Seq<(K, V)>, k: K)
    ensures
        map_of(s).contains_key(k) <==> exists|i: int| 0 <= i < s.len() && s[i].0 == k,
    decreases s.len(),
{
    if s.len() > 0 {
        lemma_map_of_contains(s.drop_last(), k);
        if s.last().0 == k {
            assert(s[s.len() - 1].0 == k);
        } else {
            if map_of(s).contains_key(k) {
                let i = choose|i: int| 0 <= i < s.drop_last().len() && s.drop_last()[i].0 == k;
                assert(s[i].0 == k);
            }
            if exists|i: int| 0 <= i < s.len() && s[i].0 == k {
                let i = choose|i: int| 0 <= i < s.len() && s[i].0 == k;
                assert(s.drop_last()[i].0 == k);
            }
        }
    }
}

/// Under unique keys, each entry gives its key's value in the map.
pub proof fn lemma_map_of_index<K, V>(s: Seq<(K, V)>, i: int)
    requires
        keys_unique(s),
        0 <= i < s.len(),
    ensures
        map_of(s).contains_key(s[i].0),
        map_of(s)[s[i].0] == s[i].1,
    decreases s.len(),
{
    if i == s.len() - 1 {
    } else {
        assert(keys_unique(s.drop_last())) by {
            assert(forall|x: int, y: int|
                0 <= x < y < s.drop_last().len() ==> s.drop_last()[x].0 == s[x].0
                    && s.drop_last()[y].0 == s[y].0);
        }
        lemma_map_of_index(s.drop_last(), i);
        assert(s.drop_last()[i] == s[i]);
        assert(s.last().0 != s[i].0);
    }
}

/// Appending an entry inserts its key.
pub proof fn lemma_map_of_push<K, V>(s: Seq<(K, V)>, k: K, v: V)
    ensures
        map_of(s.push((k, v))) == map_of(s).insert(k, v),
{
    assert(s.push((k, v)).drop_last() =~= s);
    assert(s.push((k, v)).last() == (k, v));
}

/// Overwriting the entry that holds a key overwrites that key's value.
pub proof fn lemma_map_of_update<K, V>(s: Seq<(K, V)>, i: int, v: V)
    requires
        keys_unique(s),
        0 <= i < s.len(),
    ensures
        map_of(s.update(i, (s[i].0, v))) =~= map_of(s).insert(s[i].0, v),
    decreases s.len(),
{
    let k = s[i].0;
    let t = s.update(i, (k, v));
    if i == s.len() - 1 {
        assert(t.drop_last() =~= s.drop_last());
        assert(t.last() == (k, v));
        assert(map_of(s.drop_last()).insert(k, s[i].1).insert(k, v)
            =~= map_of(s.drop_last()).insert(k, v));
    } else {
        assert(keys_unique(s.drop_last())) by {
            assert(forall|x: int, y: int|
                0 <= x < y < s.drop_last().len() ==> s.drop_last()[x].0 == s[x].0
                    && s.drop_last()[y].0 == s[y].0);
        }
        lemma_map_of_update(s.drop_last(), i, v);
        assert(t.drop_last() =~= s.drop_last().update(i, (k, v)));
        assert(t.last() == s.last());
        assert(s.last().0 != k);
        assert(map_of(s.drop_last()).insert(k, v).insert(s.last().0, s.last().1)
            =~= map_of(s.drop_last()).insert(s.last().0, s.last().1).insert(k, v));
    }
}

/// Taking an entry out takes its key out of the map.
pub proof fn lemma_map_of_remove<K, V>(s: Seq<(K, V)>, i: int)
    requires
        keys_unique(s),
        0 <= i < s.len(),
    ensures
        map_of(s.remove(i)) =~= map_of(s).remove(s[i].0),
    decreases s.len(),
{
    let k = s[i].0;
    assert(keys_unique(s.drop_last())) by {
        assert(forall|x: int, y: int|
            0 <= x < y < s.drop_last().len() ==> s.drop_last()[x].0 == s[x].0
                && s.drop_last()[y].0 == s[y].0);
    }
    if i == s.len() - 1 {
        assert(s.remove(i) =~= s.drop_last());
        lemma_map_of_contains(s.drop_last(), k);
        assert(forall|j: int| 0 <= j < s.drop_last().len() ==> s.drop_last()[j].0 != k);
        assert(map_of(s.drop_last()).insert(k, s[i].1).remove(k) =~= map_of(s.drop_last()));
    } else {
        lemma_map_of_remove(s.drop_last(), i);
        assert(s.remove(i).drop_last() =~= s.drop_last().remove(i));
        assert(s.remove(i).last() == s.last());
        assert(s.last().0 != k);
        assert(map_of(s.drop_last()).remove(k).insert(s.last().0, s.last().1)
            =~= map_of(s.drop_last()).insert(s.last().0, s.last().1).remove(k));
    }
}

/// Appending an entry with a fresh key keeps the keys unique.
pub proof fn lemma_keys_unique_push<K, V>(s: Seq<(K, V)>, k: K, v: V)
    requires
        keys_unique(s),
        forall|j: int| 0 <= j < s.len() ==> s[j].0 != k,
    ensures
        keys_unique(s.push((k, v))),
{
    let s2 = s.push((k, v));
    assert(forall|x: int| 0 <= x < s.len() ==> s2[x] == s[x]);
    assert(s2[s.len() as int] == (k, v));
}

/// Overwriting an entry's value keeps the keys unique.
pub proof fn lemma_keys_unique_update<K, V>(s: Seq<(K, V)>, i: int, v: V)
    requires
        keys_unique(s),
        0 <= i < s.len(),
    ensures
        keys_unique(s.update(i, (s[i].0, v))),
{
    let s2 = s.update(i, (s[i].0, v));
    assert(forall|x: int| 0 <= x < s.len() && x != i ==> s2[x] == s[x]);
    assert(s2[i] == (s[i].0, v));
}

/// Removing an entry keeps the remaining keys unique.
pub proof fn lemma_keys_unique_remove<K, V>(s: Seq<(K, V)>, i: int)
    requires
        keys_unique(s),
        0 <= i < s.len(),
    ensures
        keys_unique(s.remove(i)),
{
    assert(forall|x: int, y: int|
        #![trigger s.remove(i)[x], s.remove(i)[y]]
        0 <= x < y < s.remove(i).len() ==> {
            let x0 = if x < i { x } else { x + 1 };
            let y0 = if y < i { y } else { y + 1 };
            s.remove(i)[x] == s[x0] && s.remove(i)[y] == s[y0]
        });
}

} // verus!
