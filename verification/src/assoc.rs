//! Association lists read as maps.
//!
//! A sequence of key–value pairs stands for the map in which a later pair
//! for the same key overrides an earlier one. The registries of this crate
//! keep their pairs key-unique and state their contracts over [`map_of`];
//! the lemmas here connect scanning, in-place overwriting, appending and
//! filtering of the list to the corresponding operations on the map.

use vstd::prelude::*;

verus! {

/// The map a pair sequence stands for; a later pair for the same key
/// overrides an earlier one.
pub open spec fn map_of<K, V>(entries: Seq<(K, V)>) -> Map<K, V>
    decreases entries.len(),
{
    if entries.len() == 0 {
        Map::empty()
    } else {
        map_of(entries.drop_last()).insert(entries.last().0, entries.last().1)
    }
}

/// No two pairs carry the same key.
pub open spec fn unique_keys<K, V>(entries: Seq<(K, V)>) -> bool {
    forall|i: int, j: int| 0 <= i < j < entries.len() ==> entries[i].0 != entries[j].0
}

/// A key is in the map exactly when some pair carries it.
pub proof fn lemma_map_of_contains<K, V>(entries: Seq<(K, V)>, key: K)
    ensures
        map_of(entries).contains_key(key) <==> exists|i: int|
            0 <= i < entries.len() && entries[i].0 == key,
    decreases entries.len(),
{
    if entries.len() > 0 {
        lemma_map_of_contains(entries.drop_last(), key);
        if entries.last().0 == key {
            assert(entries[entries.len() - 1].0 == key);
        } else if map_of(entries).contains_key(key) {
            let i = choose|i: int|
                0 <= i < entries.drop_last().len() && entries.drop_last()[i].0 == key;
            assert(entries[i].0 == key);
        } else if exists|i: int| 0 <= i < entries.len() && entries[i].0 == key {
            let i = choose|i: int| 0 <= i < entries.len() && entries[i].0 == key;
            assert(entries.drop_last()[i].0 == key);
        }
    }
}

/// With unique keys, the pair carrying a key gives its value in the map.
pub proof fn lemma_map_of_lookup<K, V>(entries: Seq<(K, V)>, i: int)
    requires
        unique_keys(entries),
        0 <= i < entries.len(),
    ensures
        map_of(entries).contains_key(entries[i].0),
        map_of(entries)[entries[i].0] == entries[i].1,
    decreases entries.len(),
{
    if i == entries.len() - 1 {
    } else {
        assert(entries.drop_last()[i] == entries[i]);
        lemma_map_of_lookup(entries.drop_last(), i);
        assert(entries.last().0 != entries[i].0);
    }
}

/// Overwriting the pair that carries a key updates the map at that key.
pub proof fn lemma_map_of_update<K, V>(entries: Seq<(K, V)>, i: int, v: (K, V))
    requires
        unique_keys(entries),
        0 <= i < entries.len(),
        v.0 == entries[i].0,
    ensures
        map_of(entries.update(i, v)) == map_of(entries).insert(v.0, v.1),
    decreases entries.len(),
{
    let updated = entries.update(i, v);
    if i == entries.len() - 1 {
        assert(updated.drop_last() =~= entries.drop_last());
        assert(map_of(updated) =~= map_of(entries).insert(v.0, v.1));
    } else {
        assert(updated.drop_last() =~= entries.drop_last().update(i, v));
        assert(entries.drop_last()[i] == entries[i]);
        lemma_map_of_update(entries.drop_last(), i, v);
        assert(updated.last() == entries.last());
        assert(entries.last().0 != v.0);
        assert(map_of(updated) =~= map_of(entries).insert(v.0, v.1));
    }
}

/// The pairs whose values satisfy `pred`, in their original order.
pub open spec fn keep<K, V>(entries: Seq<(K, V)>, pred: spec_fn(V) -> bool) -> Seq<(K, V)>
    decreases entries.len(),
{
    if entries.len() == 0 {
        Seq::empty()
    } else if pred(entries.last().1) {
        keep(entries.drop_last(), pred).push(entries.last())
    } else {
        keep(entries.drop_last(), pred)
    }
}

/// Every key of the kept pairs is a key of the original pairs.
pub proof fn lemma_keep_keys<K, V>(entries: Seq<(K, V)>, pred: spec_fn(V) -> bool)
    ensures
        forall|k: int|
            0 <= k < keep(entries, pred).len() ==> exists|i: int|
                0 <= i < entries.len() && entries[i].0 == #[trigger] keep(entries, pred)[k].0,
    decreases entries.len(),
{
    if entries.len() > 0 {
        lemma_keep_keys(entries.drop_last(), pred);
        let kept = keep(entries, pred);
        let kd = keep(entries.drop_last(), pred);
        assert forall|k: int| 0 <= k < kept.len() implies exists|i: int|
            0 <= i < entries.len() && entries[i].0 == #[trigger] kept[k].0 by {
            if k < kd.len() {
                assert(kd[k] == kept[k]);
                let i = choose|i: int|
                    0 <= i < entries.drop_last().len() && entries.drop_last()[i].0 == kd[k].0;
                assert(entries[i].0 == kept[k].0);
            } else {
                assert(kept[k] == entries.last());
                assert(entries[entries.len() - 1].0 == kept[k].0);
            }
        }
    }
}

/// Filtering a key-unique pair list restricts its map to the keys whose
/// values satisfy `pred`, and keeps it key-unique.
pub proof fn lemma_keep_map<K, V>(entries: Seq<(K, V)>, pred: spec_fn(V) -> bool)
    requires
        unique_keys(entries),
    ensures
        unique_keys(keep(entries, pred)),
        map_of(keep(entries, pred)) == Map::new(
            |k: K| map_of(entries).contains_key(k) && pred(map_of(entries)[k]),
            |k: K| map_of(entries)[k],
        ),
    decreases entries.len(),
{
    let restricted = Map::new(
        |k: K| map_of(entries).contains_key(k) && pred(map_of(entries)[k]),
        |k: K| map_of(entries)[k],
    );
    if entries.len() == 0 {
        assert(map_of(keep(entries, pred)) =~= restricted);
    } else {
        let d = entries.drop_last();
        let l = entries.last();
        assert(unique_keys(d)) by {
            assert(forall|i: int, j: int|
                0 <= i < j < d.len() ==> d[i] == entries[i] && d[j] == entries[j]);
        }
        lemma_keep_map(d, pred);
        lemma_keep_keys(d, pred);
        lemma_map_of_contains(d, l.0);
        assert(forall|i: int| 0 <= i < d.len() ==> d[i] == entries[i]);
        assert(forall|i: int| 0 <= i < d.len() ==> entries[i].0 != l.0);
        assert(!map_of(d).contains_key(l.0));
        if pred(l.1) {
            assert(keep(entries, pred) == keep(d, pred).push(l));
            assert(unique_keys(keep(d, pred).push(l))) by {
                let kp = keep(d, pred).push(l);
                assert forall|i: int, j: int| 0 <= i < j < kp.len() implies kp[i].0 != kp[j].0 by {
                    if j < kp.len() - 1 {
                        assert(keep(d, pred)[i].0 != keep(d, pred)[j].0);
                    } else {
                        assert(kp[i] == keep(d, pred)[i]);
                        let w = choose|w: int| 0 <= w < d.len() && d[w].0 == keep(d, pred)[i].0;
                        assert(entries[w].0 != l.0);
                    }
                }
            }
            assert(keep(d, pred).push(l).drop_last() =~= keep(d, pred));
            assert(keep(d, pred).push(l).last() == l);
            assert(map_of(keep(entries, pred)) == map_of(keep(d, pred)).insert(l.0, l.1));
            assert(map_of(keep(entries, pred)) =~= restricted);
        } else {
            assert(keep(entries, pred) == keep(d, pred));
            assert(map_of(keep(entries, pred)) =~= restricted);
        }
    }
}

} // verus!
