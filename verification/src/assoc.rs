//! Sequences of key/value entries read as finite maps.
//!
//! A table is stored as a sequence of rows and understood as the map from
//! each row's key to its value. The lemmas here relate the two readings.

use vstd::prelude::*;

verus! {

/// The map that a sequence of entries denotes: entries are inserted from left
/// to right.
pub open spec fn entries_map<K, V>(entries: Seq<(K, V)>) -> Map<K, V>
    decreases entries.len(),
{
    if entries.len() == 0 {
        Map::empty()
    } else {
        entries_map(entries.drop_last()).insert(entries.last().0, entries.last().1)
    }
}

/// No key occurs in two entries.
pub open spec fn distinct_keys<K, V>(entries: Seq<(K, V)>) -> bool {
    forall|i: int, j: int|
        0 <= i < j < entries.len() ==> (#[trigger] entries[i]).0 != (#[trigger] entries[j]).0
}

/// Some entry carries `key`.
pub open spec fn has_key<K, V>(entries: Seq<(K, V)>, key: K) -> bool {
    exists|i: int| 0 <= i < entries.len() && (#[trigger] entries[i]).0 == key
}

/// Appending an entry inserts it into the map.
pub proof fn lemma_entries_push<K, V>(entries: Seq<(K, V)>, entry: (K, V))
    ensures
        entries_map(entries.push(entry)) == entries_map(entries).insert(entry.0, entry.1),
{
    assert(entries.push(entry).drop_last() =~= entries);
}

/// The map's domain holds exactly the keys that occur among the entries.
pub proof fn lemma_entries_dom<K, V>(entries: Seq<(K, V)>, key: K)
    ensures
        entries_map(entries).dom().contains(key) <==> has_key(entries, key),
    decreases entries.len(),
{
    if entries.len() > 0 {
        let front = entries.drop_last();
        lemma_entries_dom(front, key);
        if has_key(front, key) {
            let i = choose|i: int| 0 <= i < front.len() && (#[trigger] front[i]).0 == key;
            assert(entries[i].0 == key);
        }
        if has_key(entries, key) {
            let i = choose|i: int| 0 <= i < entries.len() && (#[trigger] entries[i]).0 == key;
            if i < front.len() {
                assert(front[i].0 == key);
            }
        }
        if entries.last().0 == key {
            assert(entries[entries.len() - 1].0 == key);
        }
    }
}

/// With distinct keys the map sends each entry's key to that entry's value.
pub proof fn lemma_entries_at<K, V>(entries: Seq<(K, V)>, i: int)
    requires
        distinct_keys(entries),
        0 <= i < entries.len(),
    ensures
        entries_map(entries).dom().contains(entries[i].0),
        entries_map(entries)[entries[i].0] == entries[i].1,
    decreases entries.len(),
{
    let front = entries.drop_last();
    if i < entries.len() - 1 {
        assert(distinct_keys(front)) by {
            assert forall|a: int, b: int| 0 <= a < b < front.len() implies (#[trigger] front[a]).0
                != (#[trigger] front[b]).0 by {
                assert(entries[a].0 != entries[b].0);
            }
        }
        lemma_entries_at(front, i);
        assert(front[i] == entries[i]);
        assert(entries[i].0 != entries[entries.len() - 1].0);
    }
}

/// Replacing the value of one entry, with distinct keys, updates the map at
/// that key and nowhere else.
pub proof fn lemma_entries_update<K, V>(entries: Seq<(K, V)>, i: int, entry: (K, V))
    requires
        distinct_keys(entries),
        0 <= i < entries.len(),
        entry.0 == entries[i].0,
    ensures
        distinct_keys(entries.update(i, entry)),
        entries_map(entries.update(i, entry)) == entries_map(entries).insert(entry.0, entry.1),
    decreases entries.len(),
{
    let after = entries.update(i, entry);
    assert(distinct_keys(after)) by {
        assert forall|a: int, b: int| 0 <= a < b < after.len() implies (#[trigger] after[a]).0
            != (#[trigger] after[b]).0 by {
            assert(entries[a].0 != entries[b].0);
        }
    }
    let front = entries.drop_last();
    if i == entries.len() - 1 {
        assert(after.drop_last() =~= front);
        assert(entries_map(after) =~= entries_map(entries).insert(entry.0, entry.1));
    } else {
        assert(distinct_keys(front)) by {
            assert forall|a: int, b: int| 0 <= a < b < front.len() implies (#[trigger] front[a]).0
                != (#[trigger] front[b]).0 by {
                assert(entries[a].0 != entries[b].0);
            }
        }
        assert(front[i] == entries[i]);
        lemma_entries_update(front, i, entry);
        assert(after.drop_last() =~= front.update(i, entry));
        assert(entries[i].0 != entries[entries.len() - 1].0);
        assert(entries_map(after) =~= entries_map(entries).insert(entry.0, entry.1));
    }
}

/// Appending an entry whose key is new keeps the keys distinct.
pub proof fn lemma_distinct_push<K, V>(entries: Seq<(K, V)>, entry: (K, V))
    requires
        distinct_keys(entries),
        !has_key(entries, entry.0),
    ensures
        distinct_keys(entries.push(entry)),
{
    let after = entries.push(entry);
    assert forall|a: int, b: int| 0 <= a < b < after.len() implies (#[trigger] after[a]).0 != (
    #[trigger] after[b]).0 by {
        if b < entries.len() {
            assert(entries[a].0 != entries[b].0);
        } else {
            assert(entries[a].0 != entry.0);
        }
    }
}

} // verus!
