//! Sequences of entries with distinct keys, read as maps.

use vstd::prelude::*;

verus! {

/// No two entries of the sequence have the same key.
pub open spec fn distinct_keys<K, V>(entries: Seq<(K, V)>) -> bool {
    forall|i: int, j: int|
        0 <= i < j < entries.len() ==> (#[trigger] entries[i]).0 != (#[trigger] entries[j]).0
}

/// Some entry of the sequence has this key.
pub open spec fn has_key<K, V>(entries: Seq<(K, V)>, key: K) -> bool {
    exists|i: int| 0 <= i < entries.len() && (#[trigger] entries[i]).0 == key
}

/// The place of an entry with this key, where there is one.
pub open spec fn position<K, V>(entries: Seq<(K, V)>, key: K) -> int {
    choose|i: int| 0 <= i < entries.len() && (#[trigger] entries[i]).0 == key
}

/// The map that a sequence of key-value entries stands for.
pub open spec fn entries_map<K, V>(entries: Seq<(K, V)>) -> Map<K, V> {
    Map::new(|key: K| has_key(entries, key), |key: K| entries[position(entries, key)].1)
}

/// With distinct keys, the map holds each entry under its key.
pub proof fn lemma_entry_at<K, V>(entries: Seq<(K, V)>, i: int)
    requires
        distinct_keys(entries),
        0 <= i < entries.len(),
    ensures
        entries_map(entries).dom().contains(entries[i].0),
        entries_map(entries)[entries[i].0] == entries[i].1,
{
    let key = entries[i].0;
    assert(has_key(entries, key));
    let chosen = position(entries, key);
    assert(0 <= chosen < entries.len() && entries[chosen].0 == key);
    assert(chosen == i) by {
        if chosen < i {
            assert(entries[chosen].0 != entries[i].0);
        } else if i < chosen {
            assert(entries[i].0 != entries[chosen].0);
        }
    }
}

/// A key that no entry has is not in the map.
pub proof fn lemma_key_absent<K, V>(entries: Seq<(K, V)>, key: K)
    requires
        forall|i: int| 0 <= i < entries.len() ==> (#[trigger] entries[i]).0 != key,
    ensures
        !entries_map(entries).dom().contains(key),
{
}

/// Every key of the map is the key of some entry.
pub proof fn lemma_key_present<K, V>(entries: Seq<(K, V)>, key: K)
    requires
        entries_map(entries).dom().contains(key),
    ensures
        0 <= position(entries, key) < entries.len(),
        entries[position(entries, key)].0 == key,
        entries_map(entries)[key] == entries[position(entries, key)].1,
{
    assert(has_key(entries, key));
}

/// Appending an entry under a new key inserts it into the map.
pub proof fn lemma_push_entry<K, V>(entries: Seq<(K, V)>, key: K, value: V)
    requires
        distinct_keys(entries),
        !entries_map(entries).dom().contains(key),
    ensures
        distinct_keys(entries.push((key, value))),
        entries_map(entries.push((key, value))) == entries_map(entries).insert(key, value),
{
    let longer = entries.push((key, value));
    assert forall|i: int, j: int| 0 <= i < j < longer.len() implies (#[trigger] longer[i]).0 != (
    #[trigger] longer[j]).0 by {
        if j == entries.len() {
            assert(longer[i] == entries[i]);
            assert(has_key(entries, entries[i].0));
        } else {
            assert(longer[i] == entries[i]);
            assert(longer[j] == entries[j]);
        }
    }
    let before = entries_map(entries);
    let after = entries_map(longer);
    assert forall|k: K| after.dom().contains(k) <==> before.insert(key, value).dom().contains(
        k,
    ) by {
        if has_key(longer, k) {
            let i = position(longer, k);
            if i < entries.len() {
                assert(entries[i] == longer[i]);
                assert(has_key(entries, k));
            }
        }
        if has_key(entries, k) {
            let i = position(entries, k);
            assert(longer[i] == entries[i]);
            assert(has_key(longer, k));
        }
        if k == key {
            assert(longer[entries.len() as int].0 == key);
            assert(has_key(longer, k));
        }
    }
    assert forall|k: K| after.dom().contains(k) implies after[k] == before.insert(key, value)[k] by {
        if k == key {
            lemma_entry_at(longer, entries.len() as int);
        } else {
            assert(has_key(entries, k));
            let i = position(entries, k);
            assert(longer[i] == entries[i]);
            lemma_entry_at(longer, i);
            lemma_entry_at(entries, i);
        }
    }
    assert(after =~= before.insert(key, value));
}

/// Replacing the value of an entry replaces it in the map.
pub proof fn lemma_update_entry<K, V>(entries: Seq<(K, V)>, i: int, value: V)
    requires
        distinct_keys(entries),
        0 <= i < entries.len(),
    ensures
        distinct_keys(entries.update(i, (entries[i].0, value))),
        entries_map(entries.update(i, (entries[i].0, value))) == entries_map(entries).insert(
            entries[i].0,
            value,
        ),
{
    let key = entries[i].0;
    let changed = entries.update(i, (key, value));
    assert forall|a: int, b: int| 0 <= a < b < changed.len() implies (#[trigger] changed[a]).0 != (
    #[trigger] changed[b]).0 by {
        assert(changed[a].0 == entries[a].0);
        assert(changed[b].0 == entries[b].0);
    }
    let before = entries_map(entries);
    let after = entries_map(changed);
    assert forall|k: K| after.dom().contains(k) <==> before.insert(key, value).dom().contains(
        k,
    ) by {
        if has_key(changed, k) {
            let a = position(changed, k);
            assert(entries[a].0 == changed[a].0);
            assert(has_key(entries, k));
        }
        if has_key(entries, k) {
            let a = position(entries, k);
            assert(changed[a].0 == entries[a].0);
            assert(has_key(changed, k));
        }
        if k == key {
            assert(changed[i].0 == key);
            assert(has_key(changed, k));
        }
    }
    assert forall|k: K| after.dom().contains(k) implies after[k] == before.insert(key, value)[k] by {
        if k == key {
            lemma_entry_at(changed, i);
        } else {
            assert(has_key(entries, k));
            let a = position(entries, k);
            assert(a != i);
            assert(changed[a] == entries[a]);
            lemma_entry_at(changed, a);
            lemma_entry_at(entries, a);
        }
    }
    assert(after =~= before.insert(key, value));
}

} // verus!
