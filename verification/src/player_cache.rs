//! The squad tracker keeps its member cache as a vector of
//! `(account name, cached info)` pairs with pairwise-distinct keys, and its
//! contracts speak of the finite map that the vector describes. This module
//! defines that map and proves how it evolves under the vector operations
//! the tracker performs: push, remove-at-index and clear.

use vstd::prelude::*;

verus! {

/// The finite map described by an association list; a later entry for the
/// same key wins (with `unique_keys` there is at most one).
pub open spec fn kv_map<V>(entries: Seq<(String, V)>) -> Map<Seq<char>, V>
    decreases entries.len(),
{
    if entries.len() == 0 {
        Map::empty()
    } else {
        kv_map(entries.drop_last()).insert(entries.last().0@, entries.last().1)
    }
}

/// No two entries of the list share a key.
pub open spec fn unique_keys<V>(entries: Seq<(String, V)>) -> bool {
    forall|i: int, j: int|
        #![trigger entries[i], entries[j]]
        0 <= i < j < entries.len() ==> entries[i].0@ != entries[j].0@
}

/// Dropping the last entry keeps the keys pairwise distinct.
pub proof fn lemma_unique_keys_drop_last<V>(entries: Seq<(String, V)>)
    requires
        unique_keys(entries),
        entries.len() > 0,
    ensures
        unique_keys(entries.drop_last()),
{
    assert forall|i: int, j: int|
        #![trigger entries.drop_last()[i], entries.drop_last()[j]]
        0 <= i < j < entries.drop_last().len() implies entries.drop_last()[i].0@
        != entries.drop_last()[j].0@ by {
        assert(entries.drop_last()[i] == entries[i]);
        assert(entries.drop_last()[j] == entries[j]);
    }
}

/// Each entry of a list with distinct keys is in the map, with its value.
pub proof fn lemma_kv_map_index<V>(entries: Seq<(String, V)>, i: int)
    requires
        unique_keys(entries),
        0 <= i < entries.len(),
    ensures
        kv_map(entries).contains_key(entries[i].0@),
        kv_map(entries)[entries[i].0@] == entries[i].1,
    decreases entries.len(),
{
    if i < entries.len() - 1 {
        lemma_unique_keys_drop_last(entries);
        lemma_kv_map_index(entries.drop_last(), i);
        assert(entries.drop_last()[i] == entries[i]);
        assert(entries[i].0@ != entries.last().0@);
    }
}

/// Every key of the map comes from some entry of the list.
pub proof fn lemma_kv_map_contains<V>(entries: Seq<(String, V)>, key: Seq<char>)
    requires
        kv_map(entries).contains_key(key),
    ensures
        exists|i: int| 0 <= i < entries.len() && (#[trigger] entries[i]).0@ == key,
    decreases entries.len(),
{
    if entries.len() > 0 {
        if entries.last().0@ == key {
            assert(entries[entries.len() - 1].0@ == key);
        } else {
            lemma_kv_map_contains(entries.drop_last(), key);
            let i = choose|i: int|
                0 <= i < entries.drop_last().len() && (#[trigger] entries.drop_last()[i]).0@ == key;
            assert(entries[i].0@ == key);
        }
    }
}

/// A key that no entry carries is not in the map.
pub proof fn lemma_kv_map_absent<V>(entries: Seq<(String, V)>, key: Seq<char>)
    requires
        forall|i: int| 0 <= i < entries.len() ==> (#[trigger] entries[i]).0@ != key,
    ensures
        !kv_map(entries).contains_key(key),
{
    if kv_map(entries).contains_key(key) {
        lemma_kv_map_contains(entries, key);
    }
}

/// Appending an entry inserts its key into the map.
pub proof fn lemma_kv_map_push<V>(entries: Seq<(String, V)>, name: String, value: V)
    ensures
        kv_map(entries.push((name, value))) == kv_map(entries).insert(name@, value),
{
    assert(entries.push((name, value)).drop_last() =~= entries);
    assert(entries.push((name, value)).last() == (name, value));
}

/// Appending an entry whose key is fresh keeps the keys pairwise distinct.
pub proof fn lemma_unique_keys_push<V>(entries: Seq<(String, V)>, name: String, value: V)
    requires
        unique_keys(entries),
        forall|i: int| 0 <= i < entries.len() ==> (#[trigger] entries[i]).0@ != name@,
    ensures
        unique_keys(entries.push((name, value))),
{
    let pushed = entries.push((name, value));
    assert forall|i: int, j: int|
        #![trigger pushed[i], pushed[j]]
        0 <= i < j < pushed.len() implies pushed[i].0@ != pushed[j].0@ by {
        if j < entries.len() {
            assert(pushed[i] == entries[i]);
            assert(pushed[j] == entries[j]);
        } else {
            assert(pushed[i] == entries[i]);
            assert(pushed[j] == (name, value));
        }
    }
}

/// Removing the entry at an index removes exactly its key from the map.
pub proof fn lemma_kv_map_remove<V>(entries: Seq<(String, V)>, i: int)
    requires
        unique_keys(entries),
        0 <= i < entries.len(),
    ensures
        kv_map(entries.remove(i)) =~= kv_map(entries).remove(entries[i].0@),
        unique_keys(entries.remove(i)),
    decreases entries.len(),
{
    let removed = entries.remove(i);
    entries.remove_ensures(i);
    assert forall|p: int, q: int|
        #![trigger removed[p], removed[q]]
        0 <= p < q < removed.len() implies removed[p].0@ != removed[q].0@ by {
        let p_src: int = if p < i { p } else { p + 1 };
        let q_src: int = if q < i { q } else { q + 1 };
        assert(removed[p] == entries[p_src]);
        assert(removed[q] == entries[q_src]);
    }
    if i == entries.len() - 1 {
        assert(removed =~= entries.drop_last());
        lemma_unique_keys_drop_last(entries);
        assert forall|j: int| 0 <= j < entries.drop_last().len() implies (#[trigger] entries
            .drop_last()[j]).0@ != entries.last().0@ by {
            assert(entries.drop_last()[j] == entries[j]);
        }
        lemma_kv_map_absent(entries.drop_last(), entries.last().0@);
        assert(kv_map(entries) == kv_map(entries.drop_last()).insert(
            entries.last().0@,
            entries.last().1,
        ));
        assert(kv_map(removed) =~= kv_map(entries).remove(entries[i].0@));
    } else {
        lemma_unique_keys_drop_last(entries);
        lemma_kv_map_remove(entries.drop_last(), i);
        assert(entries.drop_last()[i] == entries[i]);
        assert(removed.len() > 0);
        assert(removed.last() == entries.last());
        assert forall|j: int| 0 <= j < removed.len() - 1 implies removed.drop_last()[j]
            == entries.drop_last().remove(i)[j] by {
        entries.drop_last().remove_ensures(i);
            if j < i {
                assert(removed[j] == entries[j]);
                assert(entries.drop_last().remove(i)[j] == entries.drop_last()[j]);
            } else {
                assert(removed[j] == entries[j + 1]);
                assert(entries.drop_last().remove(i)[j] == entries.drop_last()[j + 1]);
            }
        }
        assert(removed.drop_last() =~= entries.drop_last().remove(i));
        assert(kv_map(removed) == kv_map(removed.drop_last()).insert(
            removed.last().0@,
            removed.last().1,
        ));
        assert(entries[i].0@ != entries.last().0@);
        assert(kv_map(removed) =~= kv_map(entries).remove(entries[i].0@));
    }
}

} // verus!
