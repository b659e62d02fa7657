//! Finite maps kept as lists of key / value entries with distinct keys.

use vstd::prelude::*;

verus! {

/// No key occurs twice among the entries.
pub open spec fn keys_distinct<K, V>(entries: Seq<(K, V)>) -> bool {
    forall|i: int, j: int| 0 <= i < j < entries.len() ==> entries[i].0 != entries[j].0
}

/// The map that the entries describe (a later entry for a key wins).
pub open spec fn entry_map<K, V>(entries: Seq<(K, V)>) -> Map<K, V>
    decreases entries.len(),
{
    if entries.len() == 0 {
        Map::empty()
    } else {
        entry_map(entries.drop_last()).insert(entries.last().0, entries.last().1)
    }
}

/// With distinct keys, each entry is what the map holds for its key, and
/// the map holds exactly the entries' keys.
pub proof fn lemma_entry_map_lookup<K, V>(entries: Seq<(K, V)>)
    requires
        keys_distinct(entries),
    ensures
        forall|i: int|
            0 <= i < entries.len() ==> #[trigger] entry_map(entries).contains_key(entries[i].0)
                && entry_map(entries)[entries[i].0] == entries[i].1,
        forall|k: K|
            #[trigger] entry_map(entries).contains_key(k) ==> exists|i: int|
                0 <= i < entries.len() && entries[i].0 == k,
    decreases entries.len(),
{
    if entries.len() > 0 {
        let prefix = entries.drop_last();
        assert(keys_distinct(prefix));
        lemma_entry_map_lookup(prefix);
        let m = entry_map(entries);
        assert(m == entry_map(prefix).insert(entries.last().0, entries.last().1));
        assert forall|i: int| 0 <= i < entries.len() implies #[trigger] m.contains_key(
            entries[i].0,
        ) && m[entries[i].0] == entries[i].1 by {
            if i < entries.len() - 1 {
                assert(prefix[i] == entries[i]);
                assert(entries[i].0 != entries[entries.len() - 1].0);
                assert(entry_map(prefix).contains_key(prefix[i].0));
            }
        }
        assert forall|k: K| #[trigger] m.contains_key(k) implies exists|i: int|
            0 <= i < entries.len() && entries[i].0 == k by {
            if k == entries.last().0 {
                assert(entries[entries.len() - 1].0 == k);
            } else {
                assert(entry_map(prefix).contains_key(k));
                let i = choose|i: int| 0 <= i < prefix.len() && prefix[i].0 == k;
                assert(entries[i].0 == k);
            }
        }
    }
}

/// Appending an entry with a new key inserts it into the map and keeps the
/// keys distinct.
pub proof fn lemma_entry_map_push<K, V>(entries: Seq<(K, V)>, key: K, value: V)
    requires
        keys_distinct(entries),
        !entry_map(entries).contains_key(key),
    ensures
        keys_distinct(entries.push((key, value))),
        entry_map(entries.push((key, value))) == entry_map(entries).insert(key, value),
{
    lemma_entry_map_lookup(entries);
    let s = entries.push((key, value));
    assert(s.drop_last() =~= entries);
    assert forall|i: int, j: int| 0 <= i < j < s.len() implies s[i].0 != s[j].0 by {
        if j == s.len() - 1 {
            assert(entry_map(entries).contains_key(entries[i].0));
        } else {
            assert(s[i] == entries[i] && s[j] == entries[j]);
        }
    }
}

/// Replacing the value of an entry updates the map at that entry's key and
/// keeps the keys distinct.
pub proof fn lemma_entry_map_update<K, V>(entries: Seq<(K, V)>, p: int, value: V)
    requires
        keys_distinct(entries),
        0 <= p < entries.len(),
    ensures
        keys_distinct(entries.update(p, (entries[p].0, value))),
        entry_map(entries.update(p, (entries[p].0, value))) == entry_map(entries).insert(entries[p].0, value),
{
    let s = entries.update(p, (entries[p].0, value));
    assert forall|i: int, j: int| 0 <= i < j < s.len() implies s[i].0 != s[j].0 by {
        assert(s[i].0 == entries[i].0 && s[j].0 == entries[j].0);
    }
    lemma_entry_map_lookup(entries);
    lemma_entry_map_lookup(s);
    let m = entry_map(entries).insert(entries[p].0, value);
    assert forall|k: K| #[trigger] entry_map(s).contains_key(k) <==> m.contains_key(k) by {
        if entry_map(s).contains_key(k) {
            let i = choose|i: int| 0 <= i < s.len() && s[i].0 == k;
            assert(entry_map(entries).contains_key(entries[i].0));
        }
        if m.contains_key(k) && k != entries[p].0 {
            let i = choose|i: int| 0 <= i < entries.len() && entries[i].0 == k;
            assert(entry_map(s).contains_key(s[i].0));
        }
        if k == entries[p].0 {
            assert(entry_map(s).contains_key(s[p].0));
        }
    }
    assert forall|k: K| #[trigger] entry_map(s).contains_key(k) implies entry_map(s)[k] == m[k] by {
        let i = choose|i: int| 0 <= i < s.len() && s[i].0 == k;
        if i != p {
            assert(entry_map(entries).contains_key(entries[i].0));
        }
    }
    assert(entry_map(s) =~= m);
}

/// With distinct keys the map has one key per entry.
pub proof fn lemma_entry_map_len<K, V>(entries: Seq<(K, V)>)
    requires
        keys_distinct(entries),
    ensures
        entry_map(entries).dom().finite(),
        entry_map(entries).dom().len() == entries.len(),
    decreases entries.len(),
{
    if entries.len() > 0 {
        let prefix = entries.drop_last();
        assert(keys_distinct(prefix));
        lemma_entry_map_len(prefix);
        lemma_entry_map_lookup(prefix);
        if entry_map(prefix).contains_key(entries.last().0) {
            let i = choose|i: int| 0 <= i < prefix.len() && prefix[i].0 == entries.last().0;
            assert(entries[i].0 == entries[entries.len() - 1].0);
        }
    }
}

} // verus!
