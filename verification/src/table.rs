use vstd::prelude::*;

verus! {

/// The mapping that a sequence of keyed entries represents; an earlier entry
/// wins over a later one with the same key.
pub open spec fn assoc_map<V>(entries: Seq<(String, V)>) -> Map<Seq<char>, V>
    decreases entries.len(),
{
    if entries.len() == 0 {
        Map::empty()
    } else {
        assoc_map(entries.drop_first()).insert(entries[0].0@, entries[0].1)
    }
}

/// Entry keys are pairwise distinct.
pub open spec fn distinct_keys<V>(entries: Seq<(String, V)>) -> bool {
    forall|i: int, j: int| 0 <= i < j < entries.len() ==> entries[i].0@ != entries[j].0@
}

/// Relates the positional search to the map: a key is in the map exactly when
/// some entry carries it, and under distinct keys that entry holds the map's
/// value.
pub proof fn lemma_assoc_position<V>(entries: Seq<(String, V)>, name: Seq<char>)
    requires
        distinct_keys(entries),
    ensures
        assoc_map(entries).contains_key(name) <==> exists|i: int|
            0 <= i < entries.len() && entries[i].0@ == name,
        forall|i: int|
            0 <= i < entries.len() && entries[i].0@ == name ==> assoc_map(entries)[name]
                == entries[i].1,
    decreases entries.len(),
{
    if entries.len() > 0 {
        let rest = entries.drop_first();
        lemma_assoc_position(rest, name);
        assert forall|i: int|
            0 <= i < entries.len() && entries[i].0@ == name implies assoc_map(entries)[name]
            == entries[i].1 by {
            if i > 0 {
                assert(rest[i - 1] == entries[i]);
                assert(entries[0].0@ != entries[i].0@);
            }
        }
        if assoc_map(entries).contains_key(name) && entries[0].0@ != name {
            assert(assoc_map(rest).contains_key(name));
            let w = choose|i: int| 0 <= i < rest.len() && rest[i].0@ == name;
            assert(entries[w + 1].0@ == name);
        }
        if exists|i: int| 0 <= i < entries.len() && entries[i].0@ == name {
            let i = choose|i: int| 0 <= i < entries.len() && entries[i].0@ == name;
            if i > 0 {
                assert(rest[i - 1].0@ == name);
            }
        }
    }
}

/// Replacing the entry that holds a key updates the map at that key alone.
pub proof fn lemma_assoc_update<V>(entries: Seq<(String, V)>, i: int, pair: (String, V))
    requires
        distinct_keys(entries),
        0 <= i < entries.len(),
        entries[i].0@ == pair.0@,
    ensures
        assoc_map(entries.update(i, pair)) == assoc_map(entries).insert(pair.0@, pair.1),
    decreases entries.len(),
{
    let updated = entries.update(i, pair);
    if i == 0 {
        assert(updated.drop_first() =~= entries.drop_first());
        assert(assoc_map(updated) =~= assoc_map(entries).insert(pair.0@, pair.1));
    } else {
        assert(updated.drop_first() =~= entries.drop_first().update(i - 1, pair));
        lemma_assoc_update(entries.drop_first(), i - 1, pair);
        assert(entries[0].0@ != pair.0@);
        assert(assoc_map(updated) =~= assoc_map(entries).insert(pair.0@, pair.1));
    }
}

/// Appending an entry with a fresh key inserts that key into the map.
pub proof fn lemma_assoc_push<V>(entries: Seq<(String, V)>, pair: (String, V))
    requires
        forall|i: int| 0 <= i < entries.len() ==> entries[i].0@ != pair.0@,
    ensures
        assoc_map(entries.push(pair)) == assoc_map(entries).insert(pair.0@, pair.1),
    decreases entries.len(),
{
    let pushed = entries.push(pair);
    if entries.len() == 0 {
        assert(pushed[0] == pair);
        assert(pushed.drop_first() =~= entries);
        assert(assoc_map(pushed) == assoc_map(entries).insert(pair.0@, pair.1));
    } else {
        let h = entries[0];
        let dropped = entries.drop_first();
        assert(pushed[0] == h);
        assert(pushed.drop_first() =~= dropped.push(pair));
        lemma_assoc_push(dropped, pair);
        assert(assoc_map(pushed) == assoc_map(dropped).insert(pair.0@, pair.1).insert(h.0@, h.1));
        assert(assoc_map(dropped).insert(pair.0@, pair.1).insert(h.0@, h.1) =~= assoc_map(
            dropped,
        ).insert(h.0@, h.1).insert(pair.0@, pair.1)) by {
            assert(h.0@ != pair.0@);
        }
        assert(assoc_map(entries) == assoc_map(dropped).insert(h.0@, h.1));
    }
}

/// Any key the map holds is carried by some entry.
pub proof fn lemma_assoc_key_has_entry<V>(entries: Seq<(String, V)>, name: Seq<char>)
    requires
        assoc_map(entries).contains_key(name),
    ensures
        exists|i: int| 0 <= i < entries.len() && entries[i].0@ == name,
    decreases entries.len(),
{
    if entries.len() > 0 && entries[0].0@ != name {
        lemma_assoc_key_has_entry(entries.drop_first(), name);
        let w = choose|i: int|
            0 <= i < entries.drop_first().len() && entries.drop_first()[i].0@ == name;
        assert(entries[w + 1].0@ == name);
    }
}

} // verus!
