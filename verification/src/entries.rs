//! Lists of entries, and the maps that they stand for.
use vstd::prelude::*;

verus! {

/// The map that a list of entries stands for: later entries replace earlier ones.
pub open spec fn entries_map<V>(entries: Seq<(Seq<char>, V)>) -> Map<Seq<char>, V>
    decreases entries.len(),
{
    if entries.len() == 0 {
        Map::empty()
    } else {
        entries_map(entries.drop_last()).insert(entries.last().0, entries.last().1)
    }
}

/// An entry that no later entry replaces is what its key maps to.
pub proof fn lemma_entries_map_get<V>(entries: Seq<(Seq<char>, V)>, at: int)
    requires
        0 <= at < entries.len(),
        forall|j: int| at < j < entries.len() ==> (#[trigger] entries[j]).0 != entries[at].0,
    ensures
        entries_map(entries).contains_key(entries[at].0),
        entries_map(entries)[entries[at].0] == entries[at].1,
    decreases entries.len(),
{
    if at < entries.len() - 1 {
        let front = entries.drop_last();
        assert(entries[entries.len() - 1].0 != entries[at].0);
        assert(front[at] == entries[at]);
        assert forall|j: int| at < j < front.len() implies (#[trigger] front[j]).0
            != front[at].0 by {
            assert(front[j] == entries[j]);
        }
        lemma_entries_map_get(front, at);
    }
}

/// The map holds the keys that the entries list, and no others.
pub proof fn lemma_entries_map_contains<V>(entries: Seq<(Seq<char>, V)>, key: Seq<char>)
    ensures
        entries_map(entries).contains_key(key) <==> exists|i: int|
            0 <= i < entries.len() && (#[trigger] entries[i]).0 == key,
    decreases entries.len(),
{
    if entries.len() > 0 {
        let front = entries.drop_last();
        lemma_entries_map_contains(front, key);
        if entries_map(front).contains_key(key) {
            let i = choose|i: int| 0 <= i < front.len() && (#[trigger] front[i]).0 == key;
            assert(entries[i].0 == key);
        }
        if exists|i: int| 0 <= i < entries.len() && (#[trigger] entries[i]).0 == key {
            let i = choose|i: int| 0 <= i < entries.len() && (#[trigger] entries[i]).0 == key;
            if i < entries.len() - 1 {
                assert(front[i].0 == key);
            }
        }
        assert(entries[entries.len() - 1] == entries.last());
    }
}

/// A list of entries stands for a finite map.
pub proof fn lemma_entries_map_finite<V>(entries: Seq<(Seq<char>, V)>)
    ensures
        entries_map(entries).dom().finite(),
    decreases entries.len(),
{
    if entries.len() > 0 {
        lemma_entries_map_finite(entries.drop_last());
    }
}

} // verus!
