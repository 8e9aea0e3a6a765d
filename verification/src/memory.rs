//! The in-memory decision store: decisions kept by trace id, where a put
//! replaces any decision stored under the same id and a get returns the
//! last one put or reports it missing.

use vstd::prelude::*;
use crate::error::StorageError;

verus! {

/// The map an entry list denotes: each entry maps its key to its value,
/// later entries overriding earlier ones.
pub open spec fn map_of<D>(entries: Seq<(String, D)>) -> Map<Seq<char>, D>
    decreases entries.len(),
{
    if entries.len() == 0 {
        Map::empty()
    } else {
        map_of(entries.drop_last()).insert(entries.last().0@, entries.last().1)
    }
}

/// No two entries share a key.
pub open spec fn keys_distinct<D>(entries: Seq<(String, D)>) -> bool {
    forall|i: int, j: int|
        #![trigger entries[i], entries[j]]
        0 <= i < j < entries.len() ==> entries[i].0@ != entries[j].0@
}

proof fn lemma_map_of_lookup<D>(entries: Seq<(String, D)>, k: Seq<char>)
    requires
        keys_distinct(entries),
    ensures
        map_of(entries).contains_key(k) <==> exists|i: int|
            0 <= i < entries.len() && (#[trigger] entries[i]).0@ == k,
        forall|i: int|
            0 <= i < entries.len() && (#[trigger] entries[i]).0@ == k ==> map_of(entries)[k]
                == entries[i].1,
    decreases entries.len(),
{
    if entries.len() > 0 {
        let init = entries.drop_last();
        assert(keys_distinct(init)) by {
            assert forall|i: int, j: int| 0 <= i < j < init.len() implies init[i].0@ != init[j].0@ by {
                assert(init[i] == entries[i] && init[j] == entries[j]);
            }
        }
        lemma_map_of_lookup(init, k);
        if exists|i: int| 0 <= i < init.len() && (#[trigger] init[i]).0@ == k {
            let i = choose|i: int| 0 <= i < init.len() && (#[trigger] init[i]).0@ == k;
            assert(entries[i] == init[i]);
        }
        assert forall|i: int|
            0 <= i < entries.len() && (#[trigger] entries[i]).0@ == k implies map_of(entries)[k]
                == entries[i].1 by {
            if i < entries.len() - 1 {
                assert(init[i] == entries[i]);
                assert(entries[i].0@ != entries[entries.len() - 1].0@);
            }
        }
        if map_of(entries).contains_key(k) && k != entries.last().0@ {
            let i = choose|i: int| 0 <= i < init.len() && (#[trigger] init[i]).0@ == k;
            assert(entries[i] == init[i]);
        }
        if exists|i: int| 0 <= i < entries.len() && (#[trigger] entries[i]).0@ == k {
            let i = choose|i: int| 0 <= i < entries.len() && (#[trigger] entries[i]).0@ == k;
            if i < entries.len() - 1 {
                assert(init[i] == entries[i]);
            }
        }
    }
}

proof fn lemma_map_of_update<D>(entries: Seq<(String, D)>, i: int, key: String, value: D)
    requires
        keys_distinct(entries),
        0 <= i < entries.len(),
        entries[i].0@ == key@,
    ensures
        map_of(entries.update(i, (key, value))) =~= map_of(entries).insert(key@, value),
        keys_distinct(entries.update(i, (key, value))),
    decreases entries.len(),
{
    let updated = entries.update(i, (key, value));
    let init = entries.drop_last();
    assert(keys_distinct(init)) by {
        assert forall|a: int, b: int| 0 <= a < b < init.len() implies init[a].0@ != init[b].0@ by {
            assert(init[a] == entries[a] && init[b] == entries[b]);
        }
    }
    assert forall|a: int, b: int| 0 <= a < b < updated.len() implies updated[a].0@ != updated[b].0@ by {
        assert(entries[a].0@ != entries[b].0@);
    }
    if i == entries.len() - 1 {
        assert(updated.drop_last() =~= init);
    } else {
        assert(updated.drop_last() =~= init.update(i, (key, value)));
        lemma_map_of_update(init, i, key, value);
        assert(entries.last().0@ != key@) by {
            assert(entries[i].0@ != entries[entries.len() - 1].0@);
        }
    }
}

/// Decisions kept in memory by trace id: a map from trace id to decision,
/// held as entries in which no trace id occurs twice (the type invariant),
/// so that [`MemoryStore::stored`] is a map.
pub struct MemoryStore<D> {
    entries: Vec<(String, D)>,
}

impl<D> MemoryStore<D> {
    #[verifier::type_invariant]
    spec fn entries_distinct(self) -> bool {
        keys_distinct(self.entries@)
    }

    /// The stored decisions by trace id.
    pub closed spec fn stored(&self) -> Map<Seq<char>, D> {
        map_of(self.entries@)
    }

    /// An empty store.
    pub fn new() -> (s: Self)
        ensures
            s.stored() == Map::<Seq<char>, D>::empty(),
    {
        MemoryStore { entries: Vec::new() }
    }

    /// Stores `decision` under `trace_id`, replacing any decision stored
    /// under it; nothing else changes.
    pub fn put(&mut self, trace_id: String, decision: D)
        ensures
            final(self).stored() == old(self).stored().insert(trace_id@, decision),
    {
        proof {
            use_type_invariant(&*self);
        }
        let mut i: usize = 0;
        while i < self.entries.len()
            invariant
                i <= self.entries.len(),
                keys_distinct(self.entries@),
                self.entries@ == old(self).entries@,
                forall|j: int| 0 <= j < i ==> (#[trigger] self.entries@[j]).0@ != trace_id@,
            decreases self.entries.len() - i,
        {
            if self.entries[i].0 == trace_id {
                proof {
                    lemma_map_of_update(self.entries@, i as int, trace_id, decision);
                }
                let ghost before = self.entries@;
                let mut entries: Vec<(String, D)> = Vec::new();
                std::mem::swap(&mut entries, &mut self.entries);
                entries.set(i, (trace_id, decision));
                self.entries = entries;
                assert(self.entries@ == before.update(i as int, (trace_id, decision)));
                return;
            }
            i = i + 1;
        }
        let ghost before = self.entries@;
        let mut entries: Vec<(String, D)> = Vec::new();
        std::mem::swap(&mut entries, &mut self.entries);
        entries.push((trace_id, decision));
        proof {
            let after = entries@;
            assert(after.drop_last() =~= before);
            assert(map_of(after) == map_of(before).insert(trace_id@, decision));
            assert forall|a: int, b: int| 0 <= a < b < after.len() implies after[a].0@ != after[b].0@ by {
                if b == after.len() - 1 {
                    assert(after[a] == before[a]);
                } else {
                    assert(after[a] == before[a] && after[b] == before[b]);
                }
            }
        }
        self.entries = entries;
    }

    /// The decision stored under `trace_id`, or `NotFound`.
    pub fn get(&self, trace_id: &str) -> (r: Result<&D, StorageError>)
        ensures
            self.stored().contains_key(trace_id@) ==> r == Ok::<&D, StorageError>(
                &self.stored()[trace_id@],
            ),
            !self.stored().contains_key(trace_id@) ==> r == Err::<&D, StorageError>(
                StorageError::NotFound,
            ),
    {
        proof {
            use_type_invariant(self);
            lemma_map_of_lookup(self.entries@, trace_id@);
        }
        let key = trace_id.to_owned();
        let mut i: usize = 0;
        while i < self.entries.len()
            invariant
                i <= self.entries.len(),
                key@ == trace_id@,
                forall|j: int| 0 <= j < i ==> (#[trigger] self.entries@[j]).0@ != trace_id@,
            decreases self.entries.len() - i,
        {
            if self.entries[i].0 == key {
                proof {
                    use_type_invariant(self);
                    lemma_map_of_lookup(self.entries@, trace_id@);
                }
                return Ok(&self.entries[i].1);
            }
            i = i + 1;
        }
        proof {
            use_type_invariant(self);
            lemma_map_of_lookup(self.entries@, trace_id@);
        }
        Err(StorageError::NotFound)
    }
}

/// A get after a put of the same trace id returns what was put, and a put
/// leaves every other trace id as it was.
pub proof fn law_read_your_write<D>(before: Map<Seq<char>, D>, trace_id: Seq<char>, decision: D, other: Seq<char>)
    requires
        other != trace_id,
    ensures
        before.insert(trace_id, decision).contains_key(trace_id),
        before.insert(trace_id, decision)[trace_id] == decision,
        before.insert(trace_id, decision).contains_key(other) == before.contains_key(other),
        before.contains_key(other) ==> before.insert(trace_id, decision)[other] == before[other],
{
}

/// The stored decisions after `writes`, applied in order with `put`, to a
/// store holding `start`.
pub open spec fn after_writes<D>(start: Map<Seq<char>, D>, writes: Seq<(Seq<char>, D)>) -> Map<
    Seq<char>,
    D,
>
    decreases writes.len(),
{
    if writes.len() == 0 {
        start
    } else {
        after_writes(start, writes.drop_last()).insert(writes.last().0, writes.last().1)
    }
}

/// The decision of the last of `writes` under `trace_id`, if any wrote it.
pub open spec fn last_write<D>(writes: Seq<(Seq<char>, D)>, trace_id: Seq<char>) -> Option<D>
    decreases writes.len(),
{
    if writes.len() == 0 {
        None
    } else if writes.last().0 == trace_id {
        Some(writes.last().1)
    } else {
        last_write(writes.drop_last(), trace_id)
    }
}

/// Last write wins: after any sequence of puts, a trace id holds the
/// decision of the last put under it; a trace id no put wrote holds what it
/// held before, so in a new store it is not found.
pub proof fn law_last_write_wins<D>(
    start: Map<Seq<char>, D>,
    writes: Seq<(Seq<char>, D)>,
    trace_id: Seq<char>,
)
    ensures
        last_write(writes, trace_id) matches Some(d) ==> after_writes(start, writes).contains_key(
            trace_id,
        ) && after_writes(start, writes)[trace_id] == d,
        last_write(writes, trace_id) is None ==> {
            &&& after_writes(start, writes).contains_key(trace_id) == start.contains_key(trace_id)
            &&& start.contains_key(trace_id) ==> after_writes(start, writes)[trace_id]
                == start[trace_id]
        },
        start == Map::<Seq<char>, D>::empty() && last_write(writes, trace_id) is None
            ==> !after_writes(start, writes).contains_key(trace_id),
    decreases writes.len(),
{
    if writes.len() > 0 {
        law_last_write_wins(start, writes.drop_last(), trace_id);
    }
}

} // verus!
