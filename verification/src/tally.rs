//! Counting and grouping by key: a sequence of keyed increments folded into
//! one total per distinct key, and key-value pairs grouped by key, both in
//! order of first appearance.

use vstd::prelude::*;
use crate::policy::{first_occurrences, texts, unique_policy_ids};

verus! {

/// Five counters.
#[derive(Debug, Clone, Copy, Default, PartialEq, Eq, Structural)]
pub struct Counts {
    pub c0: i64,
    pub c1: i64,
    pub c2: i64,
    pub c3: i64,
    pub c4: i64,
}

/// An increment of the counters of one key; each counter goes up by 0
/// or 1.
#[derive(Debug, Clone, PartialEq, Eq)]
pub struct KeyedDelta {
    pub key: String,
    pub delta: Counts,
}

/// The totals of one key.
#[derive(Debug, Clone, PartialEq, Eq)]
pub struct KeyedTotal {
    pub key: String,
    pub totals: Counts,
}

/// Counters as mathematical integers.
pub open spec fn counts_view(c: Counts) -> (int, int, int, int, int) {
    (c.c0 as int, c.c1 as int, c.c2 as int, c.c3 as int, c.c4 as int)
}

/// Each counter of an increment is 0 or 1.
pub open spec fn unit_delta(c: Counts) -> bool {
    0 <= c.c0 <= 1 && 0 <= c.c1 <= 1 && 0 <= c.c2 <= 1 && 0 <= c.c3 <= 1 && 0 <= c.c4 <= 1
}

/// The sum of the increments of key `k`.
pub open spec fn total_for(events: Seq<KeyedDelta>, k: Seq<char>) -> (int, int, int, int, int)
    decreases events.len(),
{
    if events.len() == 0 {
        (0, 0, 0, 0, 0)
    } else {
        let t = total_for(events.drop_last(), k);
        let e = events.last();
        if e.key@ == k {
            (t.0 + e.delta.c0, t.1 + e.delta.c1, t.2 + e.delta.c2, t.3 + e.delta.c3, t.4 + e.delta.c4)
        } else {
            t
        }
    }
}

/// Some increment is for key `k`.
pub open spec fn has_key(events: Seq<KeyedDelta>, k: Seq<char>) -> bool {
    exists|i: int| 0 <= i < events.len() && (#[trigger] events[i]).key@ == k
}

/// `rows` hold one total per key of `events`: the keys are distinct, each
/// is a key of some increment, every increment's key has a row, and each
/// row's totals are the sums of its key's increments.
pub open spec fn is_tally(rows: Seq<KeyedTotal>, events: Seq<KeyedDelta>) -> bool {
    &&& forall|a: int, b: int|
        #![trigger rows[a], rows[b]]
        0 <= a < b < rows.len() ==> rows[a].key@ != rows[b].key@
    &&& forall|a: int|
        0 <= a < rows.len() ==> has_key(events, (#[trigger] rows[a]).key@) && counts_view(
            rows[a].totals,
        ) == total_for(events, rows[a].key@)
    &&& forall|i: int|
        0 <= i < events.len() ==> exists|a: int|
            0 <= a < rows.len() && (#[trigger] rows[a]).key@ == (#[trigger] events[i]).key@
}

proof fn lemma_total_bounded(events: Seq<KeyedDelta>, k: Seq<char>)
    requires
        forall|i: int| 0 <= i < events.len() ==> unit_delta((#[trigger] events[i]).delta),
    ensures
        0 <= total_for(events, k).0 <= events.len(),
        0 <= total_for(events, k).1 <= events.len(),
        0 <= total_for(events, k).2 <= events.len(),
        0 <= total_for(events, k).3 <= events.len(),
        0 <= total_for(events, k).4 <= events.len(),
    decreases events.len(),
{
    if events.len() > 0 {
        assert(unit_delta(events[events.len() - 1].delta));
        lemma_total_bounded(events.drop_last(), k);
    }
}

/// A tally of increments that are each 0 or 1 holds no negative total.
pub proof fn lemma_tally_nonnegative(rows: Seq<KeyedTotal>, events: Seq<KeyedDelta>)
    requires
        is_tally(rows, events),
        forall|i: int| 0 <= i < events.len() ==> unit_delta((#[trigger] events[i]).delta),
    ensures
        forall|a: int|
            0 <= a < rows.len() ==> {
                let t = (#[trigger] rows[a]).totals;
                t.c0 >= 0 && t.c1 >= 0 && t.c2 >= 0 && t.c3 >= 0 && t.c4 >= 0
            },
{
    assert forall|a: int| 0 <= a < rows.len() implies {
        let t = (#[trigger] rows[a]).totals;
        t.c0 >= 0 && t.c1 >= 0 && t.c2 >= 0 && t.c3 >= 0 && t.c4 >= 0
    } by {
        lemma_total_bounded(events, rows[a].key@);
    }
}

proof fn lemma_total_absent(events: Seq<KeyedDelta>, k: Seq<char>)
    requires
        !has_key(events, k),
    ensures
        total_for(events, k) == (0int, 0int, 0int, 0int, 0int),
    decreases events.len(),
{
    if events.len() > 0 {
        assert(events.drop_last().len() < events.len());
        assert(!has_key(events.drop_last(), k)) by {
            if has_key(events.drop_last(), k) {
                let i = choose|i: int|
                    0 <= i < events.drop_last().len() && (#[trigger] events.drop_last()[i]).key@ == k;
                assert(events[i] == events.drop_last()[i]);
            }
        }
        assert(events.last().key@ != k) by {
            assert(events[events.len() - 1] == events.last());
        }
        lemma_total_absent(events.drop_last(), k);
    }
}

fn add_delta(t: Counts, d: Counts) -> (r: Counts)
    requires
        t.c0 + d.c0 <= i64::MAX,
        t.c1 + d.c1 <= i64::MAX,
        t.c2 + d.c2 <= i64::MAX,
        t.c3 + d.c3 <= i64::MAX,
        t.c4 + d.c4 <= i64::MAX,
        t.c0 >= 0 && t.c1 >= 0 && t.c2 >= 0 && t.c3 >= 0 && t.c4 >= 0,
        unit_delta(d),
    ensures
        counts_view(r) == (t.c0 + d.c0, t.c1 + d.c1, t.c2 + d.c2, t.c3 + d.c3, t.c4 + d.c4),
{
    Counts { c0: t.c0 + d.c0, c1: t.c1 + d.c1, c2: t.c2 + d.c2, c3: t.c3 + d.c3, c4: t.c4 + d.c4 }
}

/// Folds keyed increments into one row per distinct key, rows in the order
/// their keys first appear. The rows stand for a map from key to totals:
/// no key has two rows (see [`is_tally`]); they become the members of a JSON
/// object, whose member order carries no meaning.
pub fn tally_by_key(events: &Vec<KeyedDelta>) -> (rows: Vec<KeyedTotal>)
    requires
        events.len() <= i64::MAX,
        forall|i: int| 0 <= i < events.len() ==> unit_delta((#[trigger] events@[i]).delta),
    ensures
        is_tally(rows@, events@),
{
    let mut rows: Vec<KeyedTotal> = Vec::new();
    let mut i: usize = 0;
    while i < events.len()
        invariant
            i <= events.len() <= i64::MAX,
            forall|j: int| 0 <= j < events.len() ==> unit_delta((#[trigger] events@[j]).delta),
            is_tally(rows@, events@.take(i as int)),
        decreases events.len() - i,
    {
        let e = &events[i];
        let ghost prev = events@.take(i as int);
        let ghost next = events@.take(i + 1);
        proof {
            assert(next.drop_last() =~= prev);
            assert(next.last() == *e);
            assert forall|j: int| 0 <= j < prev.len() implies unit_delta((#[trigger] prev[j]).delta) by {
                assert(prev[j] == events@[j]);
            }
        }
        let mut j: usize = 0;
        while j < rows.len()
            invariant
                j <= rows.len(),
                forall|a: int| 0 <= a < j ==> (#[trigger] rows@[a]).key@ != e.key@,
            ensures
                j <= rows.len(),
                forall|a: int| 0 <= a < j ==> (#[trigger] rows@[a]).key@ != e.key@,
                j < rows.len() ==> rows@[j as int].key@ == e.key@,
            decreases rows.len() - j,
        {
            if rows[j].key == e.key {
                break;
            }
            j = j + 1;
        }
        let ghost before = rows@;
        if j < rows.len() {
            proof {
                assert(rows@[j as int].key@ == e.key@);
                lemma_total_bounded(prev, e.key@);
                assert(counts_view(before[j as int].totals) == total_for(prev, e.key@));
            }
            let updated = KeyedTotal {
                key: rows[j].key.clone(),
                totals: add_delta(rows[j].totals, e.delta),
            };
            rows.set(j, updated);
            proof {
                let after = rows@;
                assert forall|a: int| 0 <= a < after.len() implies has_key(
                    next,
                    (#[trigger] after[a]).key@,
                ) && counts_view(after[a].totals) == total_for(next, after[a].key@) by {
                    assert(has_key(prev, before[a].key@));
                    let w = choose|w: int| 0 <= w < prev.len() && (#[trigger] prev[w]).key@ == before[a].key@;
                    assert(next[w] == prev[w]);
                    assert(after[a].key@ == before[a].key@);
                }
                assert forall|x: int|
                    0 <= x < next.len() implies exists|a: int|
                        0 <= a < after.len() && (#[trigger] after[a]).key@ == (#[trigger] next[x]).key@ by {
                    if x < prev.len() {
                        assert(next[x] == prev[x]);
                        let a = choose|a: int|
                            0 <= a < before.len() && (#[trigger] before[a]).key@ == (#[trigger] prev[x]).key@;
                        assert(after[a].key@ == before[a].key@);
                    } else {
                        assert(after[j as int].key@ == next[x].key@);
                    }
                }
                assert forall|a: int, b: int|
                    #![trigger after[a], after[b]]
                    0 <= a < b < after.len() implies after[a].key@ != after[b].key@ by {
                    assert(after[a].key@ == before[a].key@);
                    assert(after[b].key@ == before[b].key@);
                    assert(before[a].key@ != before[b].key@);
                }
            }
        } else {
            proof {
                assert(!has_key(prev, e.key@)) by {
                    if has_key(prev, e.key@) {
                        let w = choose|w: int| 0 <= w < prev.len() && (#[trigger] prev[w]).key@ == e.key@;
                        let a = choose|a: int|
                            0 <= a < before.len() && (#[trigger] before[a]).key@ == (#[trigger] prev[w]).key@;
                        assert(before[a].key@ != e.key@);
                    }
                }
                lemma_total_absent(prev, e.key@);
            }
            let fresh = KeyedTotal {
                key: e.key.clone(),
                totals: add_delta(Counts { c0: 0, c1: 0, c2: 0, c3: 0, c4: 0 }, e.delta),
            };
            rows.push(fresh);
            proof {
                let after = rows@;
                assert(after == before.push(fresh));
                assert forall|a: int| 0 <= a < after.len() implies has_key(
                    next,
                    (#[trigger] after[a]).key@,
                ) && counts_view(after[a].totals) == total_for(next, after[a].key@) by {
                    if a < before.len() {
                        assert(after[a] == before[a]);
                        assert(has_key(prev, before[a].key@));
                        let w = choose|w: int| 0 <= w < prev.len() && (#[trigger] prev[w]).key@ == before[a].key@;
                        assert(next[w] == prev[w]);
                    } else {
                        assert(next[i as int] == *e);
                    }
                }
                assert forall|x: int|
                    0 <= x < next.len() implies exists|a: int|
                        0 <= a < after.len() && (#[trigger] after[a]).key@ == (#[trigger] next[x]).key@ by {
                    if x < prev.len() {
                        assert(next[x] == prev[x]);
                        let a = choose|a: int|
                            0 <= a < before.len() && (#[trigger] before[a]).key@ == (#[trigger] prev[x]).key@;
                        assert(after[a] == before[a]);
                    } else {
                        assert(after[before.len() as int].key@ == next[x].key@);
                    }
                }
                assert forall|a: int, b: int|
                    #![trigger after[a], after[b]]
                    0 <= a < b < after.len() implies after[a].key@ != after[b].key@ by {
                    if b < before.len() {
                        assert(after[a] == before[a] && after[b] == before[b]);
                    } else {
                        assert(after[a] == before[a]);
                    }
                }
            }
        }
        i = i + 1;
    }
    assert(events@.take(events.len() as int) =~= events@);
    rows
}

/// The values paired with `key`, in order.
pub open spec fn values_for(pairs: Seq<(String, String)>, key: Seq<char>) -> Seq<Seq<char>>
    decreases pairs.len(),
{
    if pairs.len() == 0 {
        Seq::empty()
    } else {
        let rest = values_for(pairs.drop_last(), key);
        if pairs.last().0@ == key {
            rest.push(pairs.last().1@)
        } else {
            rest
        }
    }
}

/// The keys of key-value pairs, in order.
pub open spec fn pair_keys(pairs: Seq<(String, String)>) -> Seq<Seq<char>> {
    pairs.map_values(|p: (String, String)| p.0@)
}

/// `groups` hold one row per distinct key of `pairs`, in order of first
/// appearance, each with the values paired with its key, in order.
pub open spec fn is_grouping(groups: Seq<(String, Vec<String>)>, pairs: Seq<(String, String)>) -> bool {
    &&& groups.map_values(|g: (String, Vec<String>)| g.0@) == first_occurrences(pair_keys(pairs))
    &&& forall|i: int|
        0 <= i < groups.len() ==> texts((#[trigger] groups[i]).1@) == values_for(pairs, groups[i].0@)
}

/// The values paired with `key`, in order.
fn collect_values(pairs: &Vec<(String, String)>, key: &String) -> (r: Vec<String>)
    ensures
        texts(r@) == values_for(pairs@, key@),
{
    let mut out: Vec<String> = Vec::new();
    let mut i: usize = 0;
    while i < pairs.len()
        invariant
            i <= pairs.len(),
            texts(out@) == values_for(pairs@.take(i as int), key@),
        decreases pairs.len() - i,
    {
        proof {
            assert(pairs@.take(i + 1).drop_last() =~= pairs@.take(i as int));
            assert(pairs@.take(i + 1).last() == pairs@[i as int]);
        }
        if pairs[i].0 == *key {
            let ghost before = out@;
            out.push(pairs[i].1.clone());
            assert(texts(out@) =~= texts(before).push(pairs@[i as int].1@));
        }
        i = i + 1;
    }
    assert(pairs@.take(pairs.len() as int) =~= pairs@);
    out
}

/// Groups key-value pairs by key: one row per distinct key, in order of
/// first appearance, with its values in order. The rows stand for a map
/// from key to values, which becomes a JSON object: no key has two rows
/// (see [`is_grouping`]).
pub fn group_by_key(pairs: &Vec<(String, String)>) -> (groups: Vec<(String, Vec<String>)>)
    ensures
        is_grouping(groups@, pairs@),
{
    let mut keys: Vec<String> = Vec::new();
    let mut i: usize = 0;
    while i < pairs.len()
        invariant
            i <= pairs.len(),
            texts(keys@) == pair_keys(pairs@.take(i as int)),
        decreases pairs.len() - i,
    {
        let ghost before = keys@;
        keys.push(pairs[i].0.clone());
        proof {
            assert(pair_keys(pairs@.take(i + 1)) =~= pair_keys(pairs@.take(i as int)).push(
                pairs@[i as int].0@,
            ));
            assert(texts(keys@) =~= texts(before).push(pairs@[i as int].0@));
        }
        i = i + 1;
    }
    assert(pairs@.take(pairs.len() as int) =~= pairs@);
    let distinct = unique_policy_ids(&keys);
    let mut groups: Vec<(String, Vec<String>)> = Vec::new();
    let mut j: usize = 0;
    while j < distinct.len()
        invariant
            j <= distinct.len(),
            groups.len() == j,
            forall|a: int| 0 <= a < j ==> (#[trigger] groups@[a]).0 == distinct@[a],
            forall|a: int|
                0 <= a < j ==> texts((#[trigger] groups@[a]).1@) == values_for(
                    pairs@,
                    groups@[a].0@,
                ),
        decreases distinct.len() - j,
    {
        let k = distinct[j].clone();
        let vs = collect_values(pairs, &k);
        groups.push((k, vs));
        j = j + 1;
    }
    proof {
        assert(groups@.map_values(|g: (String, Vec<String>)| g.0@) =~= texts(distinct@));
    }
    groups
}

/// Totals over two runs of increments add up.
pub proof fn lemma_total_for_concat(a: Seq<KeyedDelta>, b: Seq<KeyedDelta>, k: Seq<char>)
    ensures
        total_for(a + b, k).0 == total_for(a, k).0 + total_for(b, k).0,
        total_for(a + b, k).1 == total_for(a, k).1 + total_for(b, k).1,
        total_for(a + b, k).2 == total_for(a, k).2 + total_for(b, k).2,
        total_for(a + b, k).3 == total_for(a, k).3 + total_for(b, k).3,
        total_for(a + b, k).4 == total_for(a, k).4 + total_for(b, k).4,
    decreases b.len(),
{
    if b.len() > 0 {
        assert((a + b).drop_last() =~= a + b.drop_last());
        assert((a + b).last() == b.last());
        lemma_total_for_concat(a, b.drop_last(), k);
    } else {
        assert(a + b =~= a);
    }
}

/// The values paired with a key over two runs of pairs are those of the
/// first run followed by those of the second.
pub proof fn lemma_values_for_concat(a: Seq<(String, String)>, b: Seq<(String, String)>, k: Seq<char>)
    ensures
        values_for(a + b, k) == values_for(a, k) + values_for(b, k),
    decreases b.len(),
{
    if b.len() > 0 {
        assert((a + b).drop_last() =~= a + b.drop_last());
        assert((a + b).last() == b.last());
        lemma_values_for_concat(a, b.drop_last(), k);
        if b.last().0@ == k {
            assert(values_for(a, k) + values_for(b, k) =~= (values_for(a, k) + values_for(
                b.drop_last(),
                k,
            )).push(b.last().1@));
        } else {
        }
    } else {
        assert(a + b =~= a);
        assert(values_for(a, k) + values_for(b, k) =~= values_for(a, k));
    }
}

} // verus!
