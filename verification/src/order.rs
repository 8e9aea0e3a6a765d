//! A total preorder on listing rows and a verified insertion sort by it.

use vstd::prelude::*;
use vstd::multiset::Multiset;

verus! {

broadcast use vstd::seq_lib::group_to_multiset_ensures;

/// A row type with a total preorder that analytics listings are sorted by.
pub trait RowOrder: Sized {
    /// Rows whose order can be computed without overflow.
    spec fn row_ok(&self) -> bool;

    /// `self` may be listed before `other`.
    spec fn row_le(&self, other: &Self) -> bool;

    proof fn lemma_row_le_total(a: &Self, b: &Self)
        requires
            a.row_ok(),
            b.row_ok(),
        ensures
            a.row_le(b) || b.row_le(a),
    ;

    proof fn lemma_row_le_transitive(a: &Self, b: &Self, c: &Self)
        requires
            a.row_ok(),
            b.row_ok(),
            c.row_ok(),
            a.row_le(b),
            b.row_le(c),
        ensures
            a.row_le(c),
    ;

    fn listed_no_later(&self, other: &Self) -> (r: bool)
        requires
            self.row_ok(),
            other.row_ok(),
        ensures
            r == self.row_le(other),
    ;
}

/// Rows in non-decreasing order.
pub open spec fn rows_sorted<T: RowOrder>(s: Seq<T>) -> bool {
    forall|i: int, j: int| #![trigger s[i], s[j]] 0 <= i < j < s.len() ==> s[i].row_le(&s[j])
}

/// Every row's order is computable.
pub open spec fn rows_ok<T: RowOrder>(s: Seq<T>) -> bool {
    forall|i: int| 0 <= i < s.len() ==> (#[trigger] s[i]).row_ok()
}

/// Two rows tie: each may be listed before the other.
pub open spec fn rows_tie<T: RowOrder>(a: T, b: T) -> bool {
    a.row_le(&b) && b.row_le(&a)
}

/// `out[k]` is `input[idx[k]]`, the positions `idx` are distinct, and rows
/// that tie appear in `out` in the order of their positions in `input`.
pub open spec fn stable_arrangement<T: RowOrder>(input: Seq<T>, out: Seq<T>, idx: Seq<int>) -> bool {
    &&& idx.len() == out.len()
    &&& forall|k: int| 0 <= k < out.len() ==> 0 <= #[trigger] idx[k] < input.len() && out[k] == input[idx[k]]
    &&& forall|a: int, b: int| #![trigger idx[a], idx[b]] 0 <= a < b < out.len() ==> idx[a] != idx[b]
    &&& forall|a: int, b: int|
        #![trigger out[a], out[b]]
        0 <= a < b < out.len() && rows_tie(out[a], out[b]) ==> idx[a] < idx[b]
}

/// `out` rearranges `input` so that rows that tie keep their input order.
pub open spec fn sorted_stably<T: RowOrder>(input: Seq<T>, out: Seq<T>) -> bool {
    out.len() == input.len() && exists|idx: Seq<int>| stable_arrangement(input, out, idx)
}

/// Sorts rows into their order by insertion, each row placed after those
/// that may precede it. The result holds the same rows, in non-decreasing
/// order, and rows that tie keep the order they had in `rows` (the sort is
/// stable).
pub fn sort_rows<T: RowOrder>(rows: Vec<T>) -> (out: Vec<T>)
    requires
        rows_ok(rows@),
    ensures
        out@.to_multiset() == rows@.to_multiset(),
        rows_sorted(out@),
        rows_ok(out@),
        sorted_stably(rows@, out@),
{
    let ghost initial_rows = rows@;
    let ghost mut idx: Seq<int> = Seq::empty();
    let mut rows = rows;
    let mut out: Vec<T> = Vec::new();
    while rows.len() > 0
        invariant
            rows_ok(rows@),
            rows_ok(out@),
            rows_sorted(out@),
            out@.to_multiset().add(rows@.to_multiset()) == initial_rows.to_multiset(),
            rows@.len() <= initial_rows.len(),
            rows@ == initial_rows.skip(initial_rows.len() - rows@.len()),
            out@.len() == initial_rows.len() - rows@.len(),
            stable_arrangement(initial_rows, out@, idx),
            forall|k: int| 0 <= k < out@.len() ==> #[trigger] idx[k] < initial_rows.len() - rows@.len(),
        decreases rows.len(),
    {
        let ghost rows_before = rows@;
        let ghost n: int = initial_rows.len() - rows@.len();
        let x = rows.remove(0);
        assert(x == initial_rows[n]);
        assert(rows@ =~= initial_rows.skip(n + 1));
        assert(x.row_ok());
        assert(rows@ =~= rows_before.remove(0));
        assert(forall|k: int| 0 <= k < rows@.len() ==> rows@[k] == rows_before[k + 1]);
        let mut j: usize = 0;
        while j < out.len() && out[j].listed_no_later(&x)
            invariant
                j <= out.len(),
                x.row_ok(),
                rows_ok(out@),
                forall|k: int| 0 <= k < j ==> (#[trigger] out@[k]).row_le(&x),
            decreases out.len() - j,
        {
            j = j + 1;
        }
        let ghost out_before = out@;
        proof {
            if j < out_before.len() {
                assert(!out_before[j as int].row_le(&x));
                T::lemma_row_le_total(&out_before[j as int], &x);
            }
        }
        out.insert(j, x);
        proof {
            let s = out@;
            let idx0 = idx;
            idx = idx0.insert(j as int, n);
            assert forall|k: int| 0 <= k < s.len() implies 0 <= #[trigger] idx[k] < initial_rows.len()
                && s[k] == initial_rows[idx[k]] && idx[k] < n + 1 by {
                if k < j {
                    assert(s[k] == out_before[k] && idx[k] == idx0[k]);
                } else if k > j {
                    assert(s[k] == out_before[k - 1] && idx[k] == idx0[k - 1]);
                }
            }
            assert forall|a: int, b: int| #![trigger idx[a], idx[b]] 0 <= a < b < s.len() implies idx[a]
                != idx[b] by {
                if a < j && b < j {
                    assert(idx[a] == idx0[a] && idx[b] == idx0[b]);
                } else if a < j && b > j {
                    assert(idx[a] == idx0[a] && idx[b] == idx0[b - 1]);
                } else if a > j {
                    assert(idx[a] == idx0[a - 1] && idx[b] == idx0[b - 1]);
                } else if a < j {
                    assert(idx[a] == idx0[a]);
                } else {
                    assert(idx[b] == idx0[b - 1]);
                }
            }
            assert forall|a: int, b: int|
                #![trigger s[a], s[b]]
                0 <= a < b < s.len() && rows_tie(s[a], s[b]) implies idx[a] < idx[b] by {
                if a < j && b < j {
                    assert(s[a] == out_before[a] && s[b] == out_before[b]);
                    assert(idx[a] == idx0[a] && idx[b] == idx0[b]);
                } else if a < j && b == j {
                    assert(idx[a] == idx0[a]);
                } else if a < j && b > j {
                    assert(s[a] == out_before[a] && s[b] == out_before[b - 1]);
                    assert(idx[a] == idx0[a] && idx[b] == idx0[b - 1]);
                } else if a == j {
                    assert(s[b] == out_before[b - 1]);
                    assert(!out_before[j as int].row_le(&x));
                    if j < b - 1 {
                        assert(out_before[j as int].row_le(&out_before[b - 1]));
                        T::lemma_row_le_transitive(&out_before[j as int], &out_before[b - 1], &x);
                    }
                    assert(false);
                } else {
                    assert(s[a] == out_before[a - 1] && s[b] == out_before[b - 1]);
                    assert(idx[a] == idx0[a - 1] && idx[b] == idx0[b - 1]);
                }
            }
            assert(s == out_before.insert(j as int, x));
            assert forall|k: int| 0 <= k < s.len() implies (#[trigger] s[k]).row_ok() by {
                if k < j {
                    assert(s[k] == out_before[k]);
                } else if k > j {
                    assert(s[k] == out_before[k - 1]);
                }
            }
            assert forall|a: int, b: int|
                #![trigger s[a], s[b]]
                0 <= a < b < s.len() implies s[a].row_le(&s[b]) by {
                if a < j && b < j {
                    assert(s[a] == out_before[a] && s[b] == out_before[b]);
                } else if a < j && b == j {
                    assert(s[a] == out_before[a]);
                } else if a < j && b > j {
                    assert(s[a] == out_before[a] && s[b] == out_before[b - 1]);
                    assert(out_before[a].row_le(&x));
                    assert(x.row_le(&out_before[j as int]));
                    T::lemma_row_le_transitive(&out_before[a], &x, &out_before[j as int]);
                    if j < b - 1 {
                        assert(out_before[j as int].row_le(&out_before[b - 1]));
                        T::lemma_row_le_transitive(
                            &out_before[a],
                            &out_before[j as int],
                            &out_before[b - 1],
                        );
                    }
                } else if a == j {
                    assert(s[b] == out_before[b - 1]);
                    if j < b - 1 {
                        assert(out_before[j as int].row_le(&out_before[b - 1]));
                        T::lemma_row_le_transitive(&x, &out_before[j as int], &out_before[b - 1]);
                    }
                } else {
                    assert(s[a] == out_before[a - 1] && s[b] == out_before[b - 1]);
                }
            }
            assert(rows_before.to_multiset() == rows@.to_multiset().insert(x)) by {
                assert(rows_before.remove(0).to_multiset() == rows_before.to_multiset().remove(
                    rows_before[0],
                ));
            }
        }
    }
    assert(rows@.to_multiset() =~= Multiset::empty());
    assert(stable_arrangement(initial_rows, out@, idx));
    out
}

/// Integers in ascending order.
impl RowOrder for i32 {
    open spec fn row_ok(&self) -> bool {
        true
    }

    open spec fn row_le(&self, other: &Self) -> bool {
        *self <= *other
    }

    proof fn lemma_row_le_total(a: &Self, b: &Self) {
    }

    proof fn lemma_row_le_transitive(a: &Self, b: &Self, c: &Self) {
    }

    fn listed_no_later(&self, other: &Self) -> (r: bool) {
        *self <= *other
    }
}

} // verus!
