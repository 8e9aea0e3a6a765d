//! Pay decisions: which recorded spends count toward an owner's caps, their
//! saturating total, and how resolving a hold decides whether it counts.

use vstd::prelude::*;
use crate::financial::{saturate_i64, saturating_add_i64};
use crate::text::same_text;

verus! {

/// A recorded pay decision as the cap sum reads it.
#[derive(Debug, Clone, PartialEq, Eq)]
pub struct PayDecisionRow {
    pub status: String,
    /// For a hold: whether it was approved, once resolved.
    pub resolution: Option<bool>,
    pub amount_minor: i64,
}

/// Allowed spends and approved holds count toward caps; blocks and holds
/// that are unresolved or denied do not.
pub open spec fn counts_toward_caps(row: PayDecisionRow) -> bool {
    row.status@ == "allow"@ || (row.status@ == "hold"@ && row.resolution == Some(true))
}

/// The counted amounts added left to right with saturation.
pub open spec fn counted_total(rows: Seq<PayDecisionRow>) -> int
    decreases rows.len(),
{
    if rows.len() == 0 {
        0
    } else if counts_toward_caps(rows.last()) {
        saturate_i64(counted_total(rows.drop_last()) + rows.last().amount_minor)
    } else {
        counted_total(rows.drop_last())
    }
}

/// Whether a decision counts toward the caps.
pub fn is_counted(row: &PayDecisionRow) -> (r: bool)
    ensures
        r == counts_toward_caps(*row),
{
    same_text(row.status.as_str(), "allow") || (same_text(row.status.as_str(), "hold")
        && row.resolution == Some(true))
}

/// Spend counted toward an owner's caps.
pub fn sum_counted(rows: &Vec<PayDecisionRow>) -> (r: i64)
    ensures
        r == counted_total(rows@),
{
    let mut total: i64 = 0;
    let mut i: usize = 0;
    while i < rows.len()
        invariant
            i <= rows.len(),
            total == counted_total(rows@.take(i as int)),
        decreases rows.len() - i,
    {
        assert(rows@.take(i + 1).drop_last() =~= rows@.take(i as int));
        assert(rows@.take(i + 1).last() == rows@[i as int]);
        if is_counted(&rows[i]) {
            total = saturating_add_i64(total, rows[i].amount_minor);
        }
        i = i + 1;
    }
    assert(rows@.take(rows.len() as int) =~= rows@);
    total
}

/// Approves or denies a pending hold (a hold not yet resolved); other
/// decisions, and holds already resolved, are left as they are. Returns
/// whether a pending hold was resolved.
pub fn resolve_hold(row: &mut PayDecisionRow, approve: bool) -> (r: bool)
    ensures
        r == (old(row).status@ == "hold"@ && old(row).resolution is None),
        r ==> final(row).resolution == Some(approve),
        !r ==> final(row).resolution == old(row).resolution,
        final(row).status == old(row).status,
        final(row).amount_minor == old(row).amount_minor,
{
    if same_text(row.status.as_str(), "hold") && row.resolution.is_none() {
        row.resolution = Some(approve);
        true
    } else {
        false
    }
}

/// A pending hold, once resolved, counts toward the caps exactly when it was
/// approved; resolving again changes nothing, and whether any other decision
/// counts is unchanged.
pub proof fn law_resolved_holds(before: PayDecisionRow, after: PayDecisionRow, approve: bool)
    requires
        after.status == before.status,
        after.amount_minor == before.amount_minor,
        before.status@ == "hold"@ && before.resolution is None ==> after.resolution == Some(approve),
        !(before.status@ == "hold"@ && before.resolution is None) ==> after.resolution
            == before.resolution,
    ensures
        before.status@ == "hold"@ && before.resolution is None ==> (counts_toward_caps(after)
            <==> approve),
        !(before.status@ == "hold"@ && before.resolution is None) ==> after == before,
        !(before.status@ == "hold"@ && before.resolution is None) ==> (counts_toward_caps(after)
            <==> counts_toward_caps(before)),
{
    reveal_strlit("hold");
    reveal_strlit("allow");
    assert("hold"@.len() != "allow"@.len());
}

} // verus!
