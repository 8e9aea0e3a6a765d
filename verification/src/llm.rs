//! LLM gateway metering: nanos to minor units, saturating spend sums, budget
//! admission over day / week / month windows, the rows
//! that record reservations, and usage totals per day, principal or model.

use vstd::prelude::*;
use crate::financial::{saturate_i64, saturating_add_i64};
use crate::calendar::{spec_utc_date_text, utc_date_text, MAX_INSTANT_MILLIS};
use crate::text::{to_uppercase, spec_to_uppercase, text_lt, has_text, sorted_distinct_texts};

verus! {

/// Nanos per minor currency unit.
pub const NANOS_PER_MINOR: i64 = 10_000_000;

/// Division truncating toward zero, as integer division in Rust does.
pub open spec fn trunc_div(n: int, d: int) -> int {
    if n >= 0 {
        n / d
    } else {
        -((-n) / d)
    }
}

/// Minor units in `nanos`, truncated toward zero.
pub fn nanos_to_minor(nanos: i64) -> (r: i64)
    ensures
        r == trunc_div(nanos as int, NANOS_PER_MINOR as int),
{
    let n: i128 = nanos as i128;
    let d: i128 = 10_000_000;
    let q: i128 = if n >= 0 {
        n / d
    } else {
        -((-n) / d)
    };
    q as i64
}

/// Values added left to right with saturation at the bounds of `i64`.
pub open spec fn saturating_sum(values: Seq<i64>) -> int
    decreases values.len(),
{
    if values.len() == 0 {
        0
    } else {
        saturate_i64(saturating_sum(values.drop_last()) + values.last())
    }
}

/// Sum of `values`, saturating at the bounds of `i64`.
pub fn saturating_total(values: &Vec<i64>) -> (r: i64)
    ensures
        r == saturating_sum(values@),
{
    let mut total: i64 = 0;
    let mut i: usize = 0;
    while i < values.len()
        invariant
            i <= values.len(),
            total == saturating_sum(values@.take(i as int)),
        decreases values.len() - i,
    {
        assert(values@.take(i + 1).drop_last() =~= values@.take(i as int));
        total = saturating_add_i64(total, values[i]);
        i = i + 1;
    }
    assert(values@.take(values.len() as int) =~= values@);
    total
}

/// Priced spend of a window in minor units: the events' `cost_minor`
/// values folded with saturation. Usage only accrues; no kind is signed.
pub fn net_llm_spend_minor(cost_minor: &Vec<i64>) -> (r: i64)
    ensures
        r == saturating_sum(cost_minor@),
{
    saturating_total(cost_minor)
}

/// A budget window.
#[derive(Debug, Clone, Copy, PartialEq, Eq, Structural)]
pub enum LlmBudgetWindow {
    Day,
    Week,
    Month,
}

/// Optional caps in nanos per window.
#[derive(Debug, Clone, Copy, Default, PartialEq, Eq, Structural)]
pub struct LlmBudgetCapsNanos {
    pub daily: Option<i64>,
    pub weekly: Option<i64>,
    pub monthly: Option<i64>,
}

/// What a window has already consumed: settled spend and the maxima held
/// by active reservations, both in nanos.
#[derive(Debug, Clone, Copy, PartialEq, Eq, Structural)]
pub struct LlmWindowUsage {
    pub spent_nanos: i64,
    pub active_nanos: i64,
}

/// The outcome of a budget admission.
#[derive(Debug, Clone, Copy, PartialEq, Eq, Structural)]
pub enum ReserveLlmBudgetResult {
    Reserved,
    Exceeded {
        window: LlmBudgetWindow,
        cap_nanos: i64,
        committed_nanos: i64,
        requested_nanos: i64,
    },
}

/// Spend a window counts against its cap: settled plus held, saturating.
pub open spec fn committed_nanos(u: LlmWindowUsage) -> int {
    saturate_i64(u.spent_nanos + u.active_nanos)
}

/// The verdict of one window: exceeded when the committed spend plus the
/// request (saturating) is over the cap; a window without a cap is never
/// exceeded.
pub open spec fn window_verdict(
    window: LlmBudgetWindow,
    cap: Option<i64>,
    usage: LlmWindowUsage,
    requested: i64,
) -> Option<ReserveLlmBudgetResult> {
    match cap {
        None => None,
        Some(c) => if saturate_i64(committed_nanos(usage) + requested) > c {
            Some(
                ReserveLlmBudgetResult::Exceeded {
                    window,
                    cap_nanos: c,
                    committed_nanos: committed_nanos(usage) as i64,
                    requested_nanos: requested,
                },
            )
        } else {
            None
        },
    }
}

/// Admission: the first window, in day, week, month order, that the
/// request would exceed, or a reservation when none would.
pub open spec fn llm_budget_verdict(
    caps: LlmBudgetCapsNanos,
    day: LlmWindowUsage,
    week: LlmWindowUsage,
    month: LlmWindowUsage,
    requested: i64,
) -> ReserveLlmBudgetResult {
    match window_verdict(LlmBudgetWindow::Day, caps.daily, day, requested) {
        Some(r) => r,
        None => match window_verdict(LlmBudgetWindow::Week, caps.weekly, week, requested) {
            Some(r) => r,
            None => match window_verdict(LlmBudgetWindow::Month, caps.monthly, month, requested) {
                Some(r) => r,
                None => ReserveLlmBudgetResult::Reserved,
            },
        },
    }
}

/// The verdict of one window.
pub fn check_llm_window(
    window: LlmBudgetWindow,
    cap: Option<i64>,
    usage: LlmWindowUsage,
    requested_nanos: i64,
) -> (r: Option<ReserveLlmBudgetResult>)
    ensures
        r == window_verdict(window, cap, usage, requested_nanos),
{
    match cap {
        None => None,
        Some(cap_nanos) => {
            let committed = saturating_add_i64(usage.spent_nanos, usage.active_nanos);
            if saturating_add_i64(committed, requested_nanos) > cap_nanos {
                Some(
                    ReserveLlmBudgetResult::Exceeded {
                        window,
                        cap_nanos,
                        committed_nanos: committed,
                        requested_nanos,
                    },
                )
            } else {
                None
            }
        },
    }
}

/// Decides whether a request for `requested_nanos` fits every capped
/// window.
pub fn decide_llm_budget(
    caps: LlmBudgetCapsNanos,
    day: LlmWindowUsage,
    week: LlmWindowUsage,
    month: LlmWindowUsage,
    requested_nanos: i64,
) -> (r: ReserveLlmBudgetResult)
    ensures
        r == llm_budget_verdict(caps, day, week, month, requested_nanos),
{
    if let Some(r) = check_llm_window(LlmBudgetWindow::Day, caps.daily, day, requested_nanos) {
        return r;
    }
    if let Some(r) = check_llm_window(LlmBudgetWindow::Week, caps.weekly, week, requested_nanos) {
        return r;
    }
    if let Some(r) = check_llm_window(LlmBudgetWindow::Month, caps.monthly, month, requested_nanos) {
        return r;
    }
    ReserveLlmBudgetResult::Reserved
}

/// A request is reserved exactly when it fits under every cap that is set,
/// and a refusal names a window whose cap it would exceed.
pub proof fn law_llm_admission(
    caps: LlmBudgetCapsNanos,
    day: LlmWindowUsage,
    week: LlmWindowUsage,
    month: LlmWindowUsage,
    requested: i64,
)
    ensures
        llm_budget_verdict(caps, day, week, month, requested) == ReserveLlmBudgetResult::Reserved
            <==> {
            &&& caps.daily matches Some(c) ==> saturate_i64(committed_nanos(day) + requested) <= c
            &&& caps.weekly matches Some(c) ==> saturate_i64(committed_nanos(week) + requested) <= c
            &&& caps.monthly matches Some(c) ==> saturate_i64(committed_nanos(month) + requested)
                <= c
        },
        llm_budget_verdict(caps, day, week, month, requested) matches
            ReserveLlmBudgetResult::Exceeded { cap_nanos, committed_nanos, requested_nanos, .. }
            ==> saturate_i64(committed_nanos + requested_nanos) > cap_nanos,
        llm_budget_verdict(caps, day, week, month, requested) == ReserveLlmBudgetResult::Reserved
            <==> {
            &&& caps.daily matches Some(c) ==> saturate_i64(
                saturate_i64(day.spent_nanos + day.active_nanos) + requested,
            ) <= c
            &&& caps.weekly matches Some(c) ==> saturate_i64(
                saturate_i64(week.spent_nanos + week.active_nanos) + requested,
            ) <= c
            &&& caps.monthly matches Some(c) ==> saturate_i64(
                saturate_i64(month.spent_nanos + month.active_nanos) + requested,
            ) <= c
        },
        llm_budget_verdict(caps, day, week, month, requested) matches
            ReserveLlmBudgetResult::Exceeded { window, cap_nanos, committed_nanos, requested_nanos }
            ==> {
            let u = if window == LlmBudgetWindow::Day {
                day
            } else if window == LlmBudgetWindow::Week {
                week
            } else {
                month
            };
            let cap = if window == LlmBudgetWindow::Day {
                caps.daily
            } else if window == LlmBudgetWindow::Week {
                caps.weekly
            } else {
                caps.monthly
            };
            &&& cap == Some(cap_nanos)
            &&& committed_nanos == saturate_i64(u.spent_nanos + u.active_nanos)
            &&& requested_nanos == requested
        },
{
}

/// The row that serializes admissions of one principal.
#[derive(Debug, Clone, PartialEq, Eq)]
pub struct NewLlmBudgetPrincipalLock {
    pub workspace_id: String,
    pub principal_id: String,
}

/// An active reservation row for one gateway request.
#[derive(Debug, Clone, PartialEq, Eq)]
pub struct NewLlmBudgetReservation {
    pub workspace_id: String,
    pub request_id: String,
    pub principal_id: String,
    pub api_key_id: String,
    pub currency: String,
    pub reserved_nanos: i64,
    pub actual_nanos: Option<i64>,
    pub status: String,
}

/// The lock row of a principal.
pub fn llm_budget_principal_lock(workspace_id: &str, principal_id: &str) -> (r:
    NewLlmBudgetPrincipalLock)
    ensures
        r.workspace_id@ == workspace_id@,
        r.principal_id@ == principal_id@,
{
    NewLlmBudgetPrincipalLock {
        workspace_id: workspace_id.to_owned(),
        principal_id: principal_id.to_owned(),
    }
}

/// The reservation row written when admission succeeds: active, with no
/// actual cost yet and the currency upper-cased.
pub fn llm_budget_reservation_row(
    workspace_id: &str,
    request_id: &str,
    principal_id: &str,
    api_key_id: &str,
    currency: &str,
    reserved_nanos: i64,
) -> (r: NewLlmBudgetReservation)
    ensures
        r.workspace_id@ == workspace_id@,
        r.request_id@ == request_id@,
        r.principal_id@ == principal_id@,
        r.api_key_id@ == api_key_id@,
        r.currency@ == spec_to_uppercase(currency@),
        r.reserved_nanos == reserved_nanos,
        r.actual_nanos is None,
        r.status@ == "active"@,
{
    NewLlmBudgetReservation {
        workspace_id: workspace_id.to_owned(),
        request_id: request_id.to_owned(),
        principal_id: principal_id.to_owned(),
        api_key_id: api_key_id.to_owned(),
        currency: to_uppercase(currency),
        reserved_nanos,
        actual_nanos: None,
        status: "active".to_owned(),
    }
}

/// A workspace's price for one model, per million tokens, in minor units
/// and in nanos.
#[derive(Debug, Clone, PartialEq, Eq)]
pub struct NewLlmModelPrice {
    pub workspace_id: String,
    pub model: String,
    pub input_per_million_minor: i64,
    pub output_per_million_minor: i64,
    pub input_per_million_nanos: i64,
    pub output_per_million_nanos: i64,
}

/// The stored row of a price update.
pub fn model_price_row(
    workspace_id: &str,
    model: &str,
    input_per_million_minor: i64,
    output_per_million_minor: i64,
    input_per_million_nanos: i64,
    output_per_million_nanos: i64,
) -> (r: NewLlmModelPrice)
    ensures
        r.workspace_id@ == workspace_id@,
        r.model@ == model@,
        r.input_per_million_minor == input_per_million_minor,
        r.output_per_million_minor == output_per_million_minor,
        r.input_per_million_nanos == input_per_million_nanos,
        r.output_per_million_nanos == output_per_million_nanos,
{
    NewLlmModelPrice {
        workspace_id: workspace_id.to_owned(),
        model: model.to_owned(),
        input_per_million_minor,
        output_per_million_minor,
        input_per_million_nanos,
        output_per_million_nanos,
    }
}

// ---------------------------------------------------------------------------
// Usage buckets
// ---------------------------------------------------------------------------

/// How usage is bucketed.
#[derive(Debug, Clone, Copy, PartialEq, Eq, Structural)]
pub enum LlmUsageGroupBy {
    Day,
    Principal,
    Model,
}

/// What bucketing reads of a usage event; `day` is its UTC date written
/// `YYYY-MM-DD`.
#[derive(Debug, Clone, PartialEq, Eq)]
pub struct LlmUsageFacts {
    pub principal_id: String,
    pub model: String,
    /// When the call took effect, in milliseconds since the epoch.
    pub effective_at: i64,
    pub prompt_tokens: i64,
    pub completion_tokens: i64,
    pub cost_nanos: i64,
}

/// The usage of one bucket.
#[derive(Debug, Clone, PartialEq, Eq)]
pub struct LlmUsageBucketRow {
    pub key: String,
    pub prompt_tokens: i64,
    pub completion_tokens: i64,
    pub cost_minor: i64,
    pub cost_nanos: i64,
    pub calls: i64,
    pub unpriced: Option<bool>,
}

/// The bucket an event falls in.
pub open spec fn usage_key(e: LlmUsageFacts, g: LlmUsageGroupBy) -> Seq<char> {
    match g {
        LlmUsageGroupBy::Day => spec_utc_date_text(e.effective_at),
        LlmUsageGroupBy::Principal => e.principal_id@,
        LlmUsageGroupBy::Model => e.model@,
    }
}

/// A model's call that used tokens but cost nothing: the model has no
/// price.
pub open spec fn unpriced_call(e: LlmUsageFacts, g: LlmUsageGroupBy) -> bool {
    g == LlmUsageGroupBy::Model && e.cost_nanos == 0 && saturate_i64(
        e.prompt_tokens + e.completion_tokens,
    ) > 0
}

/// The totals of bucket `k`: saturating sums of prompt tokens, completion
/// tokens and cost, the number of calls, and whether an unpriced call
/// fell in it.
pub open spec fn bucket_totals(es: Seq<LlmUsageFacts>, g: LlmUsageGroupBy, k: Seq<char>) -> (
    int,
    int,
    int,
    int,
    bool,
)
    decreases es.len(),
{
    if es.len() == 0 {
        (0, 0, 0, 0, false)
    } else {
        let t = bucket_totals(es.drop_last(), g, k);
        let e = es.last();
        if usage_key(e, g) == k {
            (
                saturate_i64(t.0 + e.prompt_tokens),
                saturate_i64(t.1 + e.completion_tokens),
                saturate_i64(t.2 + e.cost_nanos),
                t.3 + 1,
                t.4 || unpriced_call(e, g),
            )
        } else {
            t
        }
    }
}

/// A bucket row holds its key's totals, its cost also in minor units.
pub open spec fn bucket_row_holds(row: LlmUsageBucketRow, es: Seq<LlmUsageFacts>, g: LlmUsageGroupBy) -> bool {
    let t = bucket_totals(es, g, row.key@);
    &&& row.prompt_tokens == t.0
    &&& row.completion_tokens == t.1
    &&& row.cost_nanos == t.2
    &&& row.cost_minor == trunc_div(t.2, NANOS_PER_MINOR as int)
    &&& row.calls == t.3
    &&& row.unpriced == if t.4 {
        Some(true)
    } else {
        None
    }
}

proof fn lemma_bucket_bounds(es: Seq<LlmUsageFacts>, g: LlmUsageGroupBy, k: Seq<char>)
    ensures
        i64::MIN <= bucket_totals(es, g, k).0 <= i64::MAX,
        i64::MIN <= bucket_totals(es, g, k).1 <= i64::MAX,
        i64::MIN <= bucket_totals(es, g, k).2 <= i64::MAX,
        0 <= bucket_totals(es, g, k).3 <= es.len(),
    decreases es.len(),
{
    if es.len() > 0 {
        lemma_bucket_bounds(es.drop_last(), g, k);
    }
}

/// An event whose day can be computed: its instant is in the calendar's
/// range.
pub open spec fn dated(e: LlmUsageFacts) -> bool {
    -MAX_INSTANT_MILLIS <= e.effective_at <= MAX_INSTANT_MILLIS
}

fn key_of(e: &LlmUsageFacts, g: LlmUsageGroupBy) -> (r: String)
    requires
        g == LlmUsageGroupBy::Day ==> dated(*e),
    ensures
        r@ == usage_key(*e, g),
{
    match g {
        LlmUsageGroupBy::Day => utc_date_text(e.effective_at),
        LlmUsageGroupBy::Principal => e.principal_id.clone(),
        LlmUsageGroupBy::Model => e.model.clone(),
    }
}

fn bucket_for(events: &Vec<LlmUsageFacts>, keys: &Vec<String>, g: LlmUsageGroupBy, key: &String) -> (r: LlmUsageBucketRow)
    requires
        events.len() <= i64::MAX,
        keys.len() == events.len(),
        forall|j: int| 0 <= j < events.len() ==> (#[trigger] keys@[j])@ == usage_key(events@[j], g),
    ensures
        r.key == *key,
        bucket_row_holds(r, events@, g),
{
    let mut prompt: i64 = 0;
    let mut completion: i64 = 0;
    let mut nanos: i64 = 0;
    let mut calls: i64 = 0;
    let mut unpriced = false;
    let mut i: usize = 0;
    while i < events.len()
        invariant
            keys.len() == events.len(),
            forall|j: int| 0 <= j < events.len() ==> (#[trigger] keys@[j])@ == usage_key(events@[j], g),
            i <= events.len() <= i64::MAX,
            (prompt as int, completion as int, nanos as int, calls as int, unpriced) == bucket_totals(
                events@.take(i as int),
                g,
                key@,
            ),
            0 <= calls <= i,
        decreases events.len() - i,
    {
        proof {
            assert(events@.take(i + 1).drop_last() =~= events@.take(i as int));
            assert(events@.take(i + 1).last() == events@[i as int]);
        }
        let e = &events[i];
        if keys[i] == *key {
            prompt = saturating_add_i64(prompt, e.prompt_tokens);
            completion = saturating_add_i64(completion, e.completion_tokens);
            nanos = saturating_add_i64(nanos, e.cost_nanos);
            calls = calls + 1;
            let used = saturating_add_i64(e.prompt_tokens, e.completion_tokens);
            if g == LlmUsageGroupBy::Model && e.cost_nanos == 0 && used > 0 {
                unpriced = true;
            }
        }
        i = i + 1;
    }
    proof {
        assert(events@.take(events.len() as int) =~= events@);
    }
    LlmUsageBucketRow {
        key: key.clone(),
        prompt_tokens: prompt,
        completion_tokens: completion,
        cost_minor: nanos_to_minor(nanos),
        cost_nanos: nanos,
        calls,
        unpriced: if unpriced {
            Some(true)
        } else {
            None
        },
    }
}

/// Some row is the bucket `t`.
pub open spec fn has_bucket(rows: Seq<LlmUsageBucketRow>, t: Seq<char>) -> bool {
    exists|i: int| 0 <= i < rows.len() && (#[trigger] rows[i]).key@ == t
}

/// Some event falls in bucket `t`.
pub open spec fn some_event_in(es: Seq<LlmUsageFacts>, g: LlmUsageGroupBy, t: Seq<char>) -> bool {
    exists|j: int| 0 <= j < es.len() && usage_key(#[trigger] es[j], g) == t
}

/// Usage in buckets: one row per bucket an event falls in, in increasing
/// order of key, each with its totals. The rows stand for an ordered map
/// from bucket key to totals: keys strictly increase, so none repeats.
pub fn grouped_usage(events: &Vec<LlmUsageFacts>, group_by: LlmUsageGroupBy) -> (rows: Vec<
    LlmUsageBucketRow,
>)
    requires
        events.len() <= i64::MAX,
        group_by == LlmUsageGroupBy::Day ==> forall|i: int| 0 <= i < events.len() ==> dated(#[trigger] events@[i]),
    ensures
        forall|a: int, b: int|
            #![trigger rows@[a], rows@[b]]
            0 <= a < b < rows.len() ==> text_lt(rows@[a].key@, rows@[b].key@),
        forall|t: Seq<char>| #[trigger] has_bucket(rows@, t) <==> some_event_in(events@, group_by, t),
        forall|i: int| 0 <= i < rows.len() ==> bucket_row_holds(#[trigger] rows@[i], events@, group_by),
{
    let mut keys: Vec<String> = Vec::new();
    let mut i: usize = 0;
    while i < events.len()
        invariant
            i <= events.len(),
            keys.len() == i,
            forall|j: int| 0 <= j < i ==> (#[trigger] keys@[j])@ == usage_key(events@[j], group_by),
            group_by == LlmUsageGroupBy::Day ==> forall|i: int| 0 <= i < events.len() ==> dated(#[trigger] events@[i]),
        decreases events.len() - i,
    {
        keys.push(key_of(&events[i], group_by));
        i = i + 1;
    }
    let sorted = sorted_distinct_texts(&keys);
    let mut rows: Vec<LlmUsageBucketRow> = Vec::new();
    let mut j: usize = 0;
    while j < sorted.len()
        invariant
            j <= sorted.len(),
            events.len() <= i64::MAX,
            rows.len() == j,
            forall|a: int| 0 <= a < j ==> (#[trigger] rows@[a]).key == sorted@[a],
            forall|a: int| 0 <= a < j ==> bucket_row_holds(#[trigger] rows@[a], events@, group_by),
            keys.len() == events.len(),
            forall|x: int| 0 <= x < events.len() ==> (#[trigger] keys@[x])@ == usage_key(events@[x], group_by),
        decreases sorted.len() - j,
    {
        rows.push(bucket_for(events, &keys, group_by, &sorted[j]));
        j = j + 1;
    }
    proof {
        assert forall|a: int, b: int|
            #![trigger rows@[a], rows@[b]]
            0 <= a < b < rows.len() implies text_lt(rows@[a].key@, rows@[b].key@) by {
            assert(rows@[a].key == sorted@[a] && rows@[b].key == sorted@[b]);
        }
        assert forall|t: Seq<char>| #[trigger] has_bucket(rows@, t) <==> some_event_in(
            events@,
            group_by,
            t,
        ) by {
            if exists|x: int| 0 <= x < rows.len() && (#[trigger] rows@[x]).key@ == t {
                let x = choose|x: int| 0 <= x < rows.len() && (#[trigger] rows@[x]).key@ == t;
                assert(sorted@[x]@ == t);
                assert(has_text(sorted@, t));
                assert(has_text(keys@, t));
                let y = choose|y: int| 0 <= y < keys@.len() && (#[trigger] keys@[y])@ == t;
                assert(usage_key(events@[y], group_by) == t);
            }
            if exists|y: int| 0 <= y < events.len() && usage_key(#[trigger] events@[y], group_by) == t {
                let y = choose|y: int| 0 <= y < events.len() && usage_key(#[trigger] events@[y], group_by) == t;
                assert(keys@[y]@ == t);
                assert(has_text(keys@, t));
                assert(has_text(sorted@, t));
                let x = choose|x: int| 0 <= x < sorted@.len() && (#[trigger] sorted@[x])@ == t;
                assert(rows@[x].key@ == t);
            }
        }
    }
    rows
}

} // verus!
