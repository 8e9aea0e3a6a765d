//! Analytics over human review outcomes: which traces a filter keeps, the
//! summary counts, and the per-workflow-step, per-policy, per-agent,
//! per-run-kind and per-reason rows, each counted by key and listed in
//! its order.

use vstd::prelude::*;
use crate::order::rows_sorted;
use crate::review::{
    HumanReviewOutcome, HumanReviewOutcomeCounts, HumanReviewWorkflowStepRow, HumanReviewGroupRow,
    HumanReviewPolicyRow, HumanReviewReasonRow, count_of, count_outcome, spec_is_human_intervention,
    is_human_intervention, sort_named_rows, sort_policy_rows, sort_reason_rows, policy_total,
};
use crate::tally::{Counts, KeyedDelta, KeyedTotal, is_tally, tally_by_key, unit_delta, total_for, counts_view};
use crate::text::same_text;
use crate::json::{JsonValue, field, json_text};
use crate::analytics::{
    payload_text, payload_string, trimmed_text, policy_ids, present_ids, triggered_entries,
    trace_agent, RunEventFields,
};
use crate::review::non_empty_string;

verus! {

/// The latest review of a trace.
#[derive(Debug, Clone, PartialEq, Eq)]
pub struct LatestReview {
    pub outcome: HumanReviewOutcome,
    pub reason_codes: Vec<String>,
}

/// A decision trace as review analytics sees it: its agent (or `unknown`),
/// its run kind (or `ungrouped`), its workflow step (or `unlabeled`), the
/// policies it is attributed to, its decision, and its latest review.
#[derive(Debug, Clone, PartialEq, Eq)]
pub struct ReviewTrace {
    pub agent_id: String,
    pub run_kind: String,
    pub workflow_step: String,
    pub policies: Vec<String>,
    pub decision: String,
    pub latest: Option<LatestReview>,
}

/// Which traces the analytics cover.
#[derive(Debug, Clone, Default, PartialEq, Eq)]
pub struct HumanReviewAnalyticsFilter {
    pub agent_id: Option<String>,
    pub policy_id: Option<String>,
    pub run_kind: Option<String>,
    pub workflow_step: Option<String>,
}

/// A trace passes the filter when every set criterion holds: the same
/// agent, run kind and workflow step, and the policy among its policies.
pub open spec fn filter_keeps(f: HumanReviewAnalyticsFilter, t: ReviewTrace) -> bool {
    &&& (f.agent_id matches Some(a) ==> a@ == t.agent_id@)
    &&& (f.run_kind matches Some(k) ==> k@ == t.run_kind@)
    &&& (f.workflow_step matches Some(w) ==> w@ == t.workflow_step@)
    &&& (f.policy_id matches Some(p) ==> exists|i: int|
        0 <= i < t.policies@.len() && (#[trigger] t.policies@[i])@ == p@)
}

fn same_opt(want: &Option<String>, have: &str) -> (r: bool)
    ensures
        r == (want matches Some(a) ==> a@ == have@),
{
    match want {
        None => true,
        Some(a) => a.as_str().to_owned() == have.to_owned(),
    }
}

fn lists_text(v: &Vec<String>, x: &String) -> (r: bool)
    ensures
        r == exists|i: int| 0 <= i < v@.len() && (#[trigger] v@[i])@ == x@,
{
    let mut i: usize = 0;
    while i < v.len()
        invariant
            i <= v.len(),
            forall|j: int| 0 <= j < i ==> (#[trigger] v@[j])@ != x@,
        decreases v.len() - i,
    {
        if v[i] == *x {
            return true;
        }
        i = i + 1;
    }
    false
}

impl HumanReviewAnalyticsFilter {
    /// Whether the filter keeps a trace with this agent, run kind,
    /// workflow step and policies.
    pub fn matches(&self, agent_id: &str, run_kind: &str, workflow_step: &str, policy_ids: &Vec<String>) -> (r: bool)
        ensures
            r == ((self.agent_id matches Some(a) ==> a@ == agent_id@)
                && (self.run_kind matches Some(k) ==> k@ == run_kind@)
                && (self.workflow_step matches Some(w) ==> w@ == workflow_step@)
                && (self.policy_id matches Some(p) ==> exists|i: int|
                    0 <= i < policy_ids@.len() && (#[trigger] policy_ids@[i])@ == p@)),
    {
        if !same_opt(&self.agent_id, agent_id) || !same_opt(&self.run_kind, run_kind)
            || !same_opt(&self.workflow_step, workflow_step) {
            return false;
        }
        match &self.policy_id {
            None => true,
            Some(p) => lists_text(policy_ids, p),
        }
    }
}

/// The traces the filter keeps, in order.
pub open spec fn kept(ts: Seq<ReviewTrace>, f: HumanReviewAnalyticsFilter) -> Seq<ReviewTrace>
    decreases ts.len(),
{
    if ts.len() == 0 {
        Seq::empty()
    } else if filter_keeps(f, ts.last()) {
        kept(ts.drop_last(), f).push(ts.last())
    } else {
        kept(ts.drop_last(), f)
    }
}

/// Decisions that intervene automatically.
pub open spec fn is_automated(decision: Seq<char>) -> bool {
    decision == "deny"@ || decision == "transform"@ || decision == "require_approval"@ || decision
        == "defer"@
}

/// 1 if `b`, else 0.
pub open spec fn ind(b: bool) -> int {
    if b {
        1
    } else {
        0
    }
}

/// The headline counts of review analytics.
#[derive(Debug, Clone, Copy, Default, PartialEq, Eq, Structural)]
pub struct HumanReviewAnalyticsSummary {
    pub trace_count: i64,
    pub automated_intervention_count: i64,
    pub human_review_count: i64,
    pub human_intervention_count: i64,
}

/// The summary of kept traces: all of them, those with an automated
/// intervention, those reviewed, and those whose review intervened.
pub open spec fn summary_of(ts: Seq<ReviewTrace>) -> (int, int, int, int)
    decreases ts.len(),
{
    if ts.len() == 0 {
        (0, 0, 0, 0)
    } else {
        let s = summary_of(ts.drop_last());
        let t = ts.last();
        (
            s.0 + 1,
            s.1 + ind(is_automated(t.decision@)),
            s.2 + ind(t.latest is Some),
            s.3 + ind(t.latest matches Some(l) && spec_is_human_intervention(l.outcome)),
        )
    }
}

/// The outcome counts of the reviews of kept traces.
pub open spec fn outcome_count(ts: Seq<ReviewTrace>, o: HumanReviewOutcome) -> int
    decreases ts.len(),
{
    if ts.len() == 0 {
        0
    } else {
        outcome_count(ts.drop_last(), o) + ind(ts.last().latest matches Some(l) && l.outcome == o)
    }
}

/// The delta of 0/1 counters.
pub open spec fn delta4(a: bool, b: bool, c: bool, d: bool) -> Counts {
    Counts { c0: ind(a) as i64, c1: ind(b) as i64, c2: ind(c) as i64, c3: ind(d) as i64, c4: 0 }
}

/// Per workflow step of reviewed traces: reviews, corrections, rejections
/// and false positives.
pub open spec fn workflow_events(ts: Seq<ReviewTrace>) -> Seq<KeyedDelta>
    decreases ts.len(),
{
    if ts.len() == 0 {
        Seq::empty()
    } else {
        let rest = workflow_events(ts.drop_last());
        let t = ts.last();
        match t.latest {
            None => rest,
            Some(l) => rest.push(
                KeyedDelta {
                    key: t.workflow_step,
                    delta: delta4(
                        true,
                        l.outcome == HumanReviewOutcome::Corrected,
                        l.outcome == HumanReviewOutcome::Rejected,
                        l.outcome == HumanReviewOutcome::FalsePositive,
                    ),
                },
            ),
        }
    }
}

/// Per agent (`by_run_kind` false) or run kind (true) of reviewed traces:
/// reviews and interventions.
pub open spec fn group_events(ts: Seq<ReviewTrace>, by_run_kind: bool) -> Seq<KeyedDelta>
    decreases ts.len(),
{
    if ts.len() == 0 {
        Seq::empty()
    } else {
        let rest = group_events(ts.drop_last(), by_run_kind);
        let t = ts.last();
        match t.latest {
            None => rest,
            Some(l) => rest.push(
                KeyedDelta {
                    key: if by_run_kind {
                        t.run_kind
                    } else {
                        t.agent_id
                    },
                    delta: delta4(true, spec_is_human_intervention(l.outcome), false, false),
                },
            ),
        }
    }
}

/// The policy increments of one trace: for each of its policies, an
/// escalation when it required approval, and its review's correction or
/// false positive.
pub open spec fn trace_policy_events(t: ReviewTrace) -> Seq<KeyedDelta> {
    let d = delta4(
        t.decision@ == "require_approval"@,
        t.latest matches Some(l) && l.outcome == HumanReviewOutcome::Corrected,
        t.latest matches Some(l) && l.outcome == HumanReviewOutcome::FalsePositive,
        false,
    );
    t.policies@.map_values(|p: String| KeyedDelta { key: p, delta: d })
}

/// The policy increments of kept traces.
pub open spec fn policy_events(ts: Seq<ReviewTrace>) -> Seq<KeyedDelta>
    decreases ts.len(),
{
    if ts.len() == 0 {
        Seq::empty()
    } else {
        policy_events(ts.drop_last()) + trace_policy_events(ts.last())
    }
}

/// The reason increments of one trace: one per reason code of its review.
pub open spec fn trace_reason_events(t: ReviewTrace) -> Seq<KeyedDelta> {
    match t.latest {
        None => Seq::empty(),
        Some(l) => l.reason_codes@.map_values(
            |c: String| KeyedDelta { key: c, delta: delta4(true, false, false, false) },
        ),
    }
}

/// The reason increments of kept traces.
pub open spec fn reason_events(ts: Seq<ReviewTrace>) -> Seq<KeyedDelta>
    decreases ts.len(),
{
    if ts.len() == 0 {
        Seq::empty()
    } else {
        reason_events(ts.drop_last()) + trace_reason_events(ts.last())
    }
}

/// A workflow row from a keyed total.
pub open spec fn workflow_row(k: KeyedTotal) -> HumanReviewWorkflowStepRow {
    HumanReviewWorkflowStepRow {
        workflow_step: k.key,
        human_review_count: k.totals.c0,
        corrected_count: k.totals.c1,
        rejected_count: k.totals.c2,
        false_positive_count: k.totals.c3,
    }
}

/// A group row from a keyed total.
pub open spec fn group_row(k: KeyedTotal) -> HumanReviewGroupRow {
    HumanReviewGroupRow {
        group: k.key,
        human_review_count: k.totals.c0,
        human_intervention_count: k.totals.c1,
    }
}

/// A policy row from a keyed total.
pub open spec fn policy_row(k: KeyedTotal) -> HumanReviewPolicyRow {
    HumanReviewPolicyRow {
        policy_id: k.key,
        escalation_count: k.totals.c0,
        corrected_count: k.totals.c1,
        false_positive_count: k.totals.c2,
    }
}

/// A reason row from a keyed total.
pub open spec fn reason_row(k: KeyedTotal) -> HumanReviewReasonRow {
    HumanReviewReasonRow { reason_code: k.key, count: k.totals.c0 }
}

pub open spec fn workflow_rows(t: Seq<KeyedTotal>) -> Seq<HumanReviewWorkflowStepRow> {
    t.map_values(|k: KeyedTotal| workflow_row(k))
}

pub open spec fn group_rows(t: Seq<KeyedTotal>) -> Seq<HumanReviewGroupRow> {
    t.map_values(|k: KeyedTotal| group_row(k))
}

pub open spec fn reason_rows(t: Seq<KeyedTotal>) -> Seq<HumanReviewReasonRow> {
    t.map_values(|k: KeyedTotal| reason_row(k))
}

/// The policy rows of totals that drew any attention, in order.
pub open spec fn attended_policy_rows(t: Seq<KeyedTotal>) -> Seq<HumanReviewPolicyRow>
    decreases t.len(),
{
    if t.len() == 0 {
        Seq::empty()
    } else if policy_total(policy_row(t.last())) > 0 {
        attended_policy_rows(t.drop_last()).push(policy_row(t.last()))
    } else {
        attended_policy_rows(t.drop_last())
    }
}

/// Review analytics.
#[derive(Debug, Clone, PartialEq, Eq)]
pub struct HumanReviewAnalytics {
    pub summary: HumanReviewAnalyticsSummary,
    pub outcomes: HumanReviewOutcomeCounts,
    pub by_workflow_step: Vec<HumanReviewWorkflowStepRow>,
    pub by_policy: Vec<HumanReviewPolicyRow>,
    pub by_agent: Vec<HumanReviewGroupRow>,
    pub by_run_kind: Vec<HumanReviewGroupRow>,
    pub top_reasons: Vec<HumanReviewReasonRow>,
}

/// The counts fit in `i64`: there are at most `i64::MAX` policy and reason
/// references among the traces.
pub open spec fn analytics_fit(ts: Seq<ReviewTrace>) -> bool {
    &&& ts.len() <= i64::MAX
    &&& policy_events(ts).len() <= i64::MAX
    &&& reason_events(ts).len() <= i64::MAX
}

/// The traces of `ts` at workflow step `step` whose latest review has
/// outcome `o`.
pub open spec fn step_reviews_with(ts: Seq<ReviewTrace>, step: Seq<char>, o: HumanReviewOutcome) -> Seq<
    ReviewTrace,
> {
    ts.filter(|t: ReviewTrace| t.workflow_step@ == step && (t.latest matches Some(l) && l.outcome == o))
}

/// The traces of `ts` at workflow step `step` that have been reviewed.
pub open spec fn step_reviews(ts: Seq<ReviewTrace>, step: Seq<char>) -> Seq<ReviewTrace> {
    ts.filter(|t: ReviewTrace| t.workflow_step@ == step && t.latest is Some)
}

proof fn lemma_workflow_totals(ts: Seq<ReviewTrace>, step: Seq<char>)
    ensures
        total_for(workflow_events(ts), step) == (
            step_reviews(ts, step).len() as int,
            step_reviews_with(ts, step, HumanReviewOutcome::Corrected).len() as int,
            step_reviews_with(ts, step, HumanReviewOutcome::Rejected).len() as int,
            step_reviews_with(ts, step, HumanReviewOutcome::FalsePositive).len() as int,
            0int,
        ),
    decreases ts.len(),
{
    reveal(Seq::filter);
    if ts.len() > 0 {
        lemma_workflow_totals(ts.drop_last(), step);
        let rest = workflow_events(ts.drop_last());
        match ts.last().latest {
            None => {},
            Some(l) => {
                let e = KeyedDelta {
                    key: ts.last().workflow_step,
                    delta: delta4(
                        true,
                        l.outcome == HumanReviewOutcome::Corrected,
                        l.outcome == HumanReviewOutcome::Rejected,
                        l.outcome == HumanReviewOutcome::FalsePositive,
                    ),
                };
                assert(rest.push(e).drop_last() =~= rest);
            },
        }
    }
}

/// The workflow-step rows count, for each step, the kept traces reviewed at
/// that step, and among them those whose latest review corrected, rejected
/// or flagged a false positive; so every such row holds exactly the reviews
/// of its step with its own outcome.
pub proof fn law_workflow_step_counts(
    ks: Seq<ReviewTrace>,
    t: Seq<KeyedTotal>,
    rows: Seq<HumanReviewWorkflowStepRow>,
)
    requires
        is_tally(t, workflow_events(ks)),
        rows.to_multiset() == workflow_rows(t).to_multiset(),
    ensures
        forall|i: int|
            0 <= i < rows.len() ==> {
                let r = #[trigger] rows[i];
                &&& r.human_review_count == step_reviews(ks, r.workflow_step@).len()
                &&& r.corrected_count == step_reviews_with(
                    ks,
                    r.workflow_step@,
                    HumanReviewOutcome::Corrected,
                ).len()
                &&& r.rejected_count == step_reviews_with(
                    ks,
                    r.workflow_step@,
                    HumanReviewOutcome::Rejected,
                ).len()
                &&& r.false_positive_count == step_reviews_with(
                    ks,
                    r.workflow_step@,
                    HumanReviewOutcome::FalsePositive,
                ).len()
            },
{
    broadcast use vstd::seq_lib::group_to_multiset_ensures;

    let w = workflow_rows(t);
    assert forall|i: int| 0 <= i < rows.len() implies {
        let r = #[trigger] rows[i];
        &&& r.human_review_count == step_reviews(ks, r.workflow_step@).len()
        &&& r.corrected_count == step_reviews_with(ks, r.workflow_step@, HumanReviewOutcome::Corrected).len()
        &&& r.rejected_count == step_reviews_with(ks, r.workflow_step@, HumanReviewOutcome::Rejected).len()
        &&& r.false_positive_count == step_reviews_with(
            ks,
            r.workflow_step@,
            HumanReviewOutcome::FalsePositive,
        ).len()
    } by {
        assert(rows.to_multiset().count(rows[i]) > 0);
        assert(w.contains(rows[i]));
        let a = choose|a: int| 0 <= a < w.len() && w[a] == rows[i];
        assert(w[a] == workflow_row(t[a]));
        lemma_workflow_totals(ks, t[a].key@);
    }
}

/// The summary and outcome counts select their own traces: the automated
/// interventions are the traces denied, transformed, sent for approval or
/// deferred; the reviews are the traces with a latest review; the human
/// interventions are those whose latest review corrected, rejected or found
/// a missed issue; each outcome count is the traces with that outcome.
pub proof fn law_review_summary_selects(ts: Seq<ReviewTrace>, o: HumanReviewOutcome)
    ensures
        summary_of(ts).0 == ts.len(),
        summary_of(ts).1 == ts.filter(
            |t: ReviewTrace|
                t.decision@ == "deny"@ || t.decision@ == "transform"@ || t.decision@
                    == "require_approval"@ || t.decision@ == "defer"@,
        ).len(),
        summary_of(ts).2 == ts.filter(|t: ReviewTrace| t.latest is Some).len(),
        summary_of(ts).3 == ts.filter(
            |t: ReviewTrace|
                t.latest matches Some(l) && (l.outcome == HumanReviewOutcome::Corrected || l.outcome
                    == HumanReviewOutcome::Rejected || l.outcome == HumanReviewOutcome::MissedIssue),
        ).len(),
        outcome_count(ts, o) == ts.filter(|t: ReviewTrace| t.latest matches Some(l) && l.outcome == o).len(),
    decreases ts.len(),
{
    reveal(Seq::filter);
    if ts.len() > 0 {
        law_review_summary_selects(ts.drop_last(), o);
    }
}

/// The traces of `ts` reviewed whose agent (`by_run_kind` false) or run
/// kind (true) is `key`.
pub open spec fn group_reviews(ts: Seq<ReviewTrace>, by_run_kind: bool, key: Seq<char>) -> Seq<ReviewTrace> {
    ts.filter(
        |t: ReviewTrace|
            (if by_run_kind {
                t.run_kind@
            } else {
                t.agent_id@
            }) == key && t.latest is Some,
    )
}

/// Among [`group_reviews`], those whose latest review corrected, rejected
/// or found a missed issue.
pub open spec fn group_interventions(ts: Seq<ReviewTrace>, by_run_kind: bool, key: Seq<char>) -> Seq<
    ReviewTrace,
> {
    ts.filter(
        |t: ReviewTrace|
            (if by_run_kind {
                t.run_kind@
            } else {
                t.agent_id@
            }) == key && (t.latest matches Some(l) && (l.outcome == HumanReviewOutcome::Corrected
                || l.outcome == HumanReviewOutcome::Rejected || l.outcome
                == HumanReviewOutcome::MissedIssue)),
    )
}

proof fn lemma_group_totals(ts: Seq<ReviewTrace>, by_run_kind: bool, key: Seq<char>)
    ensures
        total_for(group_events(ts, by_run_kind), key) == (
            group_reviews(ts, by_run_kind, key).len() as int,
            group_interventions(ts, by_run_kind, key).len() as int,
            0int,
            0int,
            0int,
        ),
    decreases ts.len(),
{
    reveal(Seq::filter);
    if ts.len() > 0 {
        lemma_group_totals(ts.drop_last(), by_run_kind, key);
        let rest = group_events(ts.drop_last(), by_run_kind);
        match ts.last().latest {
            None => {},
            Some(l) => {
                let t = ts.last();
                let e = KeyedDelta {
                    key: if by_run_kind {
                        t.run_kind
                    } else {
                        t.agent_id
                    },
                    delta: delta4(true, spec_is_human_intervention(l.outcome), false, false),
                };
                assert(rest.push(e).drop_last() =~= rest);
            },
        }
    }
}

/// The per-agent (`by_run_kind` false) and per-run-kind (true) rows count,
/// for each agent or run kind, the kept traces of it that were reviewed and
/// those whose latest review was a human intervention.
pub proof fn law_group_counts(
    ks: Seq<ReviewTrace>,
    by_run_kind: bool,
    t: Seq<KeyedTotal>,
    rows: Seq<HumanReviewGroupRow>,
)
    requires
        is_tally(t, group_events(ks, by_run_kind)),
        rows.to_multiset() == group_rows(t).to_multiset(),
    ensures
        forall|i: int|
            0 <= i < rows.len() ==> {
                let r = #[trigger] rows[i];
                &&& r.human_review_count == group_reviews(ks, by_run_kind, r.group@).len()
                &&& r.human_intervention_count == group_interventions(ks, by_run_kind, r.group@).len()
            },
{
    broadcast use vstd::seq_lib::group_to_multiset_ensures;

    let w = group_rows(t);
    assert forall|i: int| 0 <= i < rows.len() implies {
        let r = #[trigger] rows[i];
        &&& r.human_review_count == group_reviews(ks, by_run_kind, r.group@).len()
        &&& r.human_intervention_count == group_interventions(ks, by_run_kind, r.group@).len()
    } by {
        assert(rows.to_multiset().count(rows[i]) > 0);
        assert(w.contains(rows[i]));
        let a = choose|a: int| 0 <= a < w.len() && w[a] == rows[i];
        assert(w[a] == group_row(t[a]));
        lemma_group_totals(ks, by_run_kind, t[a].key@);
    }
}

/// Every reviewed trace has one latest outcome: the six outcome counts add
/// up to the number of reviewed traces, and the human interventions are the
/// corrected, rejected and missed-issue reviews.
pub proof fn law_outcomes_add_up(ts: Seq<ReviewTrace>)
    ensures
        outcome_count(ts, HumanReviewOutcome::Accepted) + outcome_count(ts, HumanReviewOutcome::Corrected)
            + outcome_count(ts, HumanReviewOutcome::Rejected) + outcome_count(
            ts,
            HumanReviewOutcome::FalsePositive,
        ) + outcome_count(ts, HumanReviewOutcome::MissedIssue) + outcome_count(
            ts,
            HumanReviewOutcome::Ignored,
        ) == summary_of(ts).2,
        summary_of(ts).3 == outcome_count(ts, HumanReviewOutcome::Corrected) + outcome_count(
            ts,
            HumanReviewOutcome::Rejected,
        ) + outcome_count(ts, HumanReviewOutcome::MissedIssue),
    decreases ts.len(),
{
    if ts.len() > 0 {
        law_outcomes_add_up(ts.drop_last());
    }
}

proof fn lemma_kept_prefix(ts: Seq<ReviewTrace>, f: HumanReviewAnalyticsFilter)
    ensures
        kept(ts, f).len() <= ts.len(),
        policy_events(kept(ts, f)).len() <= policy_events(ts).len(),
        reason_events(kept(ts, f)).len() <= reason_events(ts).len(),
    decreases ts.len(),
{
    if ts.len() > 0 {
        let init = ts.drop_last();
        lemma_kept_prefix(init, f);
        if filter_keeps(f, ts.last()) {
            let k = kept(ts, f);
            assert(k.drop_last() =~= kept(init, f));
            assert(policy_events(k) == policy_events(kept(init, f)) + trace_policy_events(ts.last()));
            assert(reason_events(k) == reason_events(kept(init, f)) + trace_reason_events(ts.last()));
        }
    }
}

proof fn lemma_summary_bounded(ts: Seq<ReviewTrace>)
    ensures
        summary_of(ts).0 == ts.len(),
        0 <= summary_of(ts).1 <= ts.len(),
        0 <= summary_of(ts).2 <= ts.len(),
        0 <= summary_of(ts).3 <= ts.len(),
        forall|o: HumanReviewOutcome| 0 <= #[trigger] outcome_count(ts, o) <= ts.len(),
        workflow_events(ts).len() <= ts.len(),
        group_events(ts, true).len() <= ts.len(),
        group_events(ts, false).len() <= ts.len(),
    decreases ts.len(),
{
    if ts.len() > 0 {
        lemma_summary_bounded(ts.drop_last());
        assert forall|o: HumanReviewOutcome| 0 <= #[trigger] outcome_count(ts, o) <= ts.len() by {
            assert(0 <= outcome_count(ts.drop_last(), o) <= ts.len() - 1);
        }
    }
}

/// The units of every event sequence built here are 0/1 increments.
proof fn lemma_events_unit(ts: Seq<ReviewTrace>)
    ensures
        forall|i: int| 0 <= i < workflow_events(ts).len() ==> unit_delta(#[trigger] workflow_events(ts)[i].delta),
        forall|i: int| 0 <= i < group_events(ts, true).len() ==> unit_delta(#[trigger] group_events(ts, true)[i].delta),
        forall|i: int| 0 <= i < group_events(ts, false).len() ==> unit_delta(#[trigger] group_events(ts, false)[i].delta),
        forall|i: int| 0 <= i < policy_events(ts).len() ==> unit_delta(#[trigger] policy_events(ts)[i].delta),
        forall|i: int| 0 <= i < reason_events(ts).len() ==> unit_delta(#[trigger] reason_events(ts)[i].delta),
    decreases ts.len(),
{
    if ts.len() > 0 {
        lemma_events_unit(ts.drop_last());
        let init = ts.drop_last();
        assert forall|i: int| 0 <= i < policy_events(ts).len() implies unit_delta(#[trigger] policy_events(ts)[i].delta) by {
            if i < policy_events(init).len() {
                assert(policy_events(ts)[i] == policy_events(init)[i]);
            } else {
                assert(policy_events(ts)[i] == trace_policy_events(ts.last())[i - policy_events(init).len()]);
            }
        }
        assert forall|i: int| 0 <= i < reason_events(ts).len() implies unit_delta(#[trigger] reason_events(ts)[i].delta) by {
            if i < reason_events(init).len() {
                assert(reason_events(ts)[i] == reason_events(init)[i]);
            } else {
                assert(reason_events(ts)[i] == trace_reason_events(ts.last())[i - reason_events(init).len()]);
            }
        }
        assert forall|i: int| 0 <= i < workflow_events(ts).len() implies unit_delta(#[trigger] workflow_events(ts)[i].delta) by {
            if i < workflow_events(init).len() {
                assert(workflow_events(ts)[i] == workflow_events(init)[i]);
            }
        }
        assert forall|i: int| 0 <= i < group_events(ts, true).len() implies unit_delta(#[trigger] group_events(ts, true)[i].delta) by {
            if i < group_events(init, true).len() {
                assert(group_events(ts, true)[i] == group_events(init, true)[i]);
            }
        }
        assert forall|i: int| 0 <= i < group_events(ts, false).len() implies unit_delta(#[trigger] group_events(ts, false)[i].delta) by {
            if i < group_events(init, false).len() {
                assert(group_events(ts, false)[i] == group_events(init, false)[i]);
            }
        }
    }
}

fn delta_of(a: bool, b: bool, c: bool, d: bool) -> (r: Counts)
    ensures
        r == delta4(a, b, c, d),
{
    Counts {
        c0: if a { 1 } else { 0 },
        c1: if b { 1 } else { 0 },
        c2: if c { 1 } else { 0 },
        c3: if d { 1 } else { 0 },
        c4: 0,
    }
}

/// The counts and event sequences of the traces a filter keeps.
struct Collected {
    summary: HumanReviewAnalyticsSummary,
    outcomes: HumanReviewOutcomeCounts,
    workflow: Vec<KeyedDelta>,
    agents: Vec<KeyedDelta>,
    run_kinds: Vec<KeyedDelta>,
    policies: Vec<KeyedDelta>,
    reasons: Vec<KeyedDelta>,
}

fn push_keyed(out: &mut Vec<KeyedDelta>, keys: &Vec<String>, d: Counts)
    ensures
        final(out)@ == old(out)@ + keys@.map_values(|p: String| KeyedDelta { key: p, delta: d }),
{
    let ghost start = out@;
    let mut j: usize = 0;
    while j < keys.len()
        invariant
            j <= keys.len(),
            out@ == start + keys@.take(j as int).map_values(|p: String| KeyedDelta { key: p, delta: d }),
        decreases keys.len() - j,
    {
        out.push(KeyedDelta { key: keys[j].clone(), delta: d });
        assert(keys@.take(j + 1).map_values(|p: String| KeyedDelta { key: p, delta: d })
            =~= keys@.take(j as int).map_values(|p: String| KeyedDelta { key: p, delta: d }).push(
            KeyedDelta { key: keys@[j as int], delta: d },
        ));
        j = j + 1;
    }
    assert(keys@.take(keys.len() as int) =~= keys@);
}

/// The invariant of the collecting pass over the kept traces `ks`.
spec fn collected_for(c: Collected, ks: Seq<ReviewTrace>) -> bool {
    &&& (c.summary.trace_count as int, c.summary.automated_intervention_count as int,
        c.summary.human_review_count as int, c.summary.human_intervention_count as int)
        == summary_of(ks)
    &&& forall|o: HumanReviewOutcome| #[trigger] count_of(c.outcomes, o) == outcome_count(ks, o)
    &&& c.workflow@ == workflow_events(ks)
    &&& c.agents@ == group_events(ks, false)
    &&& c.run_kinds@ == group_events(ks, true)
    &&& c.policies@ == policy_events(ks)
    &&& c.reasons@ == reason_events(ks)
}

fn collect(traces: &Vec<ReviewTrace>, filter: &HumanReviewAnalyticsFilter) -> (c: Collected)
    requires
        traces.len() <= i64::MAX,
    ensures
        collected_for(c, kept(traces@, *filter)),
{
    let mut c = Collected {
        summary: HumanReviewAnalyticsSummary {
            trace_count: 0,
            automated_intervention_count: 0,
            human_review_count: 0,
            human_intervention_count: 0,
        },
        outcomes: HumanReviewOutcomeCounts {
            accepted_count: 0,
            corrected_count: 0,
            rejected_count: 0,
            false_positive_count: 0,
            missed_issue_count: 0,
            ignored_count: 0,
        },
        workflow: Vec::new(),
        agents: Vec::new(),
        run_kinds: Vec::new(),
        policies: Vec::new(),
        reasons: Vec::new(),
    };
    let mut i: usize = 0;
    while i < traces.len()
        invariant
            i <= traces.len() <= i64::MAX,
            collected_for(c, kept(traces@.take(i as int), *filter)),
        decreases traces.len() - i,
    {
        let t = &traces[i];
        let ghost k0 = kept(traces@.take(i as int), *filter);
        proof {
            assert(traces@.take(i + 1).drop_last() =~= traces@.take(i as int));
            assert(traces@.take(i + 1).last() == *t);
            lemma_kept_prefix(traces@.take(i as int), *filter);
            lemma_summary_bounded(k0);
        }
        if filter.matches(t.agent_id.as_str(), t.run_kind.as_str(), t.workflow_step.as_str(), &t.policies) {
            let ghost k1 = k0.push(*t);
            assert(k1.drop_last() =~= k0);
            assert(k1.last() == *t);
            assert(kept(traces@.take(i + 1), *filter) == k1);
            c.summary.trace_count = c.summary.trace_count + 1;
            let d = t.decision.as_str();
            if same_text(d, "deny") || same_text(d, "transform") || same_text(d, "require_approval")
                || same_text(d, "defer") {
                c.summary.automated_intervention_count = c.summary.automated_intervention_count + 1;
            }
            let pd = delta_of(
                same_text(d, "require_approval"),
                match &t.latest {
                    Some(l) => l.outcome == HumanReviewOutcome::Corrected,
                    None => false,
                },
                match &t.latest {
                    Some(l) => l.outcome == HumanReviewOutcome::FalsePositive,
                    None => false,
                },
                false,
            );
            push_keyed(&mut c.policies, &t.policies, pd);
            match &t.latest {
                None => {},
                Some(l) => {
                    c.summary.human_review_count = c.summary.human_review_count + 1;
                    proof {
                        assert(0 <= outcome_count(k0, l.outcome) <= k0.len());
                    }
                    count_outcome(&mut c.outcomes, l.outcome);
                    if is_human_intervention(l.outcome) {
                        c.summary.human_intervention_count = c.summary.human_intervention_count + 1;
                    }
                    c.workflow.push(
                        KeyedDelta {
                            key: t.workflow_step.clone(),
                            delta: delta_of(
                                true,
                                l.outcome == HumanReviewOutcome::Corrected,
                                l.outcome == HumanReviewOutcome::Rejected,
                                l.outcome == HumanReviewOutcome::FalsePositive,
                            ),
                        },
                    );
                    let gd = delta_of(true, is_human_intervention(l.outcome), false, false);
                    c.agents.push(KeyedDelta { key: t.agent_id.clone(), delta: gd });
                    c.run_kinds.push(KeyedDelta { key: t.run_kind.clone(), delta: gd });
                    push_keyed(&mut c.reasons, &l.reason_codes, delta_of(true, false, false, false));
                },
            }
            proof {
                assert forall|o: HumanReviewOutcome| #[trigger] count_of(c.outcomes, o) == outcome_count(k1, o) by {
                    assert(outcome_count(k1, o) == outcome_count(k0, o) + ind(
                        t.latest matches Some(l) && l.outcome == o,
                    ));
                }
            }
        } else {
            assert(kept(traces@.take(i + 1), *filter) == k0);
        }
        i = i + 1;
    }
    assert(traces@.take(traces.len() as int) =~= traces@);
    c
}

fn to_workflow_rows(t: &Vec<KeyedTotal>) -> (r: Vec<HumanReviewWorkflowStepRow>)
    ensures
        r@ == workflow_rows(t@),
{
    let mut out: Vec<HumanReviewWorkflowStepRow> = Vec::new();
    let mut i: usize = 0;
    while i < t.len()
        invariant
            i <= t.len(),
            out@ == workflow_rows(t@.take(i as int)),
        decreases t.len() - i,
    {
        let k = &t[i];
        out.push(
            HumanReviewWorkflowStepRow {
                workflow_step: k.key.clone(),
                human_review_count: k.totals.c0,
                corrected_count: k.totals.c1,
                rejected_count: k.totals.c2,
                false_positive_count: k.totals.c3,
            },
        );
        assert(workflow_rows(t@.take(i + 1)) =~= workflow_rows(t@.take(i as int)).push(workflow_row(*k)));
        i = i + 1;
    }
    assert(t@.take(t.len() as int) =~= t@);
    out
}

fn to_group_rows(t: &Vec<KeyedTotal>) -> (r: Vec<HumanReviewGroupRow>)
    ensures
        r@ == group_rows(t@),
{
    let mut out: Vec<HumanReviewGroupRow> = Vec::new();
    let mut i: usize = 0;
    while i < t.len()
        invariant
            i <= t.len(),
            out@ == group_rows(t@.take(i as int)),
        decreases t.len() - i,
    {
        let k = &t[i];
        out.push(
            HumanReviewGroupRow {
                group: k.key.clone(),
                human_review_count: k.totals.c0,
                human_intervention_count: k.totals.c1,
            },
        );
        assert(group_rows(t@.take(i + 1)) =~= group_rows(t@.take(i as int)).push(group_row(*k)));
        i = i + 1;
    }
    assert(t@.take(t.len() as int) =~= t@);
    out
}

fn to_reason_rows(t: &Vec<KeyedTotal>) -> (r: Vec<HumanReviewReasonRow>)
    ensures
        r@ == reason_rows(t@),
{
    let mut out: Vec<HumanReviewReasonRow> = Vec::new();
    let mut i: usize = 0;
    while i < t.len()
        invariant
            i <= t.len(),
            out@ == reason_rows(t@.take(i as int)),
        decreases t.len() - i,
    {
        let k = &t[i];
        out.push(HumanReviewReasonRow { reason_code: k.key.clone(), count: k.totals.c0 });
        assert(reason_rows(t@.take(i + 1)) =~= reason_rows(t@.take(i as int)).push(reason_row(*k)));
        i = i + 1;
    }
    assert(t@.take(t.len() as int) =~= t@);
    out
}

fn to_attended_policy_rows(t: &Vec<KeyedTotal>) -> (r: Vec<HumanReviewPolicyRow>)
    ensures
        r@ == attended_policy_rows(t@),
{
    let mut out: Vec<HumanReviewPolicyRow> = Vec::new();
    let mut i: usize = 0;
    while i < t.len()
        invariant
            i <= t.len(),
            out@ == attended_policy_rows(t@.take(i as int)),
        decreases t.len() - i,
    {
        let k = &t[i];
        assert(t@.take(i + 1).drop_last() =~= t@.take(i as int));
        assert(t@.take(i + 1).last() == *k);
        let total: i128 = k.totals.c0 as i128 + k.totals.c1 as i128 + k.totals.c2 as i128;
        if total > 0 {
            out.push(
                HumanReviewPolicyRow {
                    policy_id: k.key.clone(),
                    escalation_count: k.totals.c0,
                    corrected_count: k.totals.c1,
                    false_positive_count: k.totals.c2,
                },
            );
        }
        i = i + 1;
    }
    assert(t@.take(t.len() as int) =~= t@);
    out
}

/// Review analytics over traces: the filter's traces counted in the
/// summary and by outcome; workflow steps, agents and run kinds of the
/// reviewed ones counted by key and listed by name; policies counted
/// (escalations of every kept trace, corrections and false positives of
/// reviewed ones), those with any attention listed most attended first;
/// reason codes counted and listed most frequent first. Rates are left to
/// the caller.
pub fn human_review_analytics(traces: &Vec<ReviewTrace>, filter: &HumanReviewAnalyticsFilter) -> (r:
    HumanReviewAnalytics)
    requires
        analytics_fit(traces@),
    ensures
        ({
            let ks = kept(traces@, *filter);
            &&& (r.summary.trace_count as int, r.summary.automated_intervention_count as int,
                r.summary.human_review_count as int, r.summary.human_intervention_count as int)
                == summary_of(ks)
            &&& forall|o: HumanReviewOutcome| #[trigger] count_of(r.outcomes, o) == outcome_count(ks, o)
            &&& exists|t: Seq<KeyedTotal>|
                is_tally(t, workflow_events(ks)) && #[trigger] r.by_workflow_step@.to_multiset()
                    == workflow_rows(t).to_multiset()
            &&& rows_sorted(r.by_workflow_step@)
            &&& exists|t: Seq<KeyedTotal>|
                is_tally(t, group_events(ks, false)) && #[trigger] r.by_agent@.to_multiset()
                    == group_rows(t).to_multiset()
            &&& rows_sorted(r.by_agent@)
            &&& exists|t: Seq<KeyedTotal>|
                is_tally(t, group_events(ks, true)) && #[trigger] r.by_run_kind@.to_multiset()
                    == group_rows(t).to_multiset()
            &&& rows_sorted(r.by_run_kind@)
            &&& exists|t: Seq<KeyedTotal>|
                is_tally(t, policy_events(ks)) && #[trigger] r.by_policy@.to_multiset()
                    == attended_policy_rows(t).to_multiset()
            &&& rows_sorted(r.by_policy@)
            &&& exists|t: Seq<KeyedTotal>|
                is_tally(t, reason_events(ks)) && #[trigger] r.top_reasons@.to_multiset()
                    == reason_rows(t).to_multiset()
            &&& rows_sorted(r.top_reasons@)
        }),
{
    let c = collect(traces, filter);
    proof {
        let ks = kept(traces@, *filter);
        lemma_kept_prefix(traces@, *filter);
        lemma_summary_bounded(ks);
        lemma_events_unit(ks);
    }
    let summary = c.summary;
    let outcomes = c.outcomes;
    let workflow_totals = tally_by_key(&c.workflow);
    let agent_totals = tally_by_key(&c.agents);
    let kind_totals = tally_by_key(&c.run_kinds);
    let policy_totals = tally_by_key(&c.policies);
    let reason_totals = tally_by_key(&c.reasons);
    let by_workflow_step = sort_named_rows(to_workflow_rows(&workflow_totals));
    let by_agent = sort_named_rows(to_group_rows(&agent_totals));
    let by_run_kind = sort_named_rows(to_group_rows(&kind_totals));
    let by_policy = sort_policy_rows(to_attended_policy_rows(&policy_totals));
    let top_reasons = sort_reason_rows(to_reason_rows(&reason_totals));
    HumanReviewAnalytics { summary, outcomes, by_workflow_step, by_policy, by_agent, by_run_kind, top_reasons }
}

/// The agent of a trace: its run's agent, else the agent named in its
/// payload, else `unknown`.
pub fn resolve_agent_id(run_agent: Option<String>, payload: &JsonValue) -> (r: String)
    ensures
        r@ == trace_agent(run_agent, *payload),
{
    match run_agent {
        Some(a) => a,
        None => match payload_string(payload, "agent_id") {
            Some(p) => p,
            None => "unknown".to_owned(),
        },
    }
}

/// The run kind of a trace, or `ungrouped` when it has no run.
pub fn resolve_run_kind(run_kind: Option<String>) -> (r: String)
    ensures
        r@ == match run_kind {
            Some(k) => k@,
            None => "ungrouped"@,
        },
{
    match run_kind {
        Some(k) => k,
        None => "ungrouped".to_owned(),
    }
}

/// The workflow step of a reviewed trace's event: the metadata's step or
/// the event label, trimmed and skipped when blank, else the event kind as
/// it is when not empty.
pub open spec fn review_step(step: Option<Seq<char>>, label: Option<Seq<char>>, kind: Seq<char>) -> Option<
    Seq<char>,
> {
    match payload_text(step) {
        Some(t) => Some(t),
        None => match payload_text(label) {
            Some(t) => Some(t),
            None => if kind.len() > 0 {
                Some(kind)
            } else {
                None
            },
        },
    }
}

/// The workflow step of a reviewed trace's event, from the event's kind,
/// label and metadata.
pub fn review_workflow_step(event_kind: &str, event_label: Option<&str>, metadata: &JsonValue) -> (r:
    Option<String>)
    ensures
        match review_step(
            json_text(field(*metadata, "workflow_step"@)),
            match event_label {
                None => None,
                Some(v) => Some(v@),
            },
            event_kind@,
        ) {
            None => r is None,
            Some(t) => r matches Some(s) && s@ == t,
        },
{
    match payload_string(metadata, "workflow_step") {
        Some(s) => Some(s),
        None => match trimmed_text(event_label) {
            Some(s) => Some(s),
            None => non_empty_string(event_kind),
        },
    }
}

/// The workflow step of a trace: that of its event, or `unlabeled`.
pub open spec fn trace_step(event: Option<RunEventFields>) -> Seq<char> {
    match event {
        Some(e) => match review_step(
            json_text(field(e.metadata, "workflow_step"@)),
            match e.label {
                None => None,
                Some(l) => Some(l@),
            },
            e.kind@,
        ) {
            Some(t) => t,
            None => "unlabeled"@,
        },
        None => "unlabeled"@,
    }
}

/// A decision trace as review analytics sees it, from the agent and kind of
/// its run (when it has one), its run event (when it has one), its decision,
/// its payload and its latest review.
pub fn review_trace(
    run: Option<(String, String)>,
    event: Option<&RunEventFields>,
    decision: String,
    payload: &JsonValue,
    latest: Option<LatestReview>,
) -> (r: ReviewTrace)
    ensures
        r.agent_id@ == trace_agent(
            match run {
                Some(x) => Some(x.0),
                None => None,
            },
            *payload,
        ),
        r.run_kind@ == match run {
            Some(x) => x.1@,
            None => "ungrouped"@,
        },
        r.workflow_step@ == trace_step(
            match event {
                Some(e) => Some(*e),
                None => None,
            },
        ),
        present_ids(triggered_entries(*payload)).len() > 0 ==> r.policies@.map_values(
            |s: String| s@,
        ) == present_ids(triggered_entries(*payload)),
        present_ids(triggered_entries(*payload)).len() == 0 ==> r.policies@.map_values(
            |s: String| s@,
        ) == seq!["baseline"@],
        r.decision == decision,
        r.latest == latest,
{
    let (run_agent, run_kind) = match run {
        Some((a, k)) => (Some(a), Some(k)),
        None => (None, None),
    };
    let agent_id = resolve_agent_id(run_agent, payload);
    let run_kind = resolve_run_kind(run_kind);
    let step = match event {
        Some(e) => {
            let label = match &e.label {
                Some(l) => Some(l.as_str()),
                None => None,
            };
            review_workflow_step(e.kind.as_str(), label, &e.metadata)
        },
        None => None,
    };
    let workflow_step = match step {
        Some(s) => s,
        None => "unlabeled".to_owned(),
    };
    let policies = policy_ids(payload);
    ReviewTrace { agent_id, run_kind, workflow_step, policies, decision, latest }
}

} // verus!
