//! Decision analytics: the metric and dimension catalog, facts and the
//! filters over them, metric tallies, the p95 latency, and the validation
//! of saved dashboard views.

use vstd::prelude::*;
use crate::error::{StorageError, is_internal, internal};
use crate::order::{sort_rows, rows_sorted};
use crate::text::{trim, same_text, chars_of, trim_chars, string_of};
use crate::json::{JsonValue, field, field_of, text_field, json_text};
use crate::policy::{first_occurrences, texts, unique_policy_ids};

verus! {

broadcast use vstd::seq_lib::group_to_multiset_ensures;

// ---------------------------------------------------------------------------
// Catalog
// ---------------------------------------------------------------------------

/// A metric over decision facts.
#[derive(Debug, Clone, Copy, PartialEq, Eq, Structural)]
pub enum AnalyticsMetric {
    TraceCount,
    PermitCount,
    DenyCount,
    TransformCount,
    RequireApprovalCount,
    DeferCount,
    InterventionRate,
    P95LatencyMs,
    HumanReviewCount,
    HumanInterventionRate,
    FalsePositiveRate,
}

/// A dimension facts can be grouped and filtered by.
#[derive(Debug, Clone, Copy, PartialEq, Eq, Structural)]
pub enum AnalyticsDimension {
    AgentId,
    Environment,
    RunKind,
    RunStatus,
    AuthorizationEffect,
    PolicyId,
    WorkflowStep,
    ReviewOutcome,
    ExternalId,
}

/// How a metric is drawn.
#[derive(Debug, Clone, Copy, PartialEq, Eq, Structural)]
pub enum AnalyticsChartType {
    Bar,
    Line,
}

/// Every metric the catalog offers, in catalog order.
pub fn supported_metrics() -> (r: Vec<AnalyticsMetric>)
    ensures
        r@ == seq![
            AnalyticsMetric::TraceCount,
            AnalyticsMetric::PermitCount,
            AnalyticsMetric::DenyCount,
            AnalyticsMetric::TransformCount,
            AnalyticsMetric::RequireApprovalCount,
            AnalyticsMetric::DeferCount,
            AnalyticsMetric::InterventionRate,
            AnalyticsMetric::P95LatencyMs,
            AnalyticsMetric::HumanReviewCount,
            AnalyticsMetric::HumanInterventionRate,
            AnalyticsMetric::FalsePositiveRate,
        ],
{
    vec![
        AnalyticsMetric::TraceCount,
        AnalyticsMetric::PermitCount,
        AnalyticsMetric::DenyCount,
        AnalyticsMetric::TransformCount,
        AnalyticsMetric::RequireApprovalCount,
        AnalyticsMetric::DeferCount,
        AnalyticsMetric::InterventionRate,
        AnalyticsMetric::P95LatencyMs,
        AnalyticsMetric::HumanReviewCount,
        AnalyticsMetric::HumanInterventionRate,
        AnalyticsMetric::FalsePositiveRate,
    ]
}

/// Every dimension the catalog offers, in catalog order.
pub fn supported_dimensions() -> (r: Vec<AnalyticsDimension>)
    ensures
        r@ == seq![
            AnalyticsDimension::AgentId,
            AnalyticsDimension::Environment,
            AnalyticsDimension::RunKind,
            AnalyticsDimension::RunStatus,
            AnalyticsDimension::AuthorizationEffect,
            AnalyticsDimension::PolicyId,
            AnalyticsDimension::WorkflowStep,
            AnalyticsDimension::ReviewOutcome,
            AnalyticsDimension::ExternalId,
        ],
{
    vec![
        AnalyticsDimension::AgentId,
        AnalyticsDimension::Environment,
        AnalyticsDimension::RunKind,
        AnalyticsDimension::RunStatus,
        AnalyticsDimension::AuthorizationEffect,
        AnalyticsDimension::PolicyId,
        AnalyticsDimension::WorkflowStep,
        AnalyticsDimension::ReviewOutcome,
        AnalyticsDimension::ExternalId,
    ]
}

/// The display label of a metric.
pub fn metric_label(metric: AnalyticsMetric) -> (r: &'static str)
    ensures
        r@ == match metric {
            AnalyticsMetric::TraceCount => "Traces"@,
            AnalyticsMetric::PermitCount => "Permitted"@,
            AnalyticsMetric::DenyCount => "Denied"@,
            AnalyticsMetric::TransformCount => "Transformed"@,
            AnalyticsMetric::RequireApprovalCount => "Approval required"@,
            AnalyticsMetric::DeferCount => "Deferred"@,
            AnalyticsMetric::InterventionRate => "Intervention rate"@,
            AnalyticsMetric::P95LatencyMs => "p95 latency"@,
            AnalyticsMetric::HumanReviewCount => "Human reviews"@,
            AnalyticsMetric::HumanInterventionRate => "Human intervention rate"@,
            AnalyticsMetric::FalsePositiveRate => "False positive rate"@,
        },
{
    match metric {
        AnalyticsMetric::TraceCount => "Traces",
        AnalyticsMetric::PermitCount => "Permitted",
        AnalyticsMetric::DenyCount => "Denied",
        AnalyticsMetric::TransformCount => "Transformed",
        AnalyticsMetric::RequireApprovalCount => "Approval required",
        AnalyticsMetric::DeferCount => "Deferred",
        AnalyticsMetric::InterventionRate => "Intervention rate",
        AnalyticsMetric::P95LatencyMs => "p95 latency",
        AnalyticsMetric::HumanReviewCount => "Human reviews",
        AnalyticsMetric::HumanInterventionRate => "Human intervention rate",
        AnalyticsMetric::FalsePositiveRate => "False positive rate",
    }
}

/// The display label of a dimension.
pub fn dimension_label(dimension: AnalyticsDimension) -> (r: &'static str)
    ensures
        r@ == match dimension {
            AnalyticsDimension::AgentId => "Agent"@,
            AnalyticsDimension::Environment => "Environment"@,
            AnalyticsDimension::RunKind => "Run kind"@,
            AnalyticsDimension::RunStatus => "Run status"@,
            AnalyticsDimension::AuthorizationEffect => "Authorization effect"@,
            AnalyticsDimension::PolicyId => "Policy"@,
            AnalyticsDimension::WorkflowStep => "Workflow step"@,
            AnalyticsDimension::ReviewOutcome => "Review outcome"@,
            AnalyticsDimension::ExternalId => "External id"@,
        },
{
    match dimension {
        AnalyticsDimension::AgentId => "Agent",
        AnalyticsDimension::Environment => "Environment",
        AnalyticsDimension::RunKind => "Run kind",
        AnalyticsDimension::RunStatus => "Run status",
        AnalyticsDimension::AuthorizationEffect => "Authorization effect",
        AnalyticsDimension::PolicyId => "Policy",
        AnalyticsDimension::WorkflowStep => "Workflow step",
        AnalyticsDimension::ReviewOutcome => "Review outcome",
        AnalyticsDimension::ExternalId => "External id",
    }
}

/// Metrics that are rates or latencies are drawn as lines.
pub open spec fn is_line_metric(metric: AnalyticsMetric) -> bool {
    metric == AnalyticsMetric::InterventionRate || metric == AnalyticsMetric::P95LatencyMs || metric
        == AnalyticsMetric::HumanInterventionRate || metric == AnalyticsMetric::FalsePositiveRate
}

/// Counts are drawn as bars, rates and latencies as lines.
pub fn default_chart_type(metric: AnalyticsMetric) -> (r: AnalyticsChartType)
    ensures
        r == (if is_line_metric(metric) {
            AnalyticsChartType::Line
        } else {
            AnalyticsChartType::Bar
        }),
{
    match metric {
        AnalyticsMetric::InterventionRate | AnalyticsMetric::P95LatencyMs
        | AnalyticsMetric::HumanInterventionRate | AnalyticsMetric::FalsePositiveRate => {
            AnalyticsChartType::Line
        },
        _ => AnalyticsChartType::Bar,
    }
}

// ---------------------------------------------------------------------------
// Facts and filters
// ---------------------------------------------------------------------------

/// One decision as analytics sees it.
#[derive(Debug, Clone, PartialEq, Eq)]
pub struct AnalyticsFact {
    pub environment_id: String,
    pub decision: String,
    pub elapsed_ms: i32,
    pub agent_id: String,
    pub run_kind: String,
    pub run_status: String,
    pub external_id: String,
    pub workflow_step: String,
    pub review_outcome: String,
    pub policy_ids: Vec<String>,
}

/// The values a fact takes in a dimension (several for policies).
pub open spec fn dimension_values(fact: AnalyticsFact, dimension: AnalyticsDimension) -> Seq<Seq<char>> {
    match dimension {
        AnalyticsDimension::AgentId => seq![fact.agent_id@],
        AnalyticsDimension::Environment => seq![fact.environment_id@],
        AnalyticsDimension::RunKind => seq![fact.run_kind@],
        AnalyticsDimension::RunStatus => seq![fact.run_status@],
        AnalyticsDimension::AuthorizationEffect => seq![fact.decision@],
        AnalyticsDimension::PolicyId => fact.policy_ids@.map_values(|s: String| s@),
        AnalyticsDimension::WorkflowStep => seq![fact.workflow_step@],
        AnalyticsDimension::ReviewOutcome => seq![fact.review_outcome@],
        AnalyticsDimension::ExternalId => seq![fact.external_id@],
    }
}

/// The values of a fact in a dimension.
pub fn values_for_dimension(fact: &AnalyticsFact, dimension: AnalyticsDimension) -> (r: Vec<String>)
    ensures
        r@.map_values(|s: String| s@) == dimension_values(*fact, dimension),
{
    let r = match dimension {
        AnalyticsDimension::AgentId => vec![fact.agent_id.clone()],
        AnalyticsDimension::Environment => vec![fact.environment_id.clone()],
        AnalyticsDimension::RunKind => vec![fact.run_kind.clone()],
        AnalyticsDimension::RunStatus => vec![fact.run_status.clone()],
        AnalyticsDimension::AuthorizationEffect => vec![fact.decision.clone()],
        AnalyticsDimension::PolicyId => fact.policy_ids.clone(),
        AnalyticsDimension::WorkflowStep => vec![fact.workflow_step.clone()],
        AnalyticsDimension::ReviewOutcome => vec![fact.review_outcome.clone()],
        AnalyticsDimension::ExternalId => vec![fact.external_id.clone()],
    };
    assert(r@.map_values(|s: String| s@) =~= dimension_values(*fact, dimension));
    r
}

/// A filter: facts whose value in the dimension is one of the listed ones.
#[derive(Debug, Clone, PartialEq, Eq)]
pub struct AnalyticsFilter {
    pub dimension: AnalyticsDimension,
    pub values: Vec<String>,
}

/// The fact passes the filter: one of its values is wanted.
pub open spec fn passes(fact: AnalyticsFact, filter: AnalyticsFilter) -> bool {
    exists|i: int, j: int|
        #![trigger dimension_values(fact, filter.dimension)[i], filter.values@[j]]
        0 <= i < dimension_values(fact, filter.dimension).len() && 0 <= j < filter.values@.len()
            && dimension_values(fact, filter.dimension)[i] == filter.values@[j]@
}

/// Each single-valued dimension reads the fact's own field for it: the agent
/// id, the environment, the run kind, the run status, the decision (the
/// authorization effect), the workflow step, the review outcome and the
/// external id; the policy dimension takes every policy id, in order. A
/// filter on a single-valued dimension keeps a fact exactly when it lists
/// that field's value.
pub proof fn law_dimensions_read_their_fields(fact: AnalyticsFact, filter: AnalyticsFilter)
    ensures
        dimension_values(fact, AnalyticsDimension::AgentId) == seq![fact.agent_id@],
        dimension_values(fact, AnalyticsDimension::Environment) == seq![fact.environment_id@],
        dimension_values(fact, AnalyticsDimension::RunKind) == seq![fact.run_kind@],
        dimension_values(fact, AnalyticsDimension::RunStatus) == seq![fact.run_status@],
        dimension_values(fact, AnalyticsDimension::AuthorizationEffect) == seq![fact.decision@],
        dimension_values(fact, AnalyticsDimension::WorkflowStep) == seq![fact.workflow_step@],
        dimension_values(fact, AnalyticsDimension::ReviewOutcome) == seq![fact.review_outcome@],
        dimension_values(fact, AnalyticsDimension::ExternalId) == seq![fact.external_id@],
        dimension_values(fact, AnalyticsDimension::PolicyId).len() == fact.policy_ids@.len(),
        forall|i: int|
            0 <= i < fact.policy_ids@.len() ==> dimension_values(fact, AnalyticsDimension::PolicyId)[i]
                == (#[trigger] fact.policy_ids@[i])@,
        filter.dimension == AnalyticsDimension::RunStatus ==> (passes(fact, filter) <==> exists|j: int|
            0 <= j < filter.values@.len() && (#[trigger] filter.values@[j])@ == fact.run_status@),
        filter.dimension == AnalyticsDimension::RunKind ==> (passes(fact, filter) <==> exists|j: int|
            0 <= j < filter.values@.len() && (#[trigger] filter.values@[j])@ == fact.run_kind@),
        filter.dimension == AnalyticsDimension::AgentId ==> (passes(fact, filter) <==> exists|j: int|
            0 <= j < filter.values@.len() && (#[trigger] filter.values@[j])@ == fact.agent_id@),
{
    let d = dimension_values(fact, filter.dimension);
    if filter.dimension == AnalyticsDimension::RunStatus || filter.dimension
        == AnalyticsDimension::RunKind || filter.dimension == AnalyticsDimension::AgentId {
        if exists|j: int| 0 <= j < filter.values@.len() && (#[trigger] filter.values@[j])@ == d[0] {
            let j = choose|j: int| 0 <= j < filter.values@.len() && (#[trigger] filter.values@[j])@ == d[0];
            assert(d[0] == filter.values@[j]@);
        }
    }
}

/// The fact passes every filter.
pub open spec fn passes_all(fact: AnalyticsFact, filters: Seq<AnalyticsFilter>) -> bool {
    forall|k: int| 0 <= k < filters.len() ==> passes(fact, #[trigger] filters[k])
}

fn contains_text(values: &Vec<String>, v: &String) -> (r: bool)
    ensures
        r == exists|j: int| 0 <= j < values@.len() && (#[trigger] values@[j])@ == v@,
{
    let mut j: usize = 0;
    while j < values.len()
        invariant
            j <= values.len(),
            forall|k: int| 0 <= k < j ==> (#[trigger] values@[k])@ != v@,
        decreases values.len() - j,
    {
        if values[j] == *v {
            return true;
        }
        j = j + 1;
    }
    false
}

fn passes_filter(fact: &AnalyticsFact, filter: &AnalyticsFilter) -> (r: bool)
    ensures
        r == passes(*fact, *filter),
{
    let vals = values_for_dimension(fact, filter.dimension);
    let ghost dv = dimension_values(*fact, filter.dimension);
    let mut i: usize = 0;
    while i < vals.len()
        invariant
            i <= vals.len(),
            vals@.map_values(|s: String| s@) == dv,
            dv == dimension_values(*fact, filter.dimension),
            forall|a: int, j: int|
                #![trigger dv[a], filter.values@[j]]
                0 <= a < i && 0 <= j < filter.values@.len() ==> dv[a] != filter.values@[j]@,
        decreases vals.len() - i,
    {
        assert(dv[i as int] == vals@[i as int]@);
        if contains_text(&filter.values, &vals[i]) {
            return true;
        }
        i = i + 1;
    }
    false
}

/// Whether a fact passes every filter.
pub fn matches_filters(fact: &AnalyticsFact, filters: &Vec<AnalyticsFilter>) -> (r: bool)
    ensures
        r == passes_all(*fact, filters@),
{
    let mut k: usize = 0;
    while k < filters.len()
        invariant
            k <= filters.len(),
            forall|m: int| 0 <= m < k ==> passes(*fact, #[trigger] filters@[m]),
        decreases filters.len() - k,
    {
        if !passes_filter(fact, &filters[k]) {
            return false;
        }
        k = k + 1;
    }
    true
}

/// Some filter lists a value that is blank after trimming.
pub open spec fn has_blank_filter_value(filters: Seq<AnalyticsFilter>) -> bool {
    exists|k: int, j: int|
        #![trigger filters[k].values@[j]]
        0 <= k < filters.len() && 0 <= j < filters[k].values@.len() && trim(
            filters[k].values@[j]@,
        ).len() == 0
}

/// A query's filters must not list blank values.
pub fn validate_query(filters: &Vec<AnalyticsFilter>) -> (r: Result<(), StorageError>)
    ensures
        !has_blank_filter_value(filters@) ==> r is Ok,
        has_blank_filter_value(filters@) ==> (r matches Err(e) && is_internal(
            e,
            "analytics filters must not contain empty values"@,
        )),
{
    let mut k: usize = 0;
    while k < filters.len()
        invariant
            k <= filters.len(),
            forall|m: int, j: int|
                #![trigger filters@[m].values@[j]]
                0 <= m < k && 0 <= j < filters@[m].values@.len() ==> trim(
                    filters@[m].values@[j]@,
                ).len() > 0,
        decreases filters.len() - k,
    {
        let f = &filters[k];
        let mut j: usize = 0;
        while j < f.values.len()
            invariant
                j <= f.values.len(),
                *f == filters@[k as int],
                k < filters.len(),
                forall|m: int, jj: int|
                    #![trigger filters@[m].values@[jj]]
                    0 <= m < k && 0 <= jj < filters@[m].values@.len() ==> trim(
                        filters@[m].values@[jj]@,
                    ).len() > 0,
                forall|jj: int| 0 <= jj < j ==> trim((#[trigger] f.values@[jj])@).len() > 0,
            decreases f.values.len() - j,
        {
            let t = trim_chars(&chars_of(f.values[j].as_str()));
            if t.len() == 0 {
                return Err(internal("analytics filters must not contain empty values"));
            }
            j = j + 1;
        }
        k = k + 1;
    }
    Ok(())
}

// ---------------------------------------------------------------------------
// Tallies
// ---------------------------------------------------------------------------

/// Integer tallies over a set of facts, from which the metrics follow.
#[derive(Debug, Clone, Copy, Default, PartialEq, Eq, Structural)]
pub struct MetricTally {
    pub traces: i64,
    pub permit: i64,
    pub deny: i64,
    pub transform: i64,
    pub require_approval: i64,
    pub defer: i64,
    /// Traces whose decision intervened: deny, transform, require approval
    /// or defer.
    pub interventions: i64,
    pub human_reviews: i64,
    pub human_interventions: i64,
    pub false_positives: i64,
}

/// A decision that intervenes in what the agent does: it denies,
/// transforms, requires approval or defers.
pub open spec fn intervening_decision(d: Seq<char>) -> bool {
    d == "deny"@ || d == "transform"@ || d == "require_approval"@ || d == "defer"@
}

/// Whether a decision intervenes (see [`intervening_decision`]).
pub fn is_intervening_decision(d: &str) -> (r: bool)
    ensures
        r == intervening_decision(d@),
{
    same_text(d, "deny") || same_text(d, "transform") || same_text(d, "require_approval")
        || same_text(d, "defer")
}

/// One fact added to a tally: a trace; its decision counted if it is one
/// of the five tallied, and as an intervention if it intervenes; a review
/// unless the outcome is `not_reviewed`; a human intervention for
/// corrected, rejected or missed-issue outcomes; a false positive for that
/// outcome.
pub open spec fn tally_step(acc: MetricTally, f: AnalyticsFact) -> MetricTally {
    let d = f.decision@;
    let o = f.review_outcome@;
    MetricTally {
        traces: (acc.traces + 1) as i64,
        permit: (acc.permit + if d == "permit"@ { 1int } else { 0int }) as i64,
        deny: (acc.deny + if d == "deny"@ { 1int } else { 0int }) as i64,
        transform: (acc.transform + if d == "transform"@ { 1int } else { 0int }) as i64,
        require_approval: (acc.require_approval + if d == "require_approval"@ { 1int } else { 0int }) as i64,
        defer: (acc.defer + if d == "defer"@ { 1int } else { 0int }) as i64,
        interventions: (acc.interventions + if intervening_decision(d) { 1int } else { 0int }) as i64,
        human_reviews: (acc.human_reviews + if o != "not_reviewed"@ { 1int } else { 0int }) as i64,
        human_interventions: (acc.human_interventions + if o == "corrected"@ || o == "rejected"@
            || o == "missed_issue"@ { 1int } else { 0int }) as i64,
        false_positives: (acc.false_positives + if o == "false_positive"@ { 1int } else { 0int }) as i64,
    }
}

/// The tally of a sequence of facts, added left to right.
pub open spec fn tally_of(facts: Seq<AnalyticsFact>) -> MetricTally
    decreases facts.len(),
{
    if facts.len() == 0 {
        MetricTally {
            traces: 0,
            permit: 0,
            deny: 0,
            transform: 0,
            require_approval: 0,
            defer: 0,
            interventions: 0,
            human_reviews: 0,
            human_interventions: 0,
            false_positives: 0,
        }
    } else {
        tally_step(tally_of(facts.drop_last()), facts.last())
    }
}

/// Every count of a tally lies between zero and the number of facts.
pub open spec fn tally_bounded(t: MetricTally, n: int) -> bool {
    &&& t.traces == n
    &&& 0 <= t.permit <= n
    &&& 0 <= t.deny <= n
    &&& 0 <= t.transform <= n
    &&& 0 <= t.require_approval <= n
    &&& 0 <= t.defer <= n
    &&& 0 <= t.interventions <= n
    &&& 0 <= t.human_reviews <= n
    &&& 0 <= t.human_interventions <= n
    &&& 0 <= t.false_positives <= n
}

proof fn lemma_tally_bounded(facts: Seq<AnalyticsFact>)
    requires
        facts.len() <= i64::MAX,
    ensures
        tally_bounded(tally_of(facts), facts.len() as int),
    decreases facts.len(),
{
    if facts.len() > 0 {
        lemma_tally_bounded(facts.drop_last());
    }
}

/// The traces whose decision intervened are exactly those denied,
/// transformed, sent for approval or deferred: the intervention count is
/// the sum of those four counts.
pub proof fn law_interventions_sum_decisions(facts: Seq<AnalyticsFact>)
    requires
        facts.len() <= i64::MAX,
    ensures
        tally_of(facts).interventions as int == tally_of(facts).deny as int + tally_of(facts).transform as int
            + tally_of(facts).require_approval as int + tally_of(facts).defer as int,
    decreases facts.len(),
{
    if facts.len() > 0 {
        law_interventions_sum_decisions(facts.drop_last());
        reveal_strlit("deny");
        reveal_strlit("transform");
        reveal_strlit("require_approval");
        reveal_strlit("defer");
        assert("deny"@.len() == 4 && "transform"@.len() == 9 && "require_approval"@.len() == 16
            && "defer"@.len() == 5);
        lemma_tally_bounded(facts.drop_last());
        lemma_tally_bounded(facts);
    }
}

/// Each count of the metric tally selects its own facts: the decisions
/// counted by their exact text, the reviews as the facts whose outcome is
/// not `not_reviewed`, the human interventions as the corrected, rejected
/// and missed-issue outcomes, and the false positives by that outcome.
pub proof fn law_tally_selects(facts: Seq<AnalyticsFact>)
    requires
        facts.len() <= i64::MAX,
    ensures
        tally_of(facts).traces == facts.len(),
        tally_of(facts).permit == facts.filter(|f: AnalyticsFact| f.decision@ == "permit"@).len(),
        tally_of(facts).deny == facts.filter(|f: AnalyticsFact| f.decision@ == "deny"@).len(),
        tally_of(facts).transform == facts.filter(|f: AnalyticsFact| f.decision@ == "transform"@).len(),
        tally_of(facts).require_approval == facts.filter(
            |f: AnalyticsFact| f.decision@ == "require_approval"@,
        ).len(),
        tally_of(facts).defer == facts.filter(|f: AnalyticsFact| f.decision@ == "defer"@).len(),
        tally_of(facts).human_reviews == facts.filter(
            |f: AnalyticsFact| f.review_outcome@ != "not_reviewed"@,
        ).len(),
        tally_of(facts).human_interventions == facts.filter(
            |f: AnalyticsFact|
                f.review_outcome@ == "corrected"@ || f.review_outcome@ == "rejected"@
                    || f.review_outcome@ == "missed_issue"@,
        ).len(),
        tally_of(facts).false_positives == facts.filter(
            |f: AnalyticsFact| f.review_outcome@ == "false_positive"@,
        ).len(),
    decreases facts.len(),
{
    reveal(Seq::filter);
    if facts.len() > 0 {
        law_tally_selects(facts.drop_last());
        lemma_tally_bounded(facts.drop_last());
        lemma_tally_bounded(facts);
    }
}

/// Tallies traces, decisions and review outcomes over the facts.
pub fn metric_tally(facts: &Vec<AnalyticsFact>) -> (r: MetricTally)
    requires
        facts.len() <= i64::MAX,
    ensures
        r == tally_of(facts@),
{
    let mut acc = MetricTally {
        traces: 0,
        permit: 0,
        deny: 0,
        transform: 0,
        require_approval: 0,
        defer: 0,
        interventions: 0,
        human_reviews: 0,
        human_interventions: 0,
        false_positives: 0,
    };
    let mut i: usize = 0;
    while i < facts.len()
        invariant
            i <= facts.len() <= i64::MAX,
            acc == tally_of(facts@.take(i as int)),
        decreases facts.len() - i,
    {
        let f = &facts[i];
        proof {
            let next = facts@.take(i + 1);
            assert(next.drop_last() =~= facts@.take(i as int));
            assert(next.last() == *f);
            lemma_tally_bounded(facts@.take(i as int));
        }
        acc.traces = acc.traces + 1;
        let d = f.decision.as_str();
        if same_text(d, "permit") {
            acc.permit = acc.permit + 1;
        }
        if same_text(d, "deny") {
            acc.deny = acc.deny + 1;
        }
        if same_text(d, "transform") {
            acc.transform = acc.transform + 1;
        }
        if same_text(d, "require_approval") {
            acc.require_approval = acc.require_approval + 1;
        }
        if same_text(d, "defer") {
            acc.defer = acc.defer + 1;
        }
        if is_intervening_decision(d) {
            acc.interventions = acc.interventions + 1;
        }
        let o = f.review_outcome.as_str();
        if !same_text(o, "not_reviewed") {
            acc.human_reviews = acc.human_reviews + 1;
        }
        if same_text(o, "corrected") || same_text(o, "rejected") || same_text(o, "missed_issue") {
            acc.human_interventions = acc.human_interventions + 1;
        }
        if same_text(o, "false_positive") {
            acc.false_positives = acc.false_positives + 1;
        }
        i = i + 1;
    }
    assert(facts@.take(facts.len() as int) =~= facts@);
    acc
}

/// How many points a query lists: the requested limit (12 when none is
/// given), kept between 1 and 100.
pub fn point_limit(limit: Option<usize>) -> (r: usize)
    ensures
        r == match limit {
            None => 12,
            Some(n) => if n < 1 {
                1
            } else if n > 100 {
                100
            } else {
                n
            },
        },
{
    let n = match limit {
        None => 12,
        Some(n) => n,
    };
    if n < 1 {
        1
    } else if n > 100 {
        100
    } else {
        n
    }
}

/// Index (1-based) of the nearest-rank 95th percentile among `n` sorted
/// values: the ceiling of 95% of `n`.
pub open spec fn p95_rank(n: int) -> int {
    (n * 95 + 99) / 100
}

/// The nearest-rank 95th percentile of the latencies, or nothing when
/// there are none: the value at rank ceil(0.95 n) of the sorted latencies.
pub fn p95(latencies: Vec<i32>) -> (r: Option<i32>)
    ensures
        latencies@.len() == 0 ==> r is None,
        latencies@.len() > 0 ==> exists|s: Seq<i32>|
            #![trigger rows_sorted(s)]
            s.to_multiset() == latencies@.to_multiset() && rows_sorted(s) && r == Some(
                s[p95_rank(latencies@.len() as int) - 1],
            ),
{
    if latencies.len() == 0 {
        return None;
    }
    let ghost orig = latencies@;
    let sorted = sort_rows(latencies);
    proof {
        vstd::seq_lib::to_multiset_len(orig);
        vstd::seq_lib::to_multiset_len(sorted@);
    }
    let n: u128 = sorted.len() as u128;
    let rank: u128 = (n * 95 + 99) / 100;
    proof {
        assert(1 <= rank <= n) by (nonlinear_arith)
            requires
                n >= 1,
                rank == (n * 95 + 99) / 100,
        ;
    }
    let idx: usize = (rank - 1) as usize;
    Some(sorted[idx])
}

// ---------------------------------------------------------------------------
// Saved dashboard views
// ---------------------------------------------------------------------------

/// Where a widget sits on the 12-column dashboard grid.
#[derive(Debug, Clone, Copy, PartialEq, Eq, Structural)]
pub struct AnalyticsWidgetLayout {
    pub x: u32,
    pub y: u32,
    pub w: u32,
    pub h: u32,
}

/// A widget of a saved view.
#[derive(Debug, Clone, PartialEq, Eq)]
pub struct AnalyticsWidget {
    pub metric: AnalyticsMetric,
    pub layout: AnalyticsWidgetLayout,
}

/// The message of the check a layout fails, if any.
pub open spec fn layout_error(l: AnalyticsWidgetLayout) -> Option<Seq<char>> {
    if l.w == 0 || l.w > 12 || l.h == 0 || l.h > 4 {
        Some("analytics widget layout must use width 1-12 and height 1-4"@)
    } else if l.x >= 12 || l.x + l.w > 12 {
        Some("analytics widget layout must fit within the 12-column grid"@)
    } else {
        None
    }
}

/// A saved view needs a name that is not blank.
pub fn validate_view_name(name: &str) -> (r: Result<(), StorageError>)
    ensures
        trim(name@).len() > 0 ==> r is Ok,
        trim(name@).len() == 0 ==> (r matches Err(e) && is_internal(
            e,
            "analytics view name is required"@,
        )),
{
    let t = trim_chars(&chars_of(name));
    if t.len() == 0 {
        return Err(internal("analytics view name is required"));
    }
    Ok(())
}

/// A widget is 1 to 12 columns wide, 1 to 4 rows high, and fits in the
/// 12-column grid.
pub fn validate_layout(layout: &AnalyticsWidgetLayout) -> (r: Result<(), StorageError>)
    ensures
        match layout_error(*layout) {
            None => r is Ok,
            Some(msg) => r matches Err(e) && is_internal(e, msg),
        },
{
    if layout.w == 0 || layout.w > 12 || layout.h == 0 || layout.h > 4 {
        return Err(internal("analytics widget layout must use width 1-12 and height 1-4"));
    }
    if layout.x >= 12 || layout.x + layout.w > 12 {
        return Err(internal("analytics widget layout must fit within the 12-column grid"));
    }
    Ok(())
}

/// A saved view has at least one widget and every layout is valid; the
/// first invalid layout's error is reported.
pub fn validate_view_config(widgets: &Vec<AnalyticsWidget>) -> (r: Result<(), StorageError>)
    ensures
        widgets@.len() == 0 ==> (r matches Err(e) && is_internal(
            e,
            "analytics view must include at least one widget"@,
        )),
        widgets@.len() > 0 && (forall|i: int|
            0 <= i < widgets@.len() ==> layout_error((#[trigger] widgets@[i]).layout) is None)
            ==> r is Ok,
        widgets@.len() > 0 ==> (r is Err ==> exists|i: int|
            0 <= i < widgets@.len() && (forall|j: int|
                0 <= j < i ==> layout_error((#[trigger] widgets@[j]).layout) is None)
                && (layout_error((#[trigger] widgets@[i]).layout) matches Some(msg) && (
            r matches Err(e) && is_internal(e, msg)))),
{
    if widgets.len() == 0 {
        return Err(internal("analytics view must include at least one widget"));
    }
    let mut i: usize = 0;
    while i < widgets.len()
        invariant
            i <= widgets.len(),
            widgets.len() > 0,
            forall|j: int| 0 <= j < i ==> layout_error((#[trigger] widgets@[j]).layout) is None,
        decreases widgets.len() - i,
    {
        match validate_layout(&widgets[i].layout) {
            Err(e) => {
                assert(widgets@[i as int].layout == widgets[i as int].layout);
                return Err(e);
            },
            Ok(_) => {},
        }
        i = i + 1;
    }
    Ok(())
}

// ---------------------------------------------------------------------------
// Fact fields taken from trace payloads
// ---------------------------------------------------------------------------

/// A payload string field trimmed; absent or blank values give nothing.
pub open spec fn payload_text(raw: Option<Seq<char>>) -> Option<Seq<char>> {
    match raw {
        None => None,
        Some(v) => if trim(v).len() == 0 {
            None
        } else {
            Some(trim(v))
        },
    }
}

/// A text trimmed; absent or blank texts give nothing.
pub fn trimmed_text(raw: Option<&str>) -> (r: Option<String>)
    ensures
        match payload_text(
            match raw {
                None => None,
                Some(v) => Some(v@),
            },
        ) {
            None => r is None,
            Some(t) => r matches Some(s) && s@ == t,
        },
{
    match raw {
        None => None,
        Some(v) => {
            let t = trim_chars(&chars_of(v));
            if t.len() == 0 {
                None
            } else {
                Some(string_of(&t))
            }
        },
    }
}

/// The string member `key` of a payload, trimmed; an absent, non-string or
/// blank member gives nothing.
pub fn payload_string(payload: &JsonValue, key: &str) -> (r: Option<String>)
    ensures
        match payload_text(json_text(field(*payload, key@))) {
            None => r is None,
            Some(t) => r matches Some(s) && s@ == t,
        },
{
    trimmed_text(text_field(payload, key))
}

/// The ids of the given triggered-policy entries that have a string `id`
/// that is not blank, trimmed, in order.
pub open spec fn present_ids(entries: Seq<JsonValue>) -> Seq<Seq<char>>
    decreases entries.len(),
{
    if entries.len() == 0 {
        Seq::empty()
    } else {
        let rest = present_ids(entries.drop_last());
        match payload_text(json_text(field(entries.last(), "id"@))) {
            Some(t) => rest.push(t),
            None => rest,
        }
    }
}

/// The triggered-policy entries of a payload: its `triggered_policies`
/// member when that is a list.
pub open spec fn triggered_entries(payload: JsonValue) -> Seq<JsonValue> {
    match field(payload, "triggered_policies"@) {
        Some(JsonValue::Array(xs)) => xs@,
        _ => Seq::empty(),
    }
}

/// The policies a trace is attributed to: the ids of its triggered
/// policies, or `baseline` when none has one.
pub fn policy_ids(payload: &JsonValue) -> (r: Vec<String>)
    ensures
        present_ids(triggered_entries(*payload)).len() > 0 ==> r@.map_values(|s: String| s@)
            == present_ids(triggered_entries(*payload)),
        present_ids(triggered_entries(*payload)).len() == 0 ==> r@.map_values(|s: String| s@)
            == seq!["baseline"@],
{
    let mut ids: Vec<String> = Vec::new();
    match field_of(payload, "triggered_policies") {
        Some(JsonValue::Array(entries)) => {
            let mut i: usize = 0;
            while i < entries.len()
                invariant
                    i <= entries.len(),
                    ids@.map_values(|s: String| s@) == present_ids(entries@.take(i as int)),
                decreases entries.len() - i,
            {
                assert(entries@.take(i + 1).drop_last() =~= entries@.take(i as int));
                assert(entries@.take(i + 1).last() == entries@[i as int]);
                match payload_string(&entries[i], "id") {
                    Some(id) => {
                        let ghost before = ids@;
                        ids.push(id);
                        assert(ids@.map_values(|s: String| s@) =~= before.map_values(
                            |s: String| s@,
                        ).push(id@));
                    },
                    None => {},
                }
                i = i + 1;
            }
            assert(entries@.take(entries.len() as int) =~= entries@);
        },
        _ => {
            assert(ids@.map_values(|s: String| s@) =~= present_ids(triggered_entries(*payload)));
        },
    }
    if ids.len() == 0 {
        let r = vec!["baseline".to_owned()];
        assert(r@.map_values(|s: String| s@) =~= seq!["baseline"@]);
        r
    } else {
        ids
    }
}

/// The workflow step of a fact: the metadata's step, else the event label,
/// else the event kind, each trimmed and skipped when blank.
pub open spec fn fact_step(step: Option<Seq<char>>, label: Option<Seq<char>>, kind: Seq<char>) -> Option<
    Seq<char>,
> {
    match payload_text(step) {
        Some(t) => Some(t),
        None => match payload_text(label) {
            Some(t) => Some(t),
            None => payload_text(Some(kind)),
        },
    }
}

/// The workflow step of an analytics fact, from its event's kind, label and
/// metadata.
pub fn workflow_step(event_kind: &str, event_label: Option<&str>, metadata: &JsonValue) -> (r:
    Option<String>)
    ensures
        match fact_step(
            json_text(field(*metadata, "workflow_step"@)),
            match event_label {
                None => None,
                Some(v) => Some(v@),
            },
            event_kind@,
        ) {
            None => r is None,
            Some(t) => r matches Some(s) && s@ == t,
        },
{
    match payload_string(metadata, "workflow_step") {
        Some(s) => Some(s),
        None => match trimmed_text(event_label) {
            Some(s) => Some(s),
            None => trimmed_text(Some(event_kind)),
        },
    }
}

/// The agent of a trace: its run's agent, else the agent named in its
/// payload, else `unknown`.
pub open spec fn trace_agent(run_agent: Option<String>, payload: JsonValue) -> Seq<char> {
    match run_agent {
        Some(a) => a@,
        None => match payload_text(json_text(field(payload, "agent_id"@))) {
            Some(t) => t,
            None => "unknown"@,
        },
    }
}

/// The fields of a run event that name a workflow step.
#[derive(Debug, PartialEq)]
pub struct RunEventFields {
    pub kind: String,
    pub label: Option<String>,
    pub metadata: JsonValue,
}

/// The run a decision belongs to, as analytics sees it.
#[derive(Debug, Clone, PartialEq, Eq)]
pub struct FactRun {
    pub agent_id: String,
    pub kind: String,
    pub status: String,
    pub external_id: Option<String>,
}

/// The workflow step of a fact: that of its event, or `unlabeled`.
pub open spec fn fact_step_of(event: Option<RunEventFields>) -> Seq<char> {
    match event {
        Some(e) => match fact_step(
            json_text(field(e.metadata, "workflow_step"@)),
            match e.label {
                None => None,
                Some(l) => Some(l@),
            },
            e.kind@,
        ) {
            Some(t) => t,
            None => "unlabeled"@,
        },
        None => "unlabeled"@,
    }
}

/// The analytics fact of a decision trace, from its environment, decision,
/// latency and payload, its run (when it has one), its run event (when it
/// has one) and the outcome of its latest review (when it was reviewed).
pub fn analytics_fact(
    environment_id: String,
    decision: String,
    elapsed_ms: i32,
    payload: &JsonValue,
    run: Option<FactRun>,
    event: Option<&RunEventFields>,
    latest_review: Option<String>,
) -> (r: AnalyticsFact)
    ensures
        r.environment_id == environment_id,
        r.decision == decision,
        r.elapsed_ms == elapsed_ms,
        r.agent_id@ == trace_agent(
            match run {
                Some(x) => Some(x.agent_id),
                None => None,
            },
            *payload,
        ),
        r.run_kind@ == match run {
            Some(x) => x.kind@,
            None => "ungrouped"@,
        },
        r.run_status@ == match run {
            Some(x) => x.status@,
            None => "unknown"@,
        },
        r.external_id@ == match run {
            Some(x) => match x.external_id {
                Some(e) => e@,
                None => "none"@,
            },
            None => "none"@,
        },
        r.workflow_step@ == fact_step_of(
            match event {
                Some(e) => Some(*e),
                None => None,
            },
        ),
        r.review_outcome@ == match latest_review {
            Some(o) => o@,
            None => "not_reviewed"@,
        },
        present_ids(triggered_entries(*payload)).len() > 0 ==> r.policy_ids@.map_values(
            |s: String| s@,
        ) == present_ids(triggered_entries(*payload)),
        present_ids(triggered_entries(*payload)).len() == 0 ==> r.policy_ids@.map_values(
            |s: String| s@,
        ) == seq!["baseline"@],
{
    let (agent_id, run_kind, run_status, external_id) = match run {
        Some(x) => {
            let external = match x.external_id {
                Some(e) => e,
                None => "none".to_owned(),
            };
            (x.agent_id, x.kind, x.status, external)
        },
        None => {
            let agent = match payload_string(payload, "agent_id") {
                Some(p) => p,
                None => "unknown".to_owned(),
            };
            (agent, "ungrouped".to_owned(), "unknown".to_owned(), "none".to_owned())
        },
    };
    let step = match event {
        Some(e) => {
            let label = match &e.label {
                Some(l) => Some(l.as_str()),
                None => None,
            };
            workflow_step(e.kind.as_str(), label, &e.metadata)
        },
        None => None,
    };
    let workflow_step = match step {
        Some(s) => s,
        None => "unlabeled".to_owned(),
    };
    let review_outcome = match latest_review {
        Some(o) => o,
        None => "not_reviewed".to_owned(),
    };
    let policy_ids = policy_ids(payload);
    AnalyticsFact {
        environment_id,
        decision,
        elapsed_ms,
        agent_id,
        run_kind,
        run_status,
        external_id,
        workflow_step,
        review_outcome,
        policy_ids,
    }
}

/// Each value a fact takes in `dimension`, paired with the fact's
/// position, fact by fact.
pub open spec fn value_positions(facts: Seq<AnalyticsFact>, dimension: AnalyticsDimension) -> Seq<
    (Seq<char>, int),
>
    decreases facts.len(),
{
    if facts.len() == 0 {
        Seq::empty()
    } else {
        let i = facts.len() - 1;
        value_positions(facts.drop_last(), dimension) + dimension_values(facts.last(), dimension).map_values(
            |v: Seq<char>| (v, i),
        )
    }
}

/// The positions paired with value `v`, in order.
pub open spec fn positions_of(pairs: Seq<(Seq<char>, int)>, v: Seq<char>) -> Seq<int>
    decreases pairs.len(),
{
    if pairs.len() == 0 {
        Seq::empty()
    } else {
        let rest = positions_of(pairs.drop_last(), v);
        if pairs.last().0 == v {
            rest.push(pairs.last().1)
        } else {
            rest
        }
    }
}

/// Groups facts by their values in `dimension`: one row per distinct value,
/// in order of first appearance, with the positions of the facts taking
/// it, a fact listed once for each time it takes the value.
pub fn group_by_dimension(facts: &Vec<AnalyticsFact>, dimension: AnalyticsDimension) -> (groups: Vec<
    (String, Vec<usize>),
>)
    ensures
        groups@.map_values(|g: (String, Vec<usize>)| g.0@) == first_occurrences(
            value_positions(facts@, dimension).map_values(|p: (Seq<char>, int)| p.0),
        ),
        forall|g: int|
            0 <= g < groups.len() ==> (#[trigger] groups@[g]).1@.map_values(|x: usize| x as int)
                == positions_of(value_positions(facts@, dimension), groups@[g].0@),
{
    let mut keys: Vec<String> = Vec::new();
    let mut owners: Vec<usize> = Vec::new();
    let mut i: usize = 0;
    while i < facts.len()
        invariant
            i <= facts.len(),
            keys.len() == owners.len(),
            texts(keys@).zip_with(owners@.map_values(|x: usize| x as int)) == value_positions(
                facts@.take(i as int),
                dimension,
            ),
        decreases facts.len() - i,
    {
        let values = values_for_dimension(&facts[i], dimension);
        let ghost k0 = keys@;
        let ghost o0 = owners@;
        let mut j: usize = 0;
        while j < values.len()
            invariant
                j <= values.len(),
                keys.len() == owners.len(),
                keys@.len() == k0.len() + j,
                keys@ == k0 + values@.take(j as int),
                owners@.map_values(|x: usize| x as int) == o0.map_values(|x: usize| x as int)
                    + Seq::new(j as nat, |_k: int| i as int),
            decreases values.len() - j,
        {
            keys.push(values[j].clone());
            let ghost ob = owners@;
            owners.push(i);
            proof {
                assert(owners@.map_values(|x: usize| x as int) =~= ob.map_values(|x: usize| x as int).push(
                    i as int,
                ));
                assert(o0.map_values(|x: usize| x as int) + Seq::new((j + 1) as nat, |_k: int| i as int)
                    =~= (o0.map_values(|x: usize| x as int) + Seq::new(j as nat, |_k: int| i as int)).push(
                    i as int,
                ));
                assert(values@.take(j + 1) =~= values@.take(j as int).push(values@[j as int]));
                assert(keys@ =~= k0 + values@.take(j + 1));
                assert(owners@.map_values(|x: usize| x as int) =~= o0.map_values(|x: usize| x as int)
                    + Seq::new((j + 1) as nat, |_k: int| i as int));
            }
            j = j + 1;
        }
        proof {
            assert(values@.take(values.len() as int) =~= values@);
            let fv = dimension_values(facts@[i as int], dimension);
            assert(texts(values@) == fv);
            assert(facts@.take(i + 1).drop_last() =~= facts@.take(i as int));
            assert(facts@.take(i + 1).last() == facts@[i as int]);
            assert(texts(keys@).zip_with(owners@.map_values(|x: usize| x as int)) =~= texts(
                k0,
            ).zip_with(o0.map_values(|x: usize| x as int)) + fv.map_values(
                |v: Seq<char>| (v, i as int),
            ));
        }
        i = i + 1;
    }
    proof {
        assert(facts@.take(facts.len() as int) =~= facts@);
    }
    let ghost pairs = value_positions(facts@, dimension);
    proof {
        assert(texts(keys@) =~= pairs.map_values(|p: (Seq<char>, int)| p.0));
    }
    let distinct = unique_policy_ids(&keys);
    let mut groups: Vec<(String, Vec<usize>)> = Vec::new();
    let mut g: usize = 0;
    while g < distinct.len()
        invariant
            g <= distinct.len(),
            groups.len() == g,
            keys.len() == owners.len(),
            texts(keys@).zip_with(owners@.map_values(|x: usize| x as int)) == pairs,
            forall|a: int| 0 <= a < g ==> (#[trigger] groups@[a]).0 == distinct@[a],
            forall|a: int|
                0 <= a < g ==> (#[trigger] groups@[a]).1@.map_values(|x: usize| x as int)
                    == positions_of(pairs, groups@[a].0@),
        decreases distinct.len() - g,
    {
        let key = distinct[g].clone();
        let mut at: Vec<usize> = Vec::new();
        let mut k: usize = 0;
        while k < keys.len()
            invariant
                k <= keys.len(),
                keys.len() == owners.len(),
                texts(keys@).zip_with(owners@.map_values(|x: usize| x as int)) == pairs,
                at@.map_values(|x: usize| x as int) == positions_of(pairs.take(k as int), key@),
            decreases keys.len() - k,
        {
            proof {
                assert(pairs.take(k + 1).drop_last() =~= pairs.take(k as int));
                assert(pairs[k as int] == (keys@[k as int]@, owners@[k as int] as int));
            }
            if keys[k] == key {
                let ghost before = at@;
                at.push(owners[k]);
                proof {
                    assert(at@.map_values(|x: usize| x as int) =~= before.map_values(|x: usize| x as int).push(
                        owners@[k as int] as int,
                    ));
                }
            }
            k = k + 1;
        }
        proof {
            assert(pairs.take(keys.len() as int) =~= pairs);
        }
        groups.push((key, at));
        g = g + 1;
    }
    proof {
        assert(groups@.map_values(|g: (String, Vec<usize>)| g.0@) =~= texts(distinct@));
    }
    groups
}

} // verus!
