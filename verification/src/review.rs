//! Human review events and their analytics: outcome encodings, reason-code
//! cleaning and validation, outcome tallies, and the orderings of the
//! analytics rows.

use vstd::prelude::*;
use crate::order::{RowOrder, rows_ok, rows_sorted, rows_tie, sort_rows, sorted_stably};
use crate::error::{StorageError, is_internal, internal, internal_with};
use crate::json::{JsonValue, is_empty_object, json_text};
use crate::text::{
    trim, same_text, chars_of, trim_chars, string_of, text_lt, text_le, text_less,
    lemma_text_lt_total, lemma_text_lt_transitive, lemma_text_lt_irreflexive,
};

verus! {

// ---------------------------------------------------------------------------
// Outcomes
// ---------------------------------------------------------------------------

/// What a person who checked a decision concluded about it.
#[derive(Debug, Clone, Copy, PartialEq, Eq, Structural)]
pub enum HumanReviewOutcome {
    Accepted,
    Corrected,
    Rejected,
    FalsePositive,
    MissedIssue,
    Ignored,
}

/// The stored text of an outcome.
pub open spec fn outcome_spec_text(o: HumanReviewOutcome) -> Seq<char> {
    match o {
        HumanReviewOutcome::Accepted => "accepted"@,
        HumanReviewOutcome::Corrected => "corrected"@,
        HumanReviewOutcome::Rejected => "rejected"@,
        HumanReviewOutcome::FalsePositive => "false_positive"@,
        HumanReviewOutcome::MissedIssue => "missed_issue"@,
        HumanReviewOutcome::Ignored => "ignored"@,
    }
}

/// The outcome stored as `s`, if any.
pub open spec fn outcome_from_spec_text(s: Seq<char>) -> Option<HumanReviewOutcome> {
    if s == "accepted"@ {
        Some(HumanReviewOutcome::Accepted)
    } else if s == "corrected"@ {
        Some(HumanReviewOutcome::Corrected)
    } else if s == "rejected"@ {
        Some(HumanReviewOutcome::Rejected)
    } else if s == "false_positive"@ {
        Some(HumanReviewOutcome::FalsePositive)
    } else if s == "missed_issue"@ {
        Some(HumanReviewOutcome::MissedIssue)
    } else if s == "ignored"@ {
        Some(HumanReviewOutcome::Ignored)
    } else {
        None
    }
}

/// The stored text of an outcome.
pub fn outcome_text(outcome: HumanReviewOutcome) -> (r: &'static str)
    ensures
        r@ == outcome_spec_text(outcome),
{
    match outcome {
        HumanReviewOutcome::Accepted => "accepted",
        HumanReviewOutcome::Corrected => "corrected",
        HumanReviewOutcome::Rejected => "rejected",
        HumanReviewOutcome::FalsePositive => "false_positive",
        HumanReviewOutcome::MissedIssue => "missed_issue",
        HumanReviewOutcome::Ignored => "ignored",
    }
}

/// Parses a stored outcome; unknown text is an internal error naming it.
pub fn parse_outcome(value: &str) -> (r: Result<HumanReviewOutcome, StorageError>)
    ensures
        match outcome_from_spec_text(value@) {
            Some(o) => r == Ok::<HumanReviewOutcome, StorageError>(o),
            None => r matches Err(e) && is_internal(e, "unknown human review outcome: "@ + value@),
        },
{
    if same_text(value, "accepted") {
        Ok(HumanReviewOutcome::Accepted)
    } else if same_text(value, "corrected") {
        Ok(HumanReviewOutcome::Corrected)
    } else if same_text(value, "rejected") {
        Ok(HumanReviewOutcome::Rejected)
    } else if same_text(value, "false_positive") {
        Ok(HumanReviewOutcome::FalsePositive)
    } else if same_text(value, "missed_issue") {
        Ok(HumanReviewOutcome::MissedIssue)
    } else if same_text(value, "ignored") {
        Ok(HumanReviewOutcome::Ignored)
    } else {
        Err(internal_with("unknown human review outcome: ", value))
    }
}

/// Every outcome reads back from its stored text.
pub proof fn law_outcome_roundtrip(o: HumanReviewOutcome)
    ensures
        outcome_from_spec_text(outcome_spec_text(o)) == Some(o),
{
    reveal_strlit("accepted");
    reveal_strlit("corrected");
    reveal_strlit("rejected");
    reveal_strlit("false_positive");
    reveal_strlit("missed_issue");
    reveal_strlit("ignored");
    assert("accepted"@[0] == 'a');
    assert("corrected"@[0] == 'c');
    assert("rejected"@[0] == 'r');
    assert("false_positive"@[0] == 'f');
    assert("missed_issue"@[0] == 'm');
    assert("ignored"@[0] == 'i');
}

/// Outcomes in which a person changed or overrode the decision.
pub open spec fn spec_is_human_intervention(o: HumanReviewOutcome) -> bool {
    o == HumanReviewOutcome::Corrected || o == HumanReviewOutcome::Rejected || o
        == HumanReviewOutcome::MissedIssue
}

/// Whether the outcome is a human intervention: a correction, a rejection
/// or a missed issue.
pub fn is_human_intervention(outcome: HumanReviewOutcome) -> (r: bool)
    ensures
        r == spec_is_human_intervention(outcome),
{
    match outcome {
        HumanReviewOutcome::Corrected | HumanReviewOutcome::Rejected
        | HumanReviewOutcome::MissedIssue => true,
        _ => false,
    }
}

/// Tally of reviews per outcome.
#[derive(Debug, Clone, Copy, Default, PartialEq, Eq, Structural)]
pub struct HumanReviewOutcomeCounts {
    pub accepted_count: i64,
    pub corrected_count: i64,
    pub rejected_count: i64,
    pub false_positive_count: i64,
    pub missed_issue_count: i64,
    pub ignored_count: i64,
}

/// The tally's count for one outcome.
pub open spec fn count_of(c: HumanReviewOutcomeCounts, o: HumanReviewOutcome) -> i64 {
    match o {
        HumanReviewOutcome::Accepted => c.accepted_count,
        HumanReviewOutcome::Corrected => c.corrected_count,
        HumanReviewOutcome::Rejected => c.rejected_count,
        HumanReviewOutcome::FalsePositive => c.false_positive_count,
        HumanReviewOutcome::MissedIssue => c.missed_issue_count,
        HumanReviewOutcome::Ignored => c.ignored_count,
    }
}

/// Counts one more review with `outcome`; the other counts stay.
pub fn count_outcome(counts: &mut HumanReviewOutcomeCounts, outcome: HumanReviewOutcome)
    requires
        count_of(*old(counts), outcome) < i64::MAX,
    ensures
        forall|o: HumanReviewOutcome|
            #[trigger] count_of(*final(counts), o) == if o == outcome {
                count_of(*old(counts), o) + 1
            } else {
                count_of(*old(counts), o) as int
            },
{
    match outcome {
        HumanReviewOutcome::Accepted => counts.accepted_count = counts.accepted_count + 1,
        HumanReviewOutcome::Corrected => counts.corrected_count = counts.corrected_count + 1,
        HumanReviewOutcome::Rejected => counts.rejected_count = counts.rejected_count + 1,
        HumanReviewOutcome::FalsePositive => {
            counts.false_positive_count = counts.false_positive_count + 1
        },
        HumanReviewOutcome::MissedIssue => {
            counts.missed_issue_count = counts.missed_issue_count + 1
        },
        HumanReviewOutcome::Ignored => counts.ignored_count = counts.ignored_count + 1,
    }
}

// ---------------------------------------------------------------------------
// Reason codes
// ---------------------------------------------------------------------------

/// `value` as an owned string, or nothing when it is empty.
pub fn non_empty_string(value: &str) -> (r: Option<String>)
    ensures
        value@.len() == 0 ==> r is None,
        value@.len() > 0 ==> (r matches Some(s) && s@ == value@),
{
    let v = chars_of(value);
    if v.len() == 0 {
        None
    } else {
        Some(string_of(&v))
    }
}

/// The codes trimmed, with the ones that are blank dropped, in order.
pub open spec fn cleaned_codes(codes: Seq<String>) -> Seq<Seq<char>>
    decreases codes.len(),
{
    if codes.len() == 0 {
        Seq::empty()
    } else {
        let rest = cleaned_codes(codes.drop_last());
        let t = trim(codes.last()@);
        if t.len() == 0 {
            rest
        } else {
            rest.push(t)
        }
    }
}

/// Reason codes trimmed, blank ones dropped, order kept.
pub fn clean_reason_codes(values: Vec<String>) -> (r: Vec<String>)
    ensures
        r@.map_values(|s: String| s@) == cleaned_codes(values@),
{
    let mut out: Vec<String> = Vec::new();
    let mut i: usize = 0;
    while i < values.len()
        invariant
            i <= values.len(),
            out@.map_values(|s: String| s@) == cleaned_codes(values@.take(i as int)),
        decreases values.len() - i,
    {
        let t = trim_chars(&chars_of(values[i].as_str()));
        let ts = string_of(&t);
        assert(values@.take(i + 1).drop_last() =~= values@.take(i as int));
        assert(values@.take(i + 1).last() == values@[i as int]);
        match non_empty_string(ts.as_str()) {
            Some(s) => {
                let ghost before = out@;
                out.push(s);
                assert(out@.map_values(|s: String| s@) =~= before.map_values(|s: String| s@).push(
                    t@,
                ));
            },
            None => {},
        }
        i = i + 1;
    }
    assert(values@.take(values.len() as int) =~= values@);
    out
}

/// Some code is blank after trimming.
pub open spec fn has_blank_code(codes: Seq<String>) -> bool {
    exists|i: int| 0 <= i < codes.len() && trim((#[trigger] codes[i])@).len() == 0
}

/// A review event's reason codes must not be blank.
pub fn validate_reason_codes(codes: &Vec<String>) -> (r: Result<(), StorageError>)
    ensures
        !has_blank_code(codes@) ==> r is Ok,
        has_blank_code(codes@) ==> (r matches Err(e) && is_internal(
            e,
            "reason_codes must not contain empty values"@,
        )),
{
    let mut i: usize = 0;
    while i < codes.len()
        invariant
            i <= codes.len(),
            forall|j: int| 0 <= j < i ==> trim((#[trigger] codes@[j])@).len() > 0,
        decreases codes.len() - i,
    {
        let t = trim_chars(&chars_of(codes[i].as_str()));
        if t.len() == 0 {
            return Err(internal("reason_codes must not contain empty values"));
        }
        i = i + 1;
    }
    Ok(())
}

/// Review metadata must be absent (`null`) or an object.
pub fn validate_metadata(value: &JsonValue) -> (r: Result<(), StorageError>)
    ensures
        (value is Null || value is Object) ==> r is Ok,
        !(value is Null || value is Object) ==> (r matches Err(e) && is_internal(
            e,
            "metadata must be a JSON object"@,
        )),
{
    match value {
        JsonValue::Null => Ok(()),
        JsonValue::Object(_) => Ok(()),
        _ => Err(internal("metadata must be a JSON object")),
    }
}

/// A request to record a review event is valid when its metadata is
/// absent or an object and none of its reason codes is blank; the metadata
/// is checked first.
pub fn validate_create_event(metadata: &JsonValue, reason_codes: &Vec<String>) -> (r: Result<
    (),
    StorageError,
>)
    ensures
        !(metadata is Null || metadata is Object) ==> (r matches Err(e) && is_internal(
            e,
            "metadata must be a JSON object"@,
        )),
        (metadata is Null || metadata is Object) && has_blank_code(reason_codes@) ==> (r matches Err(
            e,
        ) && is_internal(e, "reason_codes must not contain empty values"@)),
        (metadata is Null || metadata is Object) && !has_blank_code(reason_codes@) ==> r is Ok,
{
    validate_metadata(metadata)?;
    validate_reason_codes(reason_codes)
}

/// The metadata a review event stores: an absent one becomes an empty
/// object.
pub fn normalize_metadata(value: JsonValue) -> (r: JsonValue)
    ensures
        value is Null ==> is_empty_object(r),
        !(value is Null) ==> r == value,
{
    match value {
        JsonValue::Null => JsonValue::Object(Vec::new()),
        other => other,
    }
}

/// The stored reason codes of a review event: a list whose items are all
/// strings.
pub open spec fn all_strings(items: Seq<JsonValue>) -> bool {
    forall|i: int| 0 <= i < items.len() ==> (#[trigger] items[i]) is Str
}

/// The texts of a list of strings.
pub open spec fn string_items(items: Seq<JsonValue>) -> Seq<Seq<char>> {
    items.map_values(|v: JsonValue| json_text(Some(v)).unwrap_or(Seq::empty()))
}

/// Reads the reason codes a review event stored as JSON: a list of strings,
/// in order.
pub fn parse_reason_codes(value: JsonValue) -> (r: Result<Vec<String>, StorageError>)
    ensures
        match value {
            JsonValue::Array(xs) => if all_strings(xs@) {
                r matches Ok(codes) && codes@.map_values(|s: String| s@) == string_items(xs@)
            } else {
                r matches Err(e) && is_internal(e, "reason_codes contains a non-string value"@)
            },
            _ => r matches Err(e) && is_internal(e, "reason_codes must be a JSON array"@),
        },
{
    match value {
        JsonValue::Array(items) => {
            let ghost before = items@;
            let mut codes: Vec<String> = Vec::new();
            for item in it: items.into_iter()
                invariant
                    it.seq() == before,
                    value matches JsonValue::Array(xs) && xs@ == before,
                    codes.len() == it.index(),
                    forall|i: int| 0 <= i < codes.len() ==> (#[trigger] before[i]) is Str,
                    codes@.map_values(|s: String| s@) == string_items(before.take(
                        it.index() as int,
                    )),
            {
                match item {
                    JsonValue::Str(code) => {
                        let ghost prev = codes@;
                        codes.push(code);
                        proof {
                            let n = prev.len() as int;
                            assert(before.take(n + 1) =~= before.take(n).push(before[n]));
                            assert(codes@.map_values(|s: String| s@) =~= prev.map_values(
                                |s: String| s@,
                            ).push(before[n]->Str_0@));
                            assert(string_items(before.take(n + 1)) =~= string_items(
                                before.take(n),
                            ).push(before[n]->Str_0@));
                        }
                    },
                    _ => {
                        proof {
                            assert(!all_strings(before));
                        }
                        return Err(internal("reason_codes contains a non-string value"));
                    },
                }
            }
            proof {
                assert(before.take(before.len() as int) =~= before);
            }
            Ok(codes)
        },
        _ => Err(internal("reason_codes must be a JSON array")),
    }
}

// ---------------------------------------------------------------------------
// Analytics rows and their orderings
// ---------------------------------------------------------------------------

/// Sorts analytics rows into their listing order: by name for workflow
/// steps and groups. The result holds the same rows, in non-decreasing
/// order, and rows that tie (for steps and groups: rows with equal names)
/// keep their input order.
pub fn sort_named_rows<T: RowOrder>(rows: Vec<T>) -> (out: Vec<T>)
    requires
        rows_ok(rows@),
    ensures
        out@.to_multiset() == rows@.to_multiset(),
        rows_sorted(out@),
        sorted_stably(rows@, out@),
{
    sort_rows(rows)
}

/// A row of review counts for one workflow step.
#[derive(Debug, Clone, PartialEq, Eq)]
pub struct HumanReviewWorkflowStepRow {
    pub workflow_step: String,
    pub human_review_count: i64,
    pub corrected_count: i64,
    pub rejected_count: i64,
    pub false_positive_count: i64,
}

/// A row of review counts for one group (an agent or a run kind).
#[derive(Debug, Clone, PartialEq, Eq)]
pub struct HumanReviewGroupRow {
    pub group: String,
    pub human_review_count: i64,
    pub human_intervention_count: i64,
}

/// How often a reason code was given.
#[derive(Debug, Clone, PartialEq, Eq)]
pub struct HumanReviewReasonRow {
    pub reason_code: String,
    pub count: i64,
}

/// Escalations, corrections and false positives attributed to a policy.
#[derive(Debug, Clone, PartialEq, Eq)]
pub struct HumanReviewPolicyRow {
    pub policy_id: String,
    pub escalation_count: i64,
    pub corrected_count: i64,
    pub false_positive_count: i64,
}

/// Workflow steps are listed by name.
impl RowOrder for HumanReviewWorkflowStepRow {
    open spec fn row_ok(&self) -> bool {
        true
    }

    open spec fn row_le(&self, other: &Self) -> bool {
        text_le(self.workflow_step@, other.workflow_step@)
    }

    proof fn lemma_row_le_total(a: &Self, b: &Self) {
        lemma_text_lt_total(a.workflow_step@, b.workflow_step@);
    }

    proof fn lemma_row_le_transitive(a: &Self, b: &Self, c: &Self) {
        if text_lt(a.workflow_step@, b.workflow_step@) && text_lt(
            b.workflow_step@,
            c.workflow_step@,
        ) {
            lemma_text_lt_transitive(a.workflow_step@, b.workflow_step@, c.workflow_step@);
        }
    }

    fn listed_no_later(&self, other: &Self) -> (r: bool) {
        let a = chars_of(self.workflow_step.as_str());
        let b = chars_of(other.workflow_step.as_str());
        proof {
            lemma_text_lt_total(a@, b@);
        }
        !text_less(&b, &a)
    }
}

/// Groups are listed by name.
impl RowOrder for HumanReviewGroupRow {
    open spec fn row_ok(&self) -> bool {
        true
    }

    open spec fn row_le(&self, other: &Self) -> bool {
        text_le(self.group@, other.group@)
    }

    proof fn lemma_row_le_total(a: &Self, b: &Self) {
        lemma_text_lt_total(a.group@, b.group@);
    }

    proof fn lemma_row_le_transitive(a: &Self, b: &Self, c: &Self) {
        if text_lt(a.group@, b.group@) && text_lt(b.group@, c.group@) {
            lemma_text_lt_transitive(a.group@, b.group@, c.group@);
        }
    }

    fn listed_no_later(&self, other: &Self) -> (r: bool) {
        let a = chars_of(self.group.as_str());
        let b = chars_of(other.group.as_str());
        proof {
            lemma_text_lt_total(a@, b@);
        }
        !text_less(&b, &a)
    }
}

/// Workflow-step rows and group rows tie exactly when their names are equal,
/// so their sort keeps rows of one name in input order.
pub proof fn lemma_named_rows_tie(
    a: HumanReviewWorkflowStepRow,
    b: HumanReviewWorkflowStepRow,
    c: HumanReviewGroupRow,
    d: HumanReviewGroupRow,
)
    ensures
        rows_tie(a, b) <==> a.workflow_step@ == b.workflow_step@,
        rows_tie(c, d) <==> c.group@ == d.group@,
{
    lemma_text_lt_total(a.workflow_step@, b.workflow_step@);
    lemma_text_lt_total(c.group@, d.group@);
}

/// Reasons are listed most frequent first, ties by code.
impl RowOrder for HumanReviewReasonRow {
    open spec fn row_ok(&self) -> bool {
        true
    }

    open spec fn row_le(&self, other: &Self) -> bool {
        self.count > other.count || (self.count == other.count && text_le(
            self.reason_code@,
            other.reason_code@,
        ))
    }

    proof fn lemma_row_le_total(a: &Self, b: &Self) {
        lemma_text_lt_total(a.reason_code@, b.reason_code@);
    }

    proof fn lemma_row_le_transitive(a: &Self, b: &Self, c: &Self) {
        if text_lt(a.reason_code@, b.reason_code@) && text_lt(b.reason_code@, c.reason_code@) {
            lemma_text_lt_transitive(a.reason_code@, b.reason_code@, c.reason_code@);
        }
    }

    fn listed_no_later(&self, other: &Self) -> (r: bool) {
        if self.count != other.count {
            self.count > other.count
        } else {
            let a = chars_of(self.reason_code.as_str());
            let b = chars_of(other.reason_code.as_str());
            proof {
                lemma_text_lt_total(a@, b@);
            }
            !text_less(&b, &a)
        }
    }
}

/// The attention a policy drew: escalations, corrections and false
/// positives together.
pub open spec fn policy_total(r: HumanReviewPolicyRow) -> int {
    r.escalation_count + r.corrected_count + r.false_positive_count
}

/// Policies are listed by total attention, most first, ties by id.
impl RowOrder for HumanReviewPolicyRow {
    open spec fn row_ok(&self) -> bool {
        true
    }

    open spec fn row_le(&self, other: &Self) -> bool {
        policy_total(*self) > policy_total(*other) || (policy_total(*self) == policy_total(*other)
            && text_le(self.policy_id@, other.policy_id@))
    }

    proof fn lemma_row_le_total(a: &Self, b: &Self) {
        lemma_text_lt_total(a.policy_id@, b.policy_id@);
    }

    proof fn lemma_row_le_transitive(a: &Self, b: &Self, c: &Self) {
        if text_lt(a.policy_id@, b.policy_id@) && text_lt(b.policy_id@, c.policy_id@) {
            lemma_text_lt_transitive(a.policy_id@, b.policy_id@, c.policy_id@);
        }
    }

    fn listed_no_later(&self, other: &Self) -> (r: bool) {
        let a_total: i128 = self.escalation_count as i128 + self.corrected_count as i128
            + self.false_positive_count as i128;
        let b_total: i128 = other.escalation_count as i128 + other.corrected_count as i128
            + other.false_positive_count as i128;
        if a_total != b_total {
            a_total > b_total
        } else {
            let a = chars_of(self.policy_id.as_str());
            let b = chars_of(other.policy_id.as_str());
            proof {
                lemma_text_lt_total(a@, b@);
            }
            !text_less(&b, &a)
        }
    }
}

/// Reason rows, most frequent first and ties by code.
pub fn sort_reason_rows(rows: Vec<HumanReviewReasonRow>) -> (out: Vec<HumanReviewReasonRow>)
    ensures
        out@.to_multiset() == rows@.to_multiset(),
        sorted_stably(rows@, out@),
        forall|i: int, j: int|
            0 <= i < j < out@.len() ==> (#[trigger] out@[i]).count > (#[trigger] out@[j]).count || (
            out@[i].count == out@[j].count && text_le(out@[i].reason_code@, out@[j].reason_code@)),
{
    sort_named_rows(rows)
}

/// Policy rows, by total attention (most first) and ties by policy id.
pub fn sort_policy_rows(rows: Vec<HumanReviewPolicyRow>) -> (out: Vec<HumanReviewPolicyRow>)
    ensures
        out@.to_multiset() == rows@.to_multiset(),
        sorted_stably(rows@, out@),
        forall|i: int, j: int|
            0 <= i < j < out@.len() ==> policy_total(#[trigger] out@[i]) > policy_total(
                #[trigger] out@[j],
            ) || (policy_total(out@[i]) == policy_total(out@[j]) && text_le(
                out@[i].policy_id@,
                out@[j].policy_id@,
            )),
{
    sort_named_rows(rows)
}

} // verus!
