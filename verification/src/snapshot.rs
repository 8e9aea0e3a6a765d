//! Run snapshots: the JSON documents a snapshot stores, and the data
//! minimisation applied to them. Unless a decision's payload carries a
//! verified redaction report, the snapshot keeps no safe output, no checked
//! excerpts and none of the event's free-text or parameter fields.

use vstd::prelude::*;
use crate::evaluation::redaction_verified;
use crate::text::same_text;
use crate::analytics::triggered_entries;
use crate::tally::{
    Counts, KeyedDelta, KeyedTotal, counts_view, is_tally, tally_by_key, unit_delta, is_grouping,
    group_by_key, total_for, values_for, lemma_total_for_concat, lemma_values_for_concat,
    lemma_tally_nonnegative,
};
use crate::evaluation::text_in;
use crate::policy::{first_occurrences, texts, unique_policy_ids};
use crate::json::{JsonValue, member_index, field, find_member, field_of, text_field, bool_field, is_empty_object};

verus! {

// ---------------------------------------------------------------------------
// Redaction report
// ---------------------------------------------------------------------------

/// The payload's `redaction` report says that redaction was applied to the
/// input, the proposed output and the context.
pub open spec fn redaction_report_applied(payload: JsonValue) -> bool {
    match field(payload, "redaction"@) {
        Some(report) => {
            &&& field(report, "status"@) matches Some(JsonValue::Str(s)) && s@ == "applied"@
            &&& field(report, "input_redacted"@) == Some(JsonValue::Bool(true))
            &&& field(report, "proposed_output_redacted"@) == Some(JsonValue::Bool(true))
            &&& field(report, "context_redacted"@) == Some(JsonValue::Bool(true))
        },
        None => false,
    }
}

/// The agent captures redacted content and the payload's redaction report
/// confirms it.
pub open spec fn verified_redacted(payload: JsonValue, content_mode: Option<&str>) -> bool {
    (content_mode matches Some(m) && m@ == "redacted"@) && redaction_report_applied(payload)
}

/// Whether a payload may be kept as it is in a snapshot.
pub fn snapshot_redaction_verified(payload: &JsonValue, content_mode: Option<&str>) -> (r: bool)
    ensures
        r == verified_redacted(*payload, content_mode),
{
    match field_of(payload, "redaction") {
        Some(report) => redaction_verified(
            content_mode,
            text_field(report, "status"),
            bool_field(report, "input_redacted"),
            bool_field(report, "proposed_output_redacted"),
            bool_field(report, "context_redacted"),
        ),
        None => false,
    }
}

// ---------------------------------------------------------------------------
// Minimisation
// ---------------------------------------------------------------------------

/// Event members whose content is replaced by `null`.
pub open spec fn nulled_event_key(k: Seq<char>) -> bool {
    k == "label"@ || k == "input_summary"@ || k == "output_summary"@ || k == "context"@
}

/// Event members whose content is replaced by an empty object.
pub open spec fn emptied_event_key(k: Seq<char>) -> bool {
    k == "metadata"@ || k == "provenance"@
}

/// Payload members that a snapshot drops.
pub open spec fn dropped_payload_key(k: Seq<char>) -> bool {
    k == "safe_output"@ || k == "checked_input_excerpt"@ || k == "checked_output_excerpt"@
}

/// `after` is the action object `before` with its `parameters` set to
/// `null`: in place where the action has them, else as a new last member.
pub open spec fn parameters_cleared(
    before: Seq<(String, JsonValue)>,
    after: Seq<(String, JsonValue)>,
) -> bool {
    if member_index(before, "parameters"@) is Some {
        &&& after.len() == before.len()
        &&& forall|i: int|
            0 <= i < before.len() ==> #[trigger] after[i].0 == before[i].0 && after[i].1 == (
            if before[i].0@ == "parameters"@ {
                JsonValue::Null
            } else {
                before[i].1
            })
    } else {
        &&& after.len() == before.len() + 1
        &&& forall|i: int| 0 <= i < before.len() ==> #[trigger] after[i] == before[i]
        &&& after.last().0@ == "parameters"@
        &&& after.last().1 == JsonValue::Null
    }
}

/// What minimisation makes of the event member `k` whose value was
/// `before`.
pub open spec fn event_member_minimized(k: Seq<char>, before: JsonValue, after: JsonValue) -> bool {
    if nulled_event_key(k) {
        after == JsonValue::Null
    } else if emptied_event_key(k) {
        after matches JsonValue::Object(m) && m@.len() == 0
    } else if k == "sources"@ {
        after matches JsonValue::Array(xs) && xs@.len() == 0
    } else if k == "action"@ {
        match before {
            JsonValue::Object(bm) => after matches JsonValue::Object(am) && parameters_cleared(
                bm@,
                am@,
            ),
            _ => after == before,
        }
    } else {
        after == before
    }
}

/// Each member of the event keeps its key, in order, and has its value
/// minimised.
pub open spec fn event_members_minimized(
    before: Seq<(String, JsonValue)>,
    after: Seq<(String, JsonValue)>,
) -> bool {
    &&& after.len() == before.len()
    &&& forall|i: int|
        0 <= i < before.len() ==> #[trigger] after[i].0 == before[i].0 && event_member_minimized(
            before[i].0@,
            before[i].1,
            after[i].1,
        )
}

/// `after` is the event `before` minimised; a value that is not an object
/// is left as it is.
pub open spec fn event_minimized(before: JsonValue, after: JsonValue) -> bool {
    match before {
        JsonValue::Object(bm) => after matches JsonValue::Object(am) && event_members_minimized(
            bm@,
            am@,
        ),
        _ => after == before,
    }
}

/// The payload members `before` without the dropped ones, in order, with
/// the event minimised.
pub open spec fn payload_members_minimized(
    before: Seq<(String, JsonValue)>,
    after: Seq<(String, JsonValue)>,
) -> bool
    decreases before.len(),
{
    if before.len() == 0 {
        after.len() == 0
    } else {
        let m = before.last();
        if dropped_payload_key(m.0@) {
            payload_members_minimized(before.drop_last(), after)
        } else {
            &&& after.len() > 0
            &&& after.last().0 == m.0
            &&& if m.0@ == "event"@ {
                event_minimized(m.1, after.last().1)
            } else {
                after.last().1 == m.1
            }
            &&& payload_members_minimized(before.drop_last(), after.drop_last())
        }
    }
}

/// `after` is what a snapshot stores of the decision payload `before`.
pub open spec fn snapshot_payload_minimized(
    before: JsonValue,
    content_mode: Option<&str>,
    after: JsonValue,
) -> bool {
    if verified_redacted(before, content_mode) {
        after == before
    } else {
        match before {
            JsonValue::Object(bm) => after matches JsonValue::Object(am)
                && payload_members_minimized(bm@, am@),
            _ => after == before,
        }
    }
}

/// The members of an action object with `parameters` set to `null`.
fn clear_parameters(members: Vec<(String, JsonValue)>) -> (r: Vec<(String, JsonValue)>)
    ensures
        parameters_cleared(members@, r@),
{
    let present = find_member(&members, "parameters").is_some();
    let ghost before = members@;
    let mut out: Vec<(String, JsonValue)> = Vec::new();
    for m in it: members.into_iter()
        invariant
            it.seq() == before,
            out.len() == it.index(),
            forall|i: int|
                0 <= i < out.len() ==> #[trigger] out@[i].0 == before[i].0 && out@[i].1 == (
                if before[i].0@ == "parameters"@ {
                    JsonValue::Null
                } else {
                    before[i].1
                }),
    {
        let (k, v) = m;
        if same_text(k.as_str(), "parameters") {
            out.push((k, JsonValue::Null));
        } else {
            out.push((k, v));
        }
    }
    if !present {
        proof {
            assert forall|i: int| 0 <= i < before.len() implies #[trigger] out@[i] == before[i] by {
                if before[i].0@ == "parameters"@ {
                    lemma_key_found(before, "parameters"@, i);
                }
            }
        }
        out.push(("parameters".to_owned(), JsonValue::Null));
    }
    out
}

proof fn lemma_key_found(members: Seq<(String, JsonValue)>, key: Seq<char>, i: int)
    requires
        0 <= i < members.len(),
        members[i].0@ == key,
    ensures
        member_index(members, key) is Some,
    decreases members.len(),
{
    if i < members.len() - 1 {
        assert(members.drop_last()[i] == members[i]);
        lemma_key_found(members.drop_last(), key, i);
    }
}

/// What minimisation makes of the event member `key` whose value is
/// `value`.
fn minimize_event_member(key: &String, value: JsonValue) -> (r: JsonValue)
    ensures
        event_member_minimized(key@, value, r),
{
    let k = key.as_str();
    if same_text(k, "label") || same_text(k, "input_summary") || same_text(k, "output_summary")
        || same_text(k, "context") {
        JsonValue::Null
    } else if same_text(k, "metadata") || same_text(k, "provenance") {
        JsonValue::Object(Vec::new())
    } else if same_text(k, "sources") {
        JsonValue::Array(Vec::new())
    } else if same_text(k, "action") {
        match value {
            JsonValue::Object(members) => JsonValue::Object(clear_parameters(members)),
            other => other,
        }
    } else {
        value
    }
}

/// A run event as a snapshot stores it: its label, summaries and context
/// become `null`, its metadata and provenance empty objects, its sources an
/// empty list, and its action's parameters `null`.
pub fn minimize_snapshot_event(event: JsonValue) -> (r: JsonValue)
    ensures
        event_minimized(event, r),
{
    match event {
        JsonValue::Object(members) => {
            let ghost before = members@;
            let mut out: Vec<(String, JsonValue)> = Vec::new();
            for m in it: members.into_iter()
                invariant
                    it.seq() == before,
                    out.len() == it.index(),
                    forall|i: int|
                        0 <= i < out.len() ==> #[trigger] out@[i].0 == before[i].0
                            && event_member_minimized(before[i].0@, before[i].1, out@[i].1),
            {
                let (k, v) = m;
                let nv = minimize_event_member(&k, v);
                out.push((k, nv));
            }
            JsonValue::Object(out)
        },
        other => other,
    }
}

/// A decision payload as a snapshot stores it. A payload whose agent
/// captures redacted content and whose redaction report confirms it is kept
/// as it is; otherwise the safe output and the checked excerpts are dropped
/// and the event is minimised.
pub fn minimize_snapshot_payload(payload: JsonValue, content_mode: Option<&str>) -> (r: JsonValue)
    ensures
        snapshot_payload_minimized(payload, content_mode, r),
{
    if snapshot_redaction_verified(&payload, content_mode) {
        return payload;
    }
    match payload {
        JsonValue::Object(members) => {
            let ghost before = members@;
            let ghost mut n: int = 0;
            let mut out: Vec<(String, JsonValue)> = Vec::new();
            for m in it: members.into_iter()
                invariant
                    it.seq() == before,
                    n == it.index(),
                    0 <= n <= before.len(),
                    payload_members_minimized(before.take(n), out@),
            {
                proof {
                    assert(before.take(n + 1).drop_last() =~= before.take(n));
                    assert(before.take(n + 1).last() == before[n]);
                }
                let ghost prev = out@;
                let (k, v) = m;
                let ks = k.as_str();
                if same_text(ks, "safe_output") || same_text(ks, "checked_input_excerpt")
                    || same_text(ks, "checked_output_excerpt") {
                } else if same_text(ks, "event") {
                    let nv = minimize_snapshot_event(v);
                    out.push((k, nv));
                    proof {
                        assert(out@.drop_last() =~= prev);
                    }
                } else {
                    out.push((k, v));
                    proof {
                        assert(out@.drop_last() =~= prev);
                    }
                }
                proof {
                    n = n + 1;
                }
            }
            proof {
                assert(before.take(n) =~= before);
            }
            JsonValue::Object(out)
        },
        other => other,
    }
}

/// Every free-text member of an event object is `null`, and its metadata
/// and provenance are empty.
pub open spec fn event_content_cleared(event: JsonValue) -> bool {
    match event {
        JsonValue::Object(m) => forall|i: int|
            0 <= i < m@.len() ==> (nulled_event_key((#[trigger] m@[i]).0@) ==> m@[i].1
                == JsonValue::Null) && (emptied_event_key(m@[i].0@) ==> is_empty_object(m@[i].1)),
        _ => true,
    }
}

proof fn lemma_event_keys_apart(k: Seq<char>)
    ensures
        !(emptied_event_key(k) && nulled_event_key(k)),
{
    reveal_strlit("label");
    reveal_strlit("input_summary");
    reveal_strlit("output_summary");
    reveal_strlit("context");
    reveal_strlit("metadata");
    reveal_strlit("provenance");
    assert("label"@.len() == 5);
    assert("input_summary"@.len() == 13);
    assert("output_summary"@.len() == 14);
    assert("context"@.len() == 7);
    assert("metadata"@.len() == 8);
    assert("provenance"@.len() == 10);
}

proof fn lemma_event_cleared(before: JsonValue, after: JsonValue)
    requires
        event_minimized(before, after),
    ensures
        event_content_cleared(after),
{
    if let JsonValue::Object(bm) = before {
        if let JsonValue::Object(am) = after {
            assert forall|i: int| 0 <= i < am@.len() implies (nulled_event_key(
                (#[trigger] am@[i]).0@,
            ) ==> am@[i].1 == JsonValue::Null) && (emptied_event_key(am@[i].0@) ==> is_empty_object(am@[i].1)) by {
                assert(am@[i].0 == bm@[i].0);
                lemma_event_keys_apart(am@[i].0@);
            }
        }
    }
}

proof fn lemma_payload_members(before: Seq<(String, JsonValue)>, after: Seq<(String, JsonValue)>)
    requires
        payload_members_minimized(before, after),
    ensures
        forall|i: int|
            0 <= i < after.len() ==> !dropped_payload_key((#[trigger] after[i]).0@) && (after[i].0@
                == "event"@ ==> event_content_cleared(after[i].1)),
    decreases before.len(),
{
    if before.len() > 0 {
        let m = before.last();
        if dropped_payload_key(m.0@) {
            lemma_payload_members(before.drop_last(), after);
        } else {
            lemma_payload_members(before.drop_last(), after.drop_last());
            if m.0@ == "event"@ {
                lemma_event_cleared(m.1, after.last().1);
            }
            assert forall|i: int| 0 <= i < after.len() implies !dropped_payload_key(
                (#[trigger] after[i]).0@,
            ) && (after[i].0@ == "event"@ ==> event_content_cleared(after[i].1)) by {
                if i < after.len() - 1 {
                    assert(after.drop_last()[i] == after[i]);
                }
            }
        }
    }
}

/// Unless a payload is verified redacted, what a snapshot stores of it has
/// no safe output and no checked excerpt, and its event, where that is an
/// object, has every free-text member `null` and empty metadata and
/// provenance.
pub proof fn law_snapshot_keeps_no_unredacted_content(
    before: JsonValue,
    content_mode: Option<&str>,
    after: JsonValue,
)
    requires
        snapshot_payload_minimized(before, content_mode, after),
        !verified_redacted(before, content_mode),
        before is Object,
    ensures
        after matches JsonValue::Object(am) && forall|i: int|
            0 <= i < am@.len() ==> !dropped_payload_key((#[trigger] am@[i]).0@) && (am@[i].0@
                == "event"@ ==> event_content_cleared(am@[i].1)),
{
    if let JsonValue::Object(bm) = before {
        if let JsonValue::Object(am) = after {
            lemma_payload_members(bm@, am@);
        }
    }
}

// ---------------------------------------------------------------------------
// Counts
// ---------------------------------------------------------------------------

/// A decision trace as a snapshot counts it.
#[derive(Debug, PartialEq)]
pub struct SnapshotTrace {
    pub trace_id: String,
    pub agent_id: Option<String>,
    pub decision: String,
    pub late_evidence: bool,
    pub payload: JsonValue,
}

/// A run event as a snapshot counts it.
#[derive(Debug, Clone, PartialEq, Eq)]
pub struct SnapshotEvent {
    pub agent_id: String,
    pub kind: String,
}

/// A span as a snapshot counts it.
#[derive(Debug, Clone, PartialEq, Eq)]
pub struct SnapshotSpan {
    pub agent_id: String,
    pub late_evidence: bool,
}

/// The run-wide counts a snapshot records.
#[derive(Debug, Clone, Copy, PartialEq, Eq, Structural)]
pub struct SnapshotCounts {
    pub denied_decisions: i64,
    pub event_count: i64,
    pub trace_count: i64,
    pub span_count: i64,
    pub tool_call_count: i64,
    pub unattributed_trace_count: i64,
    pub late_evidence_count: i64,
}

/// 1 when `b` holds, else 0.
pub open spec fn one_if(b: bool) -> int {
    if b {
        1
    } else {
        0
    }
}

/// The traces whose decision is `deny`.
pub open spec fn denied_count(ts: Seq<SnapshotTrace>) -> int
    decreases ts.len(),
{
    if ts.len() == 0 {
        0
    } else {
        denied_count(ts.drop_last()) + one_if(ts.last().decision@ == "deny"@)
    }
}

/// The traces whose decision is exactly `deny`.
pub open spec fn denied_traces(ts: Seq<SnapshotTrace>) -> Seq<SnapshotTrace> {
    ts.filter(|t: SnapshotTrace| t.decision@ == "deny"@)
}

/// The denied count of a snapshot counts the traces whose decision is
/// exactly `deny`, and nothing else: it is the number of such traces, a
/// trace with any other decision adds nothing, and every trace with that
/// decision adds one.
pub proof fn law_denied_counts_deny_only(ts: Seq<SnapshotTrace>, t: SnapshotTrace)
    ensures
        denied_count(ts) == denied_traces(ts).len(),
        t.decision@ != "deny"@ ==> denied_count(ts.push(t)) == denied_count(ts),
        t.decision@ == "deny"@ ==> denied_count(ts.push(t)) == denied_count(ts) + 1,
        0 <= denied_count(ts) <= ts.len(),
    decreases ts.len(),
{
    reveal(Seq::filter);
    assert(ts.push(t).drop_last() =~= ts);
    if ts.len() > 0 {
        law_denied_counts_deny_only(ts.drop_last(), ts.last());
    }
}

/// The traces attributed to no agent.
pub open spec fn unattributed_count(ts: Seq<SnapshotTrace>) -> int
    decreases ts.len(),
{
    if ts.len() == 0 {
        0
    } else {
        unattributed_count(ts.drop_last()) + one_if(ts.last().agent_id is None)
    }
}

/// The traces that arrived as late evidence.
pub open spec fn late_trace_count(ts: Seq<SnapshotTrace>) -> int
    decreases ts.len(),
{
    if ts.len() == 0 {
        0
    } else {
        late_trace_count(ts.drop_last()) + one_if(ts.last().late_evidence)
    }
}

/// The events that are tool calls.
pub open spec fn tool_call_count(es: Seq<SnapshotEvent>) -> int
    decreases es.len(),
{
    if es.len() == 0 {
        0
    } else {
        tool_call_count(es.drop_last()) + one_if(es.last().kind@ == "tool_call"@)
    }
}

/// The spans that arrived as late evidence.
pub open spec fn late_span_count(ss: Seq<SnapshotSpan>) -> int
    decreases ss.len(),
{
    if ss.len() == 0 {
        0
    } else {
        late_span_count(ss.drop_last()) + one_if(ss.last().late_evidence)
    }
}

/// The other run-wide counts of a snapshot each count exactly their own
/// kind of record: traces attributed to no agent, events that are tool
/// calls, and traces and spans that arrived as late evidence.
pub proof fn law_snapshot_counts_select(ts: Seq<SnapshotTrace>, es: Seq<SnapshotEvent>, ss: Seq<SnapshotSpan>)
    ensures
        unattributed_count(ts) == ts.filter(|t: SnapshotTrace| t.agent_id is None).len(),
        late_trace_count(ts) == ts.filter(|t: SnapshotTrace| t.late_evidence).len(),
        tool_call_count(es) == es.filter(|e: SnapshotEvent| e.kind@ == "tool_call"@).len(),
        late_span_count(ss) == ss.filter(|x: SnapshotSpan| x.late_evidence).len(),
    decreases ts.len() + es.len() + ss.len(),
{
    reveal(Seq::filter);
    if ts.len() > 0 {
        law_snapshot_counts_select(ts.drop_last(), es, ss);
    }
    if es.len() > 0 {
        law_snapshot_counts_select(ts, es.drop_last(), ss);
    }
    if ss.len() > 0 {
        law_snapshot_counts_select(ts, es, ss.drop_last());
    }
}

/// Counts a run's traces, events and spans for its snapshot.
pub fn snapshot_counts(
    traces: &Vec<SnapshotTrace>,
    events: &Vec<SnapshotEvent>,
    spans: &Vec<SnapshotSpan>,
) -> (r: SnapshotCounts)
    requires
        traces.len() + spans.len() <= i64::MAX,
        events.len() <= i64::MAX,
    ensures
        r.denied_decisions == denied_count(traces@),
        r.event_count == events.len(),
        r.trace_count == traces.len(),
        r.span_count == spans.len(),
        r.tool_call_count == tool_call_count(events@),
        r.unattributed_trace_count == unattributed_count(traces@),
        r.late_evidence_count == late_trace_count(traces@) + late_span_count(spans@),
{
    let mut denied: i64 = 0;
    let mut unattributed: i64 = 0;
    let mut late_traces: i64 = 0;
    let mut i: usize = 0;
    while i < traces.len()
        invariant
            i <= traces.len(),
            traces.len() + spans.len() <= i64::MAX,
            denied == denied_count(traces@.take(i as int)),
            unattributed == unattributed_count(traces@.take(i as int)),
            late_traces == late_trace_count(traces@.take(i as int)),
            0 <= denied <= i,
            0 <= unattributed <= i,
            0 <= late_traces <= i,
        decreases traces.len() - i,
    {
        proof {
            assert(traces@.take(i + 1).drop_last() =~= traces@.take(i as int));
            assert(traces@.take(i + 1).last() == traces@[i as int]);
        }
        let t = &traces[i];
        if same_text(t.decision.as_str(), "deny") {
            denied = denied + 1;
        }
        if t.agent_id.is_none() {
            unattributed = unattributed + 1;
        }
        if t.late_evidence {
            late_traces = late_traces + 1;
        }
        i = i + 1;
    }
    proof {
        assert(traces@.take(traces.len() as int) =~= traces@);
    }
    let mut tool_calls: i64 = 0;
    let mut j: usize = 0;
    while j < events.len()
        invariant
            j <= events.len() <= i64::MAX,
            tool_calls == tool_call_count(events@.take(j as int)),
            0 <= tool_calls <= j,
        decreases events.len() - j,
    {
        proof {
            assert(events@.take(j + 1).drop_last() =~= events@.take(j as int));
            assert(events@.take(j + 1).last() == events@[j as int]);
        }
        if same_text(events[j].kind.as_str(), "tool_call") {
            tool_calls = tool_calls + 1;
        }
        j = j + 1;
    }
    proof {
        assert(events@.take(events.len() as int) =~= events@);
    }
    let mut late_spans: i64 = 0;
    let mut k: usize = 0;
    while k < spans.len()
        invariant
            k <= spans.len(),
            traces.len() + spans.len() <= i64::MAX,
            late_spans == late_span_count(spans@.take(k as int)),
            0 <= late_spans <= k,
        decreases spans.len() - k,
    {
        proof {
            assert(spans@.take(k + 1).drop_last() =~= spans@.take(k as int));
            assert(spans@.take(k + 1).last() == spans@[k as int]);
        }
        if spans[k].late_evidence {
            late_spans = late_spans + 1;
        }
        k = k + 1;
    }
    proof {
        assert(spans@.take(spans.len() as int) =~= spans@);
    }
    SnapshotCounts {
        denied_decisions: denied,
        event_count: events.len() as i64,
        trace_count: traces.len() as i64,
        span_count: spans.len() as i64,
        tool_call_count: tool_calls,
        unattributed_trace_count: unattributed,
        late_evidence_count: late_traces + late_spans,
    }
}

/// A snapshot's capture status: `incomplete` when the capture barrier
/// closed incomplete or some trace is attributed to no agent, else
/// `complete`.
pub fn snapshot_capture_status(barrier_incomplete: bool, unattributed_trace_count: i64) -> (r:
    &'static str)
    ensures
        r@ == if barrier_incomplete || unattributed_trace_count > 0 {
            "incomplete"@
        } else {
            "complete"@
        },
{
    if barrier_incomplete || unattributed_trace_count > 0 {
        "incomplete"
    } else {
        "complete"
    }
}

// ---------------------------------------------------------------------------
// Triggered policies and per-agent activity
// ---------------------------------------------------------------------------

/// The `id` strings of triggered-policy entries, in order; an entry without
/// a string `id` is skipped.
pub open spec fn triggered_id_strings(entries: Seq<JsonValue>) -> Seq<String>
    decreases entries.len(),
{
    if entries.len() == 0 {
        Seq::empty()
    } else {
        let rest = triggered_id_strings(entries.drop_last());
        match field(entries.last(), "id"@) {
            Some(JsonValue::Str(id)) => rest.push(id),
            _ => rest,
        }
    }
}

/// The ids of the policies a trace's payload says were triggered.
pub fn triggered_ids(payload: &JsonValue) -> (r: Vec<String>)
    ensures
        r@ == triggered_id_strings(triggered_entries(*payload)),
{
    let mut ids: Vec<String> = Vec::new();
    match field_of(payload, "triggered_policies") {
        Some(JsonValue::Array(entries)) => {
            let mut i: usize = 0;
            while i < entries.len()
                invariant
                    i <= entries.len(),
                    ids@ == triggered_id_strings(entries@.take(i as int)),
                decreases entries.len() - i,
            {
                proof {
                    assert(entries@.take(i + 1).drop_last() =~= entries@.take(i as int));
                    assert(entries@.take(i + 1).last() == entries@[i as int]);
                }
                match field_of(&entries[i], "id") {
                    Some(JsonValue::Str(id)) => ids.push(id.clone()),
                    _ => {},
                }
                i = i + 1;
            }
            proof {
                assert(entries@.take(entries.len() as int) =~= entries@);
            }
        },
        _ => {},
    }
    ids
}

/// An increment of the first counter of `key`.
pub open spec fn one_for(key: String) -> KeyedDelta {
    KeyedDelta { key, delta: Counts { c0: 1, c1: 0, c2: 0, c3: 0, c4: 0 } }
}

/// One increment per triggered policy entry of each trace, in order.
pub open spec fn policy_deltas(ts: Seq<SnapshotTrace>) -> Seq<KeyedDelta>
    decreases ts.len(),
{
    if ts.len() == 0 {
        Seq::empty()
    } else {
        policy_deltas(ts.drop_last()) + triggered_id_strings(
            triggered_entries(ts.last().payload),
        ).map_values(|k: String| one_for(k))
    }
}

fn push_ones(out: &mut Vec<KeyedDelta>, keys: Vec<String>)
    ensures
        final(out)@ == old(out)@ + keys@.map_values(|k: String| one_for(k)),
{
    let ghost start = out@;
    let ghost ks = keys@;
    for k in it: keys.into_iter()
        invariant
            it.seq() == ks,
            out@ == start + ks.take(it.index() as int).map_values(|k: String| one_for(k)),
    {
        let ghost prev = out@;
        out.push(KeyedDelta { key: k, delta: Counts { c0: 1, c1: 0, c2: 0, c3: 0, c4: 0 } });
        proof {
            let n = prev.len() - start.len();
            assert(ks.take(n + 1) =~= ks.take(n).push(ks[n]));
            assert(out@ =~= start + ks.take(n + 1).map_values(|k: String| one_for(k)));
        }
    }
    proof {
        assert(ks.take(ks.len() as int) =~= ks);
    }
}

/// How often each policy was triggered across a run's traces, one row per
/// policy.
pub fn triggered_policy_counts(traces: &Vec<SnapshotTrace>) -> (rows: Vec<KeyedTotal>)
    requires
        policy_deltas(traces@).len() <= i64::MAX,
    ensures
        is_tally(rows@, policy_deltas(traces@)),
{
    let mut deltas: Vec<KeyedDelta> = Vec::new();
    let mut i: usize = 0;
    while i < traces.len()
        invariant
            i <= traces.len(),
            deltas@ == policy_deltas(traces@.take(i as int)),
        decreases traces.len() - i,
    {
        proof {
            assert(traces@.take(i + 1).drop_last() =~= traces@.take(i as int));
            assert(traces@.take(i + 1).last() == traces@[i as int]);
        }
        let ids = triggered_ids(&traces[i].payload);
        push_ones(&mut deltas, ids);
        i = i + 1;
    }
    proof {
        assert(traces@.take(traces.len() as int) =~= traces@);
        assert forall|j: int| 0 <= j < deltas@.len() implies unit_delta(
            (#[trigger] deltas@[j]).delta,
        ) by {
            lemma_policy_deltas_unit(traces@, j);
        }
    }
    tally_by_key(&deltas)
}

proof fn lemma_policy_deltas_unit(ts: Seq<SnapshotTrace>, j: int)
    requires
        0 <= j < policy_deltas(ts).len(),
    ensures
        policy_deltas(ts)[j].delta == (Counts { c0: 1, c1: 0, c2: 0, c3: 0, c4: 0 }),
    decreases ts.len(),
{
    if ts.len() > 0 {
        let head = policy_deltas(ts.drop_last());
        if j < head.len() {
            lemma_policy_deltas_unit(ts.drop_last(), j);
        }
    }
}

/// The (policy id, trace id) pair of each triggered entry of each trace,
/// in order.
pub open spec fn evidence_pairs(ts: Seq<SnapshotTrace>) -> Seq<(String, String)>
    decreases ts.len(),
{
    if ts.len() == 0 {
        Seq::empty()
    } else {
        evidence_pairs(ts.drop_last()) + triggered_id_strings(
            triggered_entries(ts.last().payload),
        ).map_values(|k: String| (k, ts.last().trace_id))
    }
}

fn push_pairs(out: &mut Vec<(String, String)>, keys: Vec<String>, value: &String)
    ensures
        final(out)@ == old(out)@ + keys@.map_values(|k: String| (k, *value)),
{
    let ghost start = out@;
    let ghost ks = keys@;
    for k in it: keys.into_iter()
        invariant
            it.seq() == ks,
            out@ == start + ks.take(it.index() as int).map_values(|k: String| (k, *value)),
    {
        let ghost prev = out@;
        out.push((k, value.clone()));
        proof {
            let n = prev.len() - start.len();
            assert(ks.take(n + 1) =~= ks.take(n).push(ks[n]));
            assert(out@ =~= start + ks.take(n + 1).map_values(|k: String| (k, *value)));
        }
    }
    proof {
        assert(ks.take(ks.len() as int) =~= ks);
    }
}

/// The traces that evidence each triggered policy, one row per policy in
/// order of first trigger, with its trace ids in order (a trace that
/// triggered a policy twice is listed twice).
pub fn evidence_ids(traces: &Vec<SnapshotTrace>) -> (groups: Vec<(String, Vec<String>)>)
    ensures
        is_grouping(groups@, evidence_pairs(traces@)),
{
    let mut pairs: Vec<(String, String)> = Vec::new();
    let mut i: usize = 0;
    while i < traces.len()
        invariant
            i <= traces.len(),
            pairs@ == evidence_pairs(traces@.take(i as int)),
        decreases traces.len() - i,
    {
        proof {
            assert(traces@.take(i + 1).drop_last() =~= traces@.take(i as int));
            assert(traces@.take(i + 1).last() == traces@[i as int]);
        }
        let ids = triggered_ids(&traces[i].payload);
        push_pairs(&mut pairs, ids, &traces[i].trace_id);
        i = i + 1;
    }
    proof {
        assert(traces@.take(traces.len() as int) =~= traces@);
    }
    group_by_key(&pairs)
}

/// The trace is attributed to agent `a`.
pub open spec fn agent_matches(t: SnapshotTrace, a: Seq<char>) -> bool {
    t.agent_id matches Some(x) && x@ == a
}

/// One increment per triggered policy entry of each trace of agent `a`.
pub open spec fn agent_policy_deltas(ts: Seq<SnapshotTrace>, a: Seq<char>) -> Seq<KeyedDelta>
    decreases ts.len(),
{
    if ts.len() == 0 {
        Seq::empty()
    } else if agent_matches(ts.last(), a) {
        agent_policy_deltas(ts.drop_last(), a) + triggered_id_strings(
            triggered_entries(ts.last().payload),
        ).map_values(|k: String| one_for(k))
    } else {
        agent_policy_deltas(ts.drop_last(), a)
    }
}

/// The (policy id, trace id) pairs of the traces of agent `a`.
pub open spec fn agent_evidence_pairs(ts: Seq<SnapshotTrace>, a: Seq<char>) -> Seq<(String, String)>
    decreases ts.len(),
{
    if ts.len() == 0 {
        Seq::empty()
    } else if agent_matches(ts.last(), a) {
        agent_evidence_pairs(ts.drop_last(), a) + triggered_id_strings(
            triggered_entries(ts.last().payload),
        ).map_values(|k: String| (k, ts.last().trace_id))
    } else {
        agent_evidence_pairs(ts.drop_last(), a)
    }
}

/// The agents of the traces that triggered some policy, in order.
pub open spec fn trigger_agents(ts: Seq<SnapshotTrace>) -> Seq<String>
    decreases ts.len(),
{
    if ts.len() == 0 {
        Seq::empty()
    } else {
        let rest = trigger_agents(ts.drop_last());
        match ts.last().agent_id {
            Some(a) => if triggered_id_strings(triggered_entries(ts.last().payload)).len() > 0 {
                rest.push(a)
            } else {
                rest
            },
            None => rest,
        }
    }
}

proof fn lemma_agent_deltas_bounded(ts: Seq<SnapshotTrace>, a: Seq<char>)
    ensures
        agent_policy_deltas(ts, a).len() <= policy_deltas(ts).len(),
        forall|j: int|
            0 <= j < agent_policy_deltas(ts, a).len() ==> (#[trigger] agent_policy_deltas(
                ts,
                a,
            )[j]).delta == (Counts { c0: 1, c1: 0, c2: 0, c3: 0, c4: 0 }),
    decreases ts.len(),
{
    if ts.len() > 0 {
        lemma_agent_deltas_bounded(ts.drop_last(), a);
    }
}

/// The triggered policies of one agent: how often each was triggered by the
/// agent's traces, and which of its traces evidence each.
#[derive(Debug, PartialEq)]
pub struct AgentPolicyEvidence {
    pub agent_id: String,
    pub triggered: Vec<KeyedTotal>,
    pub evidence: Vec<(String, Vec<String>)>,
}

/// The triggered policies of each agent: one row per participant and per
/// other agent whose traces triggered a policy, in order of first
/// appearance.
pub fn agent_triggered_policies(participants: &Vec<String>, traces: &Vec<SnapshotTrace>) -> (rows:
    Vec<AgentPolicyEvidence>)
    requires
        policy_deltas(traces@).len() <= i64::MAX,
    ensures
        rows@.map_values(|r: AgentPolicyEvidence| r.agent_id@) == first_occurrences(
            texts(participants@) + texts(trigger_agents(traces@)),
        ),
        forall|i: int|
            0 <= i < rows.len() ==> is_tally(
                (#[trigger] rows@[i]).triggered@,
                agent_policy_deltas(traces@, rows@[i].agent_id@),
            ) && is_grouping(rows@[i].evidence@, agent_evidence_pairs(traces@, rows@[i].agent_id@)),
{
    let mut agents: Vec<String> = Vec::new();
    let mut p: usize = 0;
    while p < participants.len()
        invariant
            p <= participants.len(),
            agents@ == participants@.take(p as int),
        decreases participants.len() - p,
    {
        agents.push(participants[p].clone());
        proof {
            assert(participants@.take(p + 1) =~= participants@.take(p as int).push(participants@[p as int]));
        }
        p = p + 1;
    }
    let mut i: usize = 0;
    while i < traces.len()
        invariant
            i <= traces.len(),
            p == participants.len(),
            agents@ == participants@.take(p as int) + trigger_agents(traces@.take(i as int)),
        decreases traces.len() - i,
    {
        proof {
            assert(traces@.take(i + 1).drop_last() =~= traces@.take(i as int));
            assert(traces@.take(i + 1).last() == traces@[i as int]);
        }
        match &traces[i].agent_id {
            Some(a) => {
                let ids = triggered_ids(&traces[i].payload);
                if ids.len() > 0 {
                    let ghost before = agents@;
                    agents.push(a.clone());
                    proof {
                        assert(agents@ =~= participants@.take(p as int) + trigger_agents(
                            traces@.take(i + 1),
                        ));
                    }
                }
            },
            None => {},
        }
        i = i + 1;
    }
    proof {
        assert(traces@.take(traces.len() as int) =~= traces@);
        assert(participants@.take(p as int) =~= participants@);
        assert(texts(agents@) =~= texts(participants@) + texts(trigger_agents(traces@)));
    }
    let distinct = unique_policy_ids(&agents);
    let mut rows: Vec<AgentPolicyEvidence> = Vec::new();
    let mut j: usize = 0;
    while j < distinct.len()
        invariant
            j <= distinct.len(),
            rows.len() == j,
            policy_deltas(traces@).len() <= i64::MAX,
            forall|a: int| 0 <= a < j ==> (#[trigger] rows@[a]).agent_id == distinct@[a],
            forall|a: int|
                0 <= a < j ==> is_tally(
                    (#[trigger] rows@[a]).triggered@,
                    agent_policy_deltas(traces@, rows@[a].agent_id@),
                ) && is_grouping(rows@[a].evidence@, agent_evidence_pairs(traces@, rows@[a].agent_id@)),
        decreases distinct.len() - j,
    {
        let agent = distinct[j].clone();
        let mut deltas: Vec<KeyedDelta> = Vec::new();
        let mut pairs: Vec<(String, String)> = Vec::new();
        let mut t: usize = 0;
        while t < traces.len()
            invariant
                t <= traces.len(),
                deltas@ == agent_policy_deltas(traces@.take(t as int), agent@),
                pairs@ == agent_evidence_pairs(traces@.take(t as int), agent@),
            decreases traces.len() - t,
        {
            proof {
                assert(traces@.take(t + 1).drop_last() =~= traces@.take(t as int));
                assert(traces@.take(t + 1).last() == traces@[t as int]);
            }
            let matched = match &traces[t].agent_id {
                Some(x) => *x == agent,
                None => false,
            };
            if matched {
                push_ones(&mut deltas, triggered_ids(&traces[t].payload));
                push_pairs(&mut pairs, triggered_ids(&traces[t].payload), &traces[t].trace_id);
            }
            t = t + 1;
        }
        proof {
            assert(traces@.take(traces.len() as int) =~= traces@);
            lemma_agent_deltas_bounded(traces@, agent@);
        }
        let triggered = tally_by_key(&deltas);
        let evidence = group_by_key(&pairs);
        rows.push(AgentPolicyEvidence { agent_id: agent, triggered, evidence });
        j = j + 1;
    }
    proof {
        assert(rows@.map_values(|r: AgentPolicyEvidence| r.agent_id@) =~= texts(distinct@));
    }
    rows
}

/// Per-agent activity counters: `c0` events, `c1` tool calls, `c2`
/// traces, `c3` denied decisions, `c4` spans.
pub open spec fn activity(event: bool, tool_call: bool, trace: bool, denied: bool, span: bool) -> Counts {
    Counts {
        c0: one_if(event) as i64,
        c1: one_if(tool_call) as i64,
        c2: one_if(trace) as i64,
        c3: one_if(denied) as i64,
        c4: one_if(span) as i64,
    }
}

/// The activity increments of the traces that are attributed to an agent.
pub open spec fn trace_activity(ts: Seq<SnapshotTrace>) -> Seq<KeyedDelta>
    decreases ts.len(),
{
    if ts.len() == 0 {
        Seq::empty()
    } else {
        let rest = trace_activity(ts.drop_last());
        match ts.last().agent_id {
            Some(a) => rest.push(
                KeyedDelta {
                    key: a,
                    delta: activity(false, false, true, ts.last().decision@ == "deny"@, false),
                },
            ),
            None => rest,
        }
    }
}

/// The activity increments of a run: nothing for each participant (so that
/// every participant has a row), one per event, one per attributed trace,
/// one per span.
pub open spec fn activity_deltas(
    participants: Seq<String>,
    traces: Seq<SnapshotTrace>,
    events: Seq<SnapshotEvent>,
    spans: Seq<SnapshotSpan>,
) -> Seq<KeyedDelta> {
    participants.map_values(
        |p: String| KeyedDelta { key: p, delta: activity(false, false, false, false, false) },
    ) + events.map_values(
        |e: SnapshotEvent|
            KeyedDelta {
                key: e.agent_id,
                delta: activity(true, e.kind@ == "tool_call"@, false, false, false),
            },
    ) + trace_activity(traces) + spans.map_values(
        |s: SnapshotSpan| KeyedDelta { key: s.agent_id, delta: activity(false, false, false, false, true) },
    )
}

fn activity_of(event: bool, tool_call: bool, trace: bool, denied: bool, span: bool) -> (r: Counts)
    ensures
        r == activity(event, tool_call, trace, denied, span),
{
    Counts {
        c0: if event { 1 } else { 0 },
        c1: if tool_call { 1 } else { 0 },
        c2: if trace { 1 } else { 0 },
        c3: if denied { 1 } else { 0 },
        c4: if span { 1 } else { 0 },
    }
}

proof fn lemma_trace_activity_len(ts: Seq<SnapshotTrace>)
    ensures
        trace_activity(ts).len() <= ts.len(),
    decreases ts.len(),
{
    if ts.len() > 0 {
        lemma_trace_activity_len(ts.drop_last());
    }
}

/// Counts each agent's events, tool calls, traces, denied decisions and
/// spans: one row per participant and per other agent with activity, in
/// order of first appearance.
pub fn agent_activity(
    participants: &Vec<String>,
    traces: &Vec<SnapshotTrace>,
    events: &Vec<SnapshotEvent>,
    spans: &Vec<SnapshotSpan>,
) -> (rows: Vec<KeyedTotal>)
    requires
        participants.len() + traces.len() + events.len() + spans.len() <= i64::MAX,
    ensures
        is_tally(rows@, activity_deltas(participants@, traces@, events@, spans@)),
{
    let ghost ps = participants@;
    let ghost es = events@;
    let ghost ss = spans@;
    let ghost ts = traces@;
    let mut deltas: Vec<KeyedDelta> = Vec::new();
    let mut i: usize = 0;
    while i < participants.len()
        invariant
            i <= participants.len(),
            ps == participants@,
            deltas@ == ps.take(i as int).map_values(
                |p: String| KeyedDelta { key: p, delta: activity(false, false, false, false, false) },
            ),
        decreases participants.len() - i,
    {
        deltas.push(
            KeyedDelta {
                key: participants[i].clone(),
                delta: activity_of(false, false, false, false, false),
            },
        );
        proof {
            assert(ps.take(i + 1) =~= ps.take(i as int).push(ps[i as int]));
            assert(deltas@ =~= ps.take(i + 1).map_values(
                |p: String| KeyedDelta { key: p, delta: activity(false, false, false, false, false) },
            ));
        }
        i = i + 1;
    }
    proof {
        assert(ps.take(ps.len() as int) =~= ps);
    }
    let ghost d1 = deltas@;
    let mut j: usize = 0;
    while j < events.len()
        invariant
            j <= events.len(),
            es == events@,
            deltas@ == d1 + es.take(j as int).map_values(
                |e: SnapshotEvent|
                    KeyedDelta {
                        key: e.agent_id,
                        delta: activity(true, e.kind@ == "tool_call"@, false, false, false),
                    },
            ),
        decreases events.len() - j,
    {
        let tool = same_text(events[j].kind.as_str(), "tool_call");
        deltas.push(
            KeyedDelta { key: events[j].agent_id.clone(), delta: activity_of(true, tool, false, false, false) },
        );
        proof {
            assert(es.take(j + 1) =~= es.take(j as int).push(es[j as int]));
            assert(deltas@ =~= d1 + es.take(j + 1).map_values(
                |e: SnapshotEvent|
                    KeyedDelta {
                        key: e.agent_id,
                        delta: activity(true, e.kind@ == "tool_call"@, false, false, false),
                    },
            ));
        }
        j = j + 1;
    }
    proof {
        assert(es.take(es.len() as int) =~= es);
    }
    let ghost d2 = deltas@;
    let mut k: usize = 0;
    while k < traces.len()
        invariant
            k <= traces.len(),
            ts == traces@,
            deltas@ == d2 + trace_activity(ts.take(k as int)),
        decreases traces.len() - k,
    {
        proof {
            assert(ts.take(k + 1).drop_last() =~= ts.take(k as int));
            assert(ts.take(k + 1).last() == ts[k as int]);
        }
        match &traces[k].agent_id {
            Some(a) => {
                let denied = same_text(traces[k].decision.as_str(), "deny");
                let ghost before = deltas@;
                deltas.push(
                    KeyedDelta { key: a.clone(), delta: activity_of(false, false, true, denied, false) },
                );
                proof {
                    assert(deltas@ =~= d2 + trace_activity(ts.take(k + 1)));
                }
            },
            None => {},
        }
        k = k + 1;
    }
    proof {
        assert(ts.take(ts.len() as int) =~= ts);
    }
    let ghost d3 = deltas@;
    let mut m: usize = 0;
    while m < spans.len()
        invariant
            m <= spans.len(),
            ss == spans@,
            deltas@ == d3 + ss.take(m as int).map_values(
                |s: SnapshotSpan|
                    KeyedDelta { key: s.agent_id, delta: activity(false, false, false, false, true) },
            ),
        decreases spans.len() - m,
    {
        deltas.push(
            KeyedDelta { key: spans[m].agent_id.clone(), delta: activity_of(false, false, false, false, true) },
        );
        proof {
            assert(ss.take(m + 1) =~= ss.take(m as int).push(ss[m as int]));
            assert(deltas@ =~= d3 + ss.take(m + 1).map_values(
                |s: SnapshotSpan|
                    KeyedDelta { key: s.agent_id, delta: activity(false, false, false, false, true) },
            ));
        }
        m = m + 1;
    }
    proof {
        assert(ss.take(ss.len() as int) =~= ss);
        assert(deltas@ =~= activity_deltas(ps, ts, es, ss));
        lemma_trace_activity_len(ts);
        assert forall|x: int| 0 <= x < deltas@.len() implies unit_delta((#[trigger] deltas@[x]).delta) by {
            lemma_activity_unit(ps, ts, es, ss, x);
        }
    }
    tally_by_key(&deltas)
}

proof fn lemma_trace_activity_unit(ts: Seq<SnapshotTrace>, x: int)
    requires
        0 <= x < trace_activity(ts).len(),
    ensures
        unit_delta(trace_activity(ts)[x].delta),
    decreases ts.len(),
{
    if ts.len() > 0 {
        let rest = trace_activity(ts.drop_last());
        if x < rest.len() {
            lemma_trace_activity_unit(ts.drop_last(), x);
        }
    }
}

proof fn lemma_activity_unit(
    ps: Seq<String>,
    ts: Seq<SnapshotTrace>,
    es: Seq<SnapshotEvent>,
    ss: Seq<SnapshotSpan>,
    x: int,
)
    requires
        0 <= x < activity_deltas(ps, ts, es, ss).len(),
    ensures
        unit_delta(activity_deltas(ps, ts, es, ss)[x].delta),
{
    let n1 = ps.len() as int;
    let n2 = n1 + es.len();
    let n3 = n2 + trace_activity(ts).len();
    if n2 <= x < n3 {
        lemma_trace_activity_unit(ts, x - n2);
    }
}

/// The members of an agent's metrics object in a snapshot. A participant
/// lists every counter and the run's duration; another agent lists only
/// the counters its activity raised.
pub open spec fn metric_members(counts: (int, int, int, int, int), participant: bool, duration_ms: int) -> Seq<
    (Seq<char>, int),
> {
    let all = seq![
        ("denied_decisions"@, counts.3),
        ("event_count"@, counts.0),
        ("trace_count"@, counts.2),
        ("span_count"@, counts.4),
        ("tool_call_count"@, counts.1),
    ];
    if participant {
        all.push(("duration_ms"@, duration_ms))
    } else {
        all.filter(|m: (Seq<char>, int)| m.1 > 0)
    }
}

/// The members of an agent's metrics object in a snapshot, for the agent
/// whose activity row is `row`.
pub fn agent_metric_members(participants: &Vec<String>, row: &KeyedTotal, duration_ms: i64) -> (r:
    Vec<(String, i64)>)
    requires
        row.totals.c0 >= 0 && row.totals.c1 >= 0 && row.totals.c2 >= 0 && row.totals.c3 >= 0
            && row.totals.c4 >= 0,
    ensures
        r@.map_values(|m: (String, i64)| (m.0@, m.1 as int)) == metric_members(
            counts_view(row.totals),
            exists|j: int| 0 <= j < participants@.len() && (#[trigger] participants@[j])@ == row.key@,
            duration_ms as int,
        ),
{
    let participant = text_in(participants, &row.key);
    let c = row.totals;
    let all: Vec<(String, i64)> = vec![
        ("denied_decisions".to_owned(), c.c3),
        ("event_count".to_owned(), c.c0),
        ("trace_count".to_owned(), c.c2),
        ("span_count".to_owned(), c.c4),
        ("tool_call_count".to_owned(), c.c1),
    ];
    let ghost spec_all = seq![
        ("denied_decisions"@, c.c3 as int),
        ("event_count"@, c.c0 as int),
        ("trace_count"@, c.c2 as int),
        ("span_count"@, c.c4 as int),
        ("tool_call_count"@, c.c1 as int),
    ];
    proof {
        assert(all@.map_values(|m: (String, i64)| (m.0@, m.1 as int)) =~= spec_all);
    }
    if participant {
        let mut out = all;
        out.push(("duration_ms".to_owned(), duration_ms));
        proof {
            assert(out@.map_values(|m: (String, i64)| (m.0@, m.1 as int)) =~= spec_all.push(
                ("duration_ms"@, duration_ms as int),
            ));
        }
        out
    } else {
        let mut out: Vec<(String, i64)> = Vec::new();
        let mut i: usize = 0;
        while i < all.len()
            invariant
                i <= all.len(),
                all@.map_values(|m: (String, i64)| (m.0@, m.1 as int)) == spec_all,
                out@.map_values(|m: (String, i64)| (m.0@, m.1 as int)) == spec_all.take(
                    i as int,
                ).filter(|m: (Seq<char>, int)| m.1 > 0),
            decreases all.len() - i,
        {
            proof {
                assert(spec_all.take(i + 1).drop_last() =~= spec_all.take(i as int));
                reveal(Seq::filter);
            }
            let ghost before = out@;
            if all[i].1 > 0 {
                out.push((all[i].0.clone(), all[i].1));
                proof {
                    assert(out@.map_values(|m: (String, i64)| (m.0@, m.1 as int)) =~= before.map_values(
                        |m: (String, i64)| (m.0@, m.1 as int),
                    ).push(spec_all[i as int]));
                }
            }
            i = i + 1;
        }
        proof {
            assert(spec_all.take(5) =~= spec_all);
        }
        out
    }
}

proof fn lemma_same_ids(ids: Seq<String>, t: String, p: Seq<char>)
    ensures
        values_for(ids.map_values(|k: String| (k, t)), p).len() == total_for(
            ids.map_values(|k: String| one_for(k)),
            p,
        ).0,
    decreases ids.len(),
{
    if ids.len() > 0 {
        let pairs = ids.map_values(|k: String| (k, t));
        let ones = ids.map_values(|k: String| one_for(k));
        assert(pairs.drop_last() =~= ids.drop_last().map_values(|k: String| (k, t)));
        assert(ones.drop_last() =~= ids.drop_last().map_values(|k: String| one_for(k)));
        lemma_same_ids(ids.drop_last(), t, p);
    }
}

/// A snapshot lists, as evidence of each policy, exactly as many trace ids
/// as it counts triggers of that policy.
pub proof fn law_evidence_matches_counts(ts: Seq<SnapshotTrace>, p: Seq<char>)
    ensures
        values_for(evidence_pairs(ts), p).len() == total_for(policy_deltas(ts), p).0,
    decreases ts.len(),
{
    if ts.len() > 0 {
        let ids = triggered_id_strings(triggered_entries(ts.last().payload));
        law_evidence_matches_counts(ts.drop_last(), p);
        lemma_values_for_concat(
            evidence_pairs(ts.drop_last()),
            ids.map_values(|k: String| (k, ts.last().trace_id)),
            p,
        );
        lemma_total_for_concat(
            policy_deltas(ts.drop_last()),
            ids.map_values(|k: String| one_for(k)),
            p,
        );
        lemma_same_ids(ids, ts.last().trace_id, p);
    }
}

/// The counting sections of a run snapshot: its capture status, run-wide
/// counts, each agent's activity and the members of its metrics object,
/// triggered policy counts and evidence over the run, and per agent.
#[derive(Debug)]
pub struct SnapshotSections {
    pub capture_status: &'static str,
    pub counts: SnapshotCounts,
    pub activity: Vec<KeyedTotal>,
    pub agent_metrics: Vec<Vec<(String, i64)>>,
    pub triggered_policy_counts: Vec<KeyedTotal>,
    pub evidence_ids: Vec<(String, Vec<String>)>,
    pub agent_policies: Vec<AgentPolicyEvidence>,
}

/// Counts a run for its snapshot: the run-wide counts and capture status,
/// each agent's activity with the members of its metrics object (one list
/// per activity row, in the same order), and the triggered policies with
/// their evidence, over the run and per agent.
pub fn snapshot_sections(
    participants: &Vec<String>,
    traces: &Vec<SnapshotTrace>,
    events: &Vec<SnapshotEvent>,
    spans: &Vec<SnapshotSpan>,
    duration_ms: i64,
    barrier_incomplete: bool,
) -> (r: SnapshotSections)
    requires
        participants.len() + traces.len() + events.len() + spans.len() <= i64::MAX,
        policy_deltas(traces@).len() <= i64::MAX,
    ensures
        r.counts.denied_decisions == denied_count(traces@),
        r.counts.event_count == events.len(),
        r.counts.trace_count == traces.len(),
        r.counts.span_count == spans.len(),
        r.counts.tool_call_count == tool_call_count(events@),
        r.counts.unattributed_trace_count == unattributed_count(traces@),
        r.counts.late_evidence_count == late_trace_count(traces@) + late_span_count(spans@),
        r.capture_status@ == if barrier_incomplete || r.counts.unattributed_trace_count > 0 {
            "incomplete"@
        } else {
            "complete"@
        },
        is_tally(r.activity@, activity_deltas(participants@, traces@, events@, spans@)),
        r.agent_metrics.len() == r.activity.len(),
        forall|i: int|
            0 <= i < r.activity.len() ==> (#[trigger] r.agent_metrics@[i])@.map_values(
                |m: (String, i64)| (m.0@, m.1 as int),
            ) == metric_members(
                counts_view(r.activity@[i].totals),
                exists|j: int|
                    0 <= j < participants@.len() && (#[trigger] participants@[j])@
                        == r.activity@[i].key@,
                duration_ms as int,
            ),
        is_tally(r.triggered_policy_counts@, policy_deltas(traces@)),
        is_grouping(r.evidence_ids@, evidence_pairs(traces@)),
        r.agent_policies@.map_values(|a: AgentPolicyEvidence| a.agent_id@) == first_occurrences(
            texts(participants@) + texts(trigger_agents(traces@)),
        ),
        forall|i: int|
            0 <= i < r.agent_policies.len() ==> is_tally(
                (#[trigger] r.agent_policies@[i]).triggered@,
                agent_policy_deltas(traces@, r.agent_policies@[i].agent_id@),
            ) && is_grouping(
                r.agent_policies@[i].evidence@,
                agent_evidence_pairs(traces@, r.agent_policies@[i].agent_id@),
            ),
{
    let counts = snapshot_counts(traces, events, spans);
    let capture_status = snapshot_capture_status(barrier_incomplete, counts.unattributed_trace_count);
    let activity = agent_activity(participants, traces, events, spans);
    proof {
        let ds = activity_deltas(participants@, traces@, events@, spans@);
        assert forall|x: int| 0 <= x < ds.len() implies unit_delta((#[trigger] ds[x]).delta) by {
            lemma_activity_unit(participants@, traces@, events@, spans@, x);
        }
        lemma_tally_nonnegative(activity@, ds);
    }
    let mut agent_metrics: Vec<Vec<(String, i64)>> = Vec::new();
    let mut i: usize = 0;
    while i < activity.len()
        invariant
            i <= activity.len(),
            agent_metrics.len() == i,
            forall|a: int|
                0 <= a < activity.len() ==> {
                    let t = (#[trigger] activity@[a]).totals;
                    t.c0 >= 0 && t.c1 >= 0 && t.c2 >= 0 && t.c3 >= 0 && t.c4 >= 0
                },
            forall|a: int|
                0 <= a < i ==> (#[trigger] agent_metrics@[a])@.map_values(
                    |m: (String, i64)| (m.0@, m.1 as int),
                ) == metric_members(
                    counts_view(activity@[a].totals),
                    exists|j: int|
                        0 <= j < participants@.len() && (#[trigger] participants@[j])@
                            == activity@[a].key@,
                    duration_ms as int,
                ),
        decreases activity.len() - i,
    {
        assert({
            let t = activity@[i as int].totals;
            t.c0 >= 0 && t.c1 >= 0 && t.c2 >= 0 && t.c3 >= 0 && t.c4 >= 0
        });
        agent_metrics.push(agent_metric_members(participants, &activity[i], duration_ms));
        i = i + 1;
    }
    let triggered = triggered_policy_counts(traces);
    let evidence = evidence_ids(traces);
    let agent_policies = agent_triggered_policies(participants, traces);
    SnapshotSections {
        capture_status,
        counts,
        activity,
        agent_metrics,
        triggered_policy_counts: triggered,
        evidence_ids: evidence,
        agent_policies,
    }
}

} // verus!
