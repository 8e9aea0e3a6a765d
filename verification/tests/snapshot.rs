use tl_storage::json::{field_of, JsonValue};
use tl_storage::snapshot::{
    agent_activity, agent_metric_members, agent_triggered_policies, evidence_ids,
    minimize_snapshot_event, minimize_snapshot_payload, snapshot_capture_status, snapshot_counts,
    snapshot_redaction_verified, snapshot_sections, triggered_ids, triggered_policy_counts, SnapshotEvent,
    SnapshotSpan, SnapshotTrace,
};
use tl_storage::tally::{Counts, KeyedTotal};

fn obj(members: Vec<(&str, JsonValue)>) -> JsonValue {
    JsonValue::Object(members.into_iter().map(|(k, v)| (k.to_string(), v)).collect())
}

fn text(s: &str) -> JsonValue {
    JsonValue::Str(s.to_string())
}

fn path<'a>(value: &'a JsonValue, keys: &[&str]) -> Option<&'a JsonValue> {
    let mut current = value;
    for key in keys {
        current = field_of(current, key)?;
    }
    Some(current)
}

fn redaction_report(context_redacted: bool) -> JsonValue {
    obj(vec![
        ("status", text("applied")),
        ("input_redacted", JsonValue::Bool(true)),
        ("proposed_output_redacted", JsonValue::Bool(true)),
        ("context_redacted", JsonValue::Bool(context_redacted)),
    ])
}

fn redacted_payload() -> JsonValue {
    obj(vec![
        ("safe_output", text("[REDACTED]")),
        ("redaction", redaction_report(true)),
        ("event", obj(vec![("context", obj(vec![("account", text("[REDACTED]"))]))])),
    ])
}

#[test]
fn redacted_snapshot_requires_verified_redaction_report() {
    let mode = "redacted".to_string();
    let payload = obj(vec![
        ("safe_output", text("secret")),
        (
            "event",
            obj(vec![
                ("action", obj(vec![("parameters", obj(vec![("secret", JsonValue::Bool(true))]))])),
                ("context", obj(vec![("secret", JsonValue::Bool(true))])),
            ]),
        ),
    ]);

    let minimized = minimize_snapshot_payload(payload, Some(mode.as_str()));
    assert!(field_of(&minimized, "safe_output").is_none());
    assert!(matches!(path(&minimized, &["event", "action", "parameters"]), Some(JsonValue::Null)));
    assert!(matches!(path(&minimized, &["event", "context"]), Some(JsonValue::Null)));
}

#[test]
fn verified_redacted_snapshot_retains_redacted_content() {
    let mode = "redacted".to_string();
    assert_eq!(
        minimize_snapshot_payload(redacted_payload(), Some(mode.as_str())),
        redacted_payload()
    );
}

#[test]
fn redacted_payload_is_minimized_when_agent_captures_full_content() {
    let minimized = minimize_snapshot_payload(redacted_payload(), Some("full"));
    assert!(field_of(&minimized, "safe_output").is_none());
    assert!(matches!(path(&minimized, &["event", "context"]), Some(JsonValue::Null)));
    assert!(path(&minimized, &["redaction", "status"]).is_some());
    let none = minimize_snapshot_payload(redacted_payload(), None);
    assert!(field_of(&none, "safe_output").is_none());
}

#[test]
fn incomplete_redaction_report_is_not_trusted() {
    let payload = obj(vec![
        ("safe_output", text("[REDACTED]")),
        ("redaction", redaction_report(false)),
    ]);
    assert!(!snapshot_redaction_verified(&payload, Some("redacted")));
    let minimized = minimize_snapshot_payload(payload, Some("redacted"));
    assert_eq!(minimized, obj(vec![("redaction", redaction_report(false))]));
    assert!(snapshot_redaction_verified(&redacted_payload(), Some("redacted")));
}

#[test]
fn checked_excerpts_are_dropped_and_other_members_kept() {
    let payload = obj(vec![
        ("checked_input_excerpt", text("in")),
        ("decision", text("deny")),
        ("checked_output_excerpt", text("out")),
        ("score", JsonValue::Number("7".to_string())),
    ]);
    assert_eq!(
        minimize_snapshot_payload(payload, None),
        obj(vec![("decision", text("deny")), ("score", JsonValue::Number("7".to_string()))])
    );
}

#[test]
fn event_minimization_clears_every_sensitive_member() {
    let event = obj(vec![
        ("kind", text("tool_call")),
        ("label", text("Refund")),
        ("input_summary", text("in")),
        ("output_summary", text("out")),
        ("metadata", obj(vec![("ip", text("10.0.0.1"))])),
        ("provenance", obj(vec![("source", text("crm"))])),
        ("sources", JsonValue::Array(vec![text("doc")])),
        ("action", obj(vec![("name", text("refund"))])),
    ]);
    assert_eq!(
        minimize_snapshot_event(event),
        obj(vec![
            ("kind", text("tool_call")),
            ("label", JsonValue::Null),
            ("input_summary", JsonValue::Null),
            ("output_summary", JsonValue::Null),
            ("metadata", obj(vec![])),
            ("provenance", obj(vec![])),
            ("sources", JsonValue::Array(vec![])),
            ("action", obj(vec![("name", text("refund")), ("parameters", JsonValue::Null)])),
        ])
    );
}

#[test]
fn non_object_values_pass_through() {
    assert_eq!(minimize_snapshot_event(text("x")), text("x"));
    assert_eq!(minimize_snapshot_payload(JsonValue::Array(vec![]), None), JsonValue::Array(vec![]));
    let event = obj(vec![("action", text("refund"))]);
    assert_eq!(minimize_snapshot_event(event), obj(vec![("action", text("refund"))]));
}

fn triggered(ids: &[&str]) -> JsonValue {
    obj(vec![(
        "triggered_policies",
        JsonValue::Array(ids.iter().map(|id| obj(vec![("id", text(id))])).collect()),
    )])
}

fn trace(id: &str, agent: Option<&str>, decision: &str, late: bool, ids: &[&str]) -> SnapshotTrace {
    SnapshotTrace {
        trace_id: id.to_string(),
        agent_id: agent.map(|a| a.to_string()),
        decision: decision.to_string(),
        late_evidence: late,
        payload: triggered(ids),
    }
}

fn sample_traces() -> Vec<SnapshotTrace> {
    vec![
        trace("t1", Some("a1"), "deny", false, &["p1", "p2"]),
        trace("t2", None, "permit", true, &["p1"]),
        trace("t3", Some("a2"), "deny", false, &[]),
        trace("t4", Some("a1"), "permit", false, &["p1"]),
    ]
}

fn event(agent: &str, kind: &str) -> SnapshotEvent {
    SnapshotEvent { agent_id: agent.to_string(), kind: kind.to_string() }
}

fn span(agent: &str, late: bool) -> SnapshotSpan {
    SnapshotSpan { agent_id: agent.to_string(), late_evidence: late }
}

fn counts(c0: i64, c1: i64, c2: i64, c3: i64, c4: i64) -> Counts {
    Counts { c0, c1, c2, c3, c4 }
}

#[test]
fn snapshot_counts_cover_the_whole_run() {
    let events = vec![event("a1", "tool_call"), event("a1", "message"), event("a3", "tool_call")];
    let spans = vec![span("a1", true), span("a2", false)];
    let c = snapshot_counts(&sample_traces(), &events, &spans);
    assert_eq!(c.denied_decisions, 2);
    assert_eq!(c.event_count, 3);
    assert_eq!(c.trace_count, 4);
    assert_eq!(c.span_count, 2);
    assert_eq!(c.tool_call_count, 2);
    assert_eq!(c.unattributed_trace_count, 1);
    assert_eq!(c.late_evidence_count, 2);
    assert_eq!(snapshot_capture_status(false, c.unattributed_trace_count), "incomplete");
    assert_eq!(snapshot_capture_status(false, 0), "complete");
    assert_eq!(snapshot_capture_status(true, 0), "incomplete");
}

#[test]
fn triggered_policies_are_counted_and_evidenced() {
    let odd = obj(vec![(
        "triggered_policies",
        JsonValue::Array(vec![obj(vec![("id", text(" p1 "))]), obj(vec![("name", text("x"))])]),
    )]);
    assert_eq!(triggered_ids(&odd), vec![" p1 ".to_string()]);
    assert_eq!(triggered_ids(&JsonValue::Null), Vec::<String>::new());

    let traces = sample_traces();
    assert_eq!(
        triggered_policy_counts(&traces),
        vec![
            KeyedTotal { key: "p1".into(), totals: counts(3, 0, 0, 0, 0) },
            KeyedTotal { key: "p2".into(), totals: counts(1, 0, 0, 0, 0) },
        ]
    );
    assert_eq!(
        evidence_ids(&traces),
        vec![
            ("p1".to_string(), vec!["t1".to_string(), "t2".to_string(), "t4".to_string()]),
            ("p2".to_string(), vec!["t1".to_string()]),
        ]
    );
}

#[test]
fn agent_triggered_policies_cover_participants_and_triggering_agents() {
    let rows = agent_triggered_policies(&vec!["a2".to_string(), "a3".to_string()], &sample_traces());
    let agents: Vec<&str> = rows.iter().map(|r| r.agent_id.as_str()).collect();
    assert_eq!(agents, vec!["a2", "a3", "a1"]);
    assert!(rows[0].triggered.is_empty() && rows[0].evidence.is_empty());
    assert_eq!(
        rows[2].triggered,
        vec![
            KeyedTotal { key: "p1".into(), totals: counts(2, 0, 0, 0, 0) },
            KeyedTotal { key: "p2".into(), totals: counts(1, 0, 0, 0, 0) },
        ]
    );
    assert_eq!(
        rows[2].evidence,
        vec![
            ("p1".to_string(), vec!["t1".to_string(), "t4".to_string()]),
            ("p2".to_string(), vec!["t1".to_string()]),
        ]
    );
}

#[test]
fn agent_activity_and_metric_members() {
    let participants = vec!["a2".to_string(), "a4".to_string()];
    let events = vec![event("a1", "tool_call"), event("a1", "message")];
    let spans = vec![span("a2", false)];
    let rows = agent_activity(&participants, &sample_traces(), &events, &spans);
    assert_eq!(
        rows,
        vec![
            KeyedTotal { key: "a2".into(), totals: counts(0, 0, 1, 1, 1) },
            KeyedTotal { key: "a4".into(), totals: counts(0, 0, 0, 0, 0) },
            KeyedTotal { key: "a1".into(), totals: counts(2, 1, 2, 1, 0) },
        ]
    );
    assert_eq!(
        agent_metric_members(&participants, &rows[1], 1500),
        vec![
            ("denied_decisions".to_string(), 0),
            ("event_count".to_string(), 0),
            ("trace_count".to_string(), 0),
            ("span_count".to_string(), 0),
            ("tool_call_count".to_string(), 0),
            ("duration_ms".to_string(), 1500),
        ]
    );
    assert_eq!(
        agent_metric_members(&participants, &rows[2], 1500),
        vec![
            ("denied_decisions".to_string(), 1),
            ("event_count".to_string(), 2),
            ("trace_count".to_string(), 2),
            ("tool_call_count".to_string(), 1),
        ]
    );
}

#[test]
fn snapshot_sections_gather_every_count() {
    let participants = vec!["a2".to_string(), "a4".to_string()];
    let events = vec![event("a1", "tool_call"), event("a1", "message")];
    let spans = vec![span("a2", false)];
    let traces = sample_traces();
    let sections = snapshot_sections(&participants, &traces, &events, &spans, 1500, false);
    assert_eq!(sections.capture_status, "incomplete");
    assert_eq!(sections.counts, snapshot_counts(&traces, &events, &spans));
    assert_eq!(sections.activity, agent_activity(&participants, &traces, &events, &spans));
    assert_eq!(sections.agent_metrics.len(), 3);
    assert_eq!(sections.agent_metrics[1], agent_metric_members(&participants, &sections.activity[1], 1500));
    assert_eq!(sections.triggered_policy_counts, triggered_policy_counts(&traces));
    assert_eq!(sections.evidence_ids, evidence_ids(&traces));
    assert_eq!(sections.agent_policies, agent_triggered_policies(&participants, &traces));
    let attributed: Vec<_> = traces.into_iter().filter(|t| t.agent_id.is_some()).collect();
    let complete = snapshot_sections(&participants, &attributed, &events, &spans, 1500, false);
    assert_eq!(complete.capture_status, "complete");
    assert_eq!(snapshot_sections(&participants, &attributed, &events, &spans, 1500, true).capture_status, "incomplete");
}
