use tl_storage::analytics::RunEventFields;
use tl_storage::json::JsonValue;
use tl_storage::review::HumanReviewOutcome;

fn obj(members: Vec<(&str, JsonValue)>) -> JsonValue {
    JsonValue::Object(members.into_iter().map(|(k, v)| (k.to_string(), v)).collect())
}

fn text(s: &str) -> JsonValue {
    JsonValue::Str(s.to_string())
}
use tl_storage::review_analytics::{
    human_review_analytics, resolve_agent_id, resolve_run_kind, review_trace, review_workflow_step,
    HumanReviewAnalyticsFilter, LatestReview, ReviewTrace,
};

fn trace(agent: &str, kind: &str, step: &str, policies: &[&str], decision: &str, latest: Option<(HumanReviewOutcome, &[&str])>) -> ReviewTrace {
    ReviewTrace {
        agent_id: agent.into(),
        run_kind: kind.into(),
        workflow_step: step.into(),
        policies: policies.iter().map(|p| p.to_string()).collect(),
        decision: decision.into(),
        latest: latest.map(|(outcome, codes)| LatestReview {
            outcome,
            reason_codes: codes.iter().map(|c| c.to_string()).collect(),
        }),
    }
}

fn sample() -> Vec<ReviewTrace> {
    vec![
        trace("a1", "chat", "plan", &["p1"], "require_approval", Some((HumanReviewOutcome::Corrected, &["tone", "scope"]))),
        trace("a2", "batch", "act", &["p1", "p2"], "deny", Some((HumanReviewOutcome::FalsePositive, &["scope"]))),
        trace("a1", "chat", "act", &["baseline"], "permit", None),
        trace("a1", "chat", "plan", &["p2"], "permit", Some((HumanReviewOutcome::Accepted, &[]))),
    ]
}

#[test]
fn review_analytics_counts_and_orders_rows() {
    let r = human_review_analytics(&sample(), &HumanReviewAnalyticsFilter::default());
    assert_eq!(r.summary.trace_count, 4);
    assert_eq!(r.summary.automated_intervention_count, 2);
    assert_eq!(r.summary.human_review_count, 3);
    assert_eq!(r.summary.human_intervention_count, 1);
    assert_eq!(r.outcomes.corrected_count, 1);
    assert_eq!(r.outcomes.false_positive_count, 1);
    assert_eq!(r.outcomes.accepted_count, 1);

    let steps: Vec<_> = r.by_workflow_step.iter().map(|w| (w.workflow_step.as_str(), w.human_review_count, w.corrected_count, w.false_positive_count)).collect();
    assert_eq!(steps, vec![("act", 1, 0, 1), ("plan", 2, 1, 0)]);

    let agents: Vec<_> = r.by_agent.iter().map(|g| (g.group.as_str(), g.human_review_count, g.human_intervention_count)).collect();
    assert_eq!(agents, vec![("a1", 2, 1), ("a2", 1, 0)]);
    let kinds: Vec<_> = r.by_run_kind.iter().map(|g| g.group.as_str()).collect();
    assert_eq!(kinds, vec!["batch", "chat"]);

    let policies: Vec<_> = r.by_policy.iter().map(|p| (p.policy_id.as_str(), p.escalation_count, p.corrected_count, p.false_positive_count)).collect();
    assert_eq!(policies, vec![("p1", 1, 1, 1), ("p2", 0, 0, 1)]);

    let reasons: Vec<_> = r.top_reasons.iter().map(|x| (x.reason_code.as_str(), x.count)).collect();
    assert_eq!(reasons, vec![("scope", 2), ("tone", 1)]);
}

#[test]
fn review_analytics_filters_traces() {
    let f = HumanReviewAnalyticsFilter { agent_id: Some("a1".into()), policy_id: Some("p2".into()), run_kind: None, workflow_step: None };
    let r = human_review_analytics(&sample(), &f);
    assert_eq!(r.summary.trace_count, 1);
    assert_eq!(r.summary.human_review_count, 1);
    assert!(r.by_policy.is_empty());
    let t = &sample()[3];
    assert!(f.matches(&t.agent_id, &t.run_kind, &t.workflow_step, &t.policies));
    let t = &sample()[0];
    assert!(!f.matches(&t.agent_id, &t.run_kind, &t.workflow_step, &t.policies));
}

#[test]
fn review_trace_fields_fall_back() {
    let payload = obj(vec![("agent_id", text("p"))]);
    assert_eq!(resolve_agent_id(None, &payload), "p");
    assert_eq!(resolve_agent_id(None, &obj(vec![("agent_id", text(" "))])), "unknown");
    assert_eq!(resolve_agent_id(None, &JsonValue::Null), "unknown");
    assert_eq!(resolve_agent_id(Some("r".into()), &payload), "r");
    assert_eq!(resolve_run_kind(None), "ungrouped");
    assert_eq!(resolve_run_kind(Some("chat".into())), "chat");
    let blank = obj(vec![("workflow_step", text(" "))]);
    assert_eq!(review_workflow_step(" tool_call ", None, &blank), Some(" tool_call ".to_string()));
    assert_eq!(review_workflow_step("", None, &JsonValue::Null), None);
    let step = obj(vec![("workflow_step", text(" s "))]);
    assert_eq!(review_workflow_step("k", Some("l"), &step), Some("s".to_string()));
    assert_eq!(review_workflow_step("k", Some(" l "), &blank), Some("l".to_string()));
}

#[test]
fn review_trace_resolves_run_event_and_payload() {
    let payload = obj(vec![
        ("agent_id", text("payload-agent")),
        ("triggered_policies", JsonValue::Array(vec![obj(vec![("id", text("p1"))])])),
    ]);
    let event = RunEventFields {
        kind: "tool_call".into(),
        label: None,
        metadata: obj(vec![("workflow_step", text("refund"))]),
    };
    let t = review_trace(Some(("a1".into(), "chat".into())), Some(&event), "deny".into(), &payload, None);
    assert_eq!(t.agent_id, "a1");
    assert_eq!(t.run_kind, "chat");
    assert_eq!(t.workflow_step, "refund");
    assert_eq!(t.policies, vec!["p1".to_string()]);
    assert_eq!(t.decision, "deny");
    assert!(t.latest.is_none());

    let latest = LatestReview { outcome: HumanReviewOutcome::Accepted, reason_codes: vec![] };
    let t = review_trace(None, None, "permit".into(), &JsonValue::Null, Some(latest.clone()));
    assert_eq!(t.agent_id, "unknown");
    assert_eq!(t.run_kind, "ungrouped");
    assert_eq!(t.workflow_step, "unlabeled");
    assert_eq!(t.policies, vec!["baseline".to_string()]);
    assert_eq!(t.latest, Some(latest));
}
