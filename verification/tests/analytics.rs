use tl_storage::analytics::{
    analytics_fact, group_by_dimension, FactRun, RunEventFields,
    default_chart_type, matches_filters, metric_label, metric_tally, p95, payload_string,
    policy_ids, supported_dimensions, supported_metrics, validate_layout, validate_query,
    validate_view_config, validate_view_name, values_for_dimension, workflow_step,
    AnalyticsChartType, AnalyticsDimension, AnalyticsFact, AnalyticsFilter, AnalyticsMetric,
    AnalyticsWidget, AnalyticsWidgetLayout,
};
use tl_storage::error::StorageError;
use tl_storage::json::JsonValue;

fn obj(members: Vec<(&str, JsonValue)>) -> JsonValue {
    JsonValue::Object(members.into_iter().map(|(k, v)| (k.to_string(), v)).collect())
}

fn text(s: &str) -> JsonValue {
    JsonValue::Str(s.to_string())
}

fn fact(decision: &str, outcome: &str, ms: i32) -> AnalyticsFact {
    AnalyticsFact {
        environment_id: "prod".into(),
        decision: decision.into(),
        elapsed_ms: ms,
        agent_id: "agent-1".into(),
        run_kind: "chat".into(),
        run_status: "complete".into(),
        external_id: "ext".into(),
        workflow_step: "plan".into(),
        review_outcome: outcome.into(),
        policy_ids: vec!["p1".into(), "p2".into()],
    }
}

#[test]
fn p95_uses_nearest_rank() {
    assert_eq!(p95(vec![]), None);
    assert_eq!(p95(vec![7]), Some(7));
    let v: Vec<i32> = (1..=20).rev().collect();
    assert_eq!(p95(v), Some(19));
    let v: Vec<i32> = (1..=100).collect();
    assert_eq!(p95(v), Some(95));
    assert_eq!(p95(vec![5, 1, 3]), Some(5));
}

#[test]
fn view_validation_messages() {
    assert_eq!(validate_view_name("  ok "), Ok(()));
    assert_eq!(
        validate_view_name("   "),
        Err(StorageError::Internal("analytics view name is required".into()))
    );
    let l = |x, w, h| AnalyticsWidgetLayout { x, y: 0, w, h };
    assert_eq!(validate_layout(&l(0, 12, 4)), Ok(()));
    assert_eq!(
        validate_layout(&l(0, 13, 1)),
        Err(StorageError::Internal(
            "analytics widget layout must use width 1-12 and height 1-4".into()
        ))
    );
    assert_eq!(
        validate_layout(&l(6, 7, 1)),
        Err(StorageError::Internal(
            "analytics widget layout must fit within the 12-column grid".into()
        ))
    );
    assert_eq!(
        validate_view_config(&vec![]),
        Err(StorageError::Internal("analytics view must include at least one widget".into()))
    );
    let w = |layout| AnalyticsWidget { metric: AnalyticsMetric::TraceCount, layout };
    assert!(validate_view_config(&vec![w(l(0, 6, 2)), w(l(6, 6, 2))]).is_ok());
    assert!(validate_view_config(&vec![w(l(0, 6, 2)), w(l(12, 1, 2))]).is_err());
}

#[test]
fn filters_match_any_wanted_value() {
    let f = fact("deny", "not_reviewed", 10);
    let filter = |d, vals: &[&str]| AnalyticsFilter {
        dimension: d,
        values: vals.iter().map(|v| v.to_string()).collect(),
    };
    assert!(matches_filters(&f, &vec![]));
    assert!(matches_filters(&f, &vec![filter(AnalyticsDimension::PolicyId, &["p2", "p9"])]));
    assert!(!matches_filters(&f, &vec![
        filter(AnalyticsDimension::AuthorizationEffect, &["deny"]),
        filter(AnalyticsDimension::AgentId, &["other"]),
    ]));
    assert_eq!(values_for_dimension(&f, AnalyticsDimension::RunKind), vec!["chat".to_string()]);
    assert_eq!(
        validate_query(&vec![filter(AnalyticsDimension::AgentId, &["a", " "])]),
        Err(StorageError::Internal("analytics filters must not contain empty values".into()))
    );
}

#[test]
fn tallies_count_decisions_and_reviews() {
    let facts = vec![
        fact("permit", "not_reviewed", 1),
        fact("deny", "corrected", 2),
        fact("deny", "false_positive", 3),
        fact("defer", "accepted", 4),
    ];
    let t = metric_tally(&facts);
    assert_eq!(t.traces, 4);
    assert_eq!(t.permit, 1);
    assert_eq!(t.deny, 2);
    assert_eq!(t.defer, 1);
    assert_eq!(t.interventions, 3);
    assert_eq!(t.human_reviews, 3);
    assert_eq!(t.human_interventions, 1);
    assert_eq!(t.false_positives, 1);
}

#[test]
fn catalog_labels_and_charts() {
    assert_eq!(supported_metrics().len(), 11);
    assert_eq!(supported_dimensions().len(), 9);
    assert_eq!(metric_label(AnalyticsMetric::P95LatencyMs), "p95 latency");
    assert_eq!(default_chart_type(AnalyticsMetric::DenyCount), AnalyticsChartType::Bar);
    assert_eq!(default_chart_type(AnalyticsMetric::FalsePositiveRate), AnalyticsChartType::Line);
}

#[test]
fn payload_fields_fall_back() {
    let payload = obj(vec![("agent_id", text("  a ")), ("blank", text("  ")), ("n", JsonValue::Bool(true))]);
    assert_eq!(payload_string(&payload, "agent_id"), Some("a".to_string()));
    assert_eq!(payload_string(&payload, "blank"), None);
    assert_eq!(payload_string(&payload, "n"), None);
    assert_eq!(payload_string(&payload, "missing"), None);
    assert_eq!(payload_string(&text("a"), "agent_id"), None);

    let blank_ids = obj(vec![(
        "triggered_policies",
        JsonValue::Array(vec![obj(vec![]), obj(vec![("id", text(" "))])]),
    )]);
    assert_eq!(policy_ids(&blank_ids), vec!["baseline".to_string()]);
    let ids = obj(vec![(
        "triggered_policies",
        JsonValue::Array(vec![obj(vec![("id", text(" p1 "))]), text("p9"), obj(vec![("id", text("p2"))])]),
    )]);
    assert_eq!(policy_ids(&ids), vec!["p1".to_string(), "p2".to_string()]);
    assert_eq!(policy_ids(&obj(vec![("triggered_policies", text("p1"))])), vec!["baseline".to_string()]);
    assert_eq!(policy_ids(&JsonValue::Null), vec!["baseline".to_string()]);

    let blank_step = obj(vec![("workflow_step", text(" "))]);
    assert_eq!(workflow_step("kind", Some(" label "), &blank_step), Some("label".to_string()));
    assert_eq!(workflow_step(" kind ", None, &JsonValue::Null), Some("kind".to_string()));
    assert_eq!(workflow_step("  ", None, &obj(vec![])), None);
    let step = obj(vec![("workflow_step", text(" review "))]);
    assert_eq!(workflow_step("kind", Some("label"), &step), Some("review".to_string()));
}

#[test]
fn analytics_fact_resolves_run_event_review_and_payload() {
    let payload = obj(vec![
        ("agent_id", text(" from-payload ")),
        ("triggered_policies", JsonValue::Array(vec![obj(vec![("id", text("p1"))])])),
    ]);
    let run = FactRun {
        agent_id: "a1".into(),
        kind: "chat".into(),
        status: "complete".into(),
        external_id: None,
    };
    let event = RunEventFields { kind: " tool_call ".into(), label: Some(" ".into()), metadata: JsonValue::Null };
    let f = analytics_fact("prod".into(), "deny".into(), 12, &payload, Some(run), Some(&event), Some("corrected".into()));
    assert_eq!(f.environment_id, "prod");
    assert_eq!(f.decision, "deny");
    assert_eq!(f.elapsed_ms, 12);
    assert_eq!(f.agent_id, "a1");
    assert_eq!(f.run_kind, "chat");
    assert_eq!(f.run_status, "complete");
    assert_eq!(f.external_id, "none");
    assert_eq!(f.workflow_step, "tool_call");
    assert_eq!(f.review_outcome, "corrected");
    assert_eq!(f.policy_ids, vec!["p1".to_string()]);

    let g = analytics_fact("dev".into(), "permit".into(), 3, &payload, None, None, None);
    assert_eq!(g.agent_id, "from-payload");
    assert_eq!(g.run_kind, "ungrouped");
    assert_eq!(g.run_status, "unknown");
    assert_eq!(g.external_id, "none");
    assert_eq!(g.workflow_step, "unlabeled");
    assert_eq!(g.review_outcome, "not_reviewed");
    let run = FactRun { agent_id: "a2".into(), kind: "batch".into(), status: "running".into(), external_id: Some("ext-9".into()) };
    let h = analytics_fact("dev".into(), "permit".into(), 3, &JsonValue::Null, Some(run), None, None);
    assert_eq!(h.external_id, "ext-9");
    assert_eq!(h.policy_ids, vec!["baseline".to_string()]);
}

#[test]
fn facts_group_by_each_dimension_value() {
    let mut a = fact("deny", "not_reviewed", 10);
    a.policy_ids = vec!["p1".into(), "p1".into()];
    let mut b = fact("permit", "corrected", 20);
    b.policy_ids = vec!["p2".into(), "p1".into()];
    b.agent_id = "agent-2".into();
    let c = fact("deny", "not_reviewed", 30);
    let facts = vec![a, b, c];
    assert_eq!(
        group_by_dimension(&facts, AnalyticsDimension::PolicyId),
        vec![("p1".to_string(), vec![0, 0, 1, 2]), ("p2".to_string(), vec![1, 2])]
    );
    assert_eq!(
        group_by_dimension(&facts, AnalyticsDimension::AgentId),
        vec![("agent-1".to_string(), vec![0, 2]), ("agent-2".to_string(), vec![1])]
    );
    assert_eq!(
        group_by_dimension(&facts, AnalyticsDimension::AuthorizationEffect),
        vec![("deny".to_string(), vec![0, 2]), ("permit".to_string(), vec![1])]
    );
    assert!(group_by_dimension(&vec![], AnalyticsDimension::RunKind).is_empty());
}
