use tl_storage::authorization::{
    approval_status_text, check_approval_open, check_intent_fingerprint, check_lease_completion,
    check_lease_replay, check_revocation, lease_completion_text, plan_grant, use_grant,
    ApprovalDecision, GrantMode, GrantUsage, LeaseStatus,
};
use tl_storage::authorization::{decide_lease_claim, GrantUse, LeaseClaim, StoredLease};
use tl_storage::budget_alert::{
    apply_budget_alert_update, BudgetAlertConfigFields, UpdateBudgetAlertConfigParams,
};
use tl_storage::error::StorageError;
use tl_storage::escalation::{
    is_stale_pending, mark_escalation_failed, mark_escalation_sent, new_pending_escalation,
    record_escalation_attempt,
};
use tl_storage::json::JsonValue;
use tl_storage::evaluation::{
    capture_start, check_evaluation_family, check_replay_source, claim_job, CaptureStart, job_claimable, lease_exhausted,
    manifest_entry, JobClaimState, ReplaySourceKind,
    capture_batch_limit, capture_verdict, check_job_lease, check_reevaluation,
    check_requested_agents, evaluation_participants, job_status_for_verdict, parse_job_status,
    quiet_period_ms, redaction_verified, reevaluation_wait_ms, retry_delay_seconds, retry_status,
    run_duration_ms, truncate_chars, validate_assignments, validate_profile_input,
    AgentEvaluationPolicyAssignment, CaptureEvidence, CaptureVerdict, EvaluationJobStatus, JobLease,
    RunCaptureStatus,
};

#[test]
fn approvals_and_grants() {
    assert_eq!(check_intent_fingerprint("f", "f"), Ok(()));
    assert_eq!(check_intent_fingerprint("f", "g"), Err(StorageError::Conflict));
    assert_eq!(approval_status_text(ApprovalDecision::Deny), "denied");
    assert_eq!(check_approval_open("pending", 100, 50, "h", "h"), Ok(()));
    assert_eq!(check_approval_open("pending", 50, 50, "h", "h"), Err(StorageError::Conflict));
    assert_eq!(check_approval_open("approved", 100, 50, "h", "h"), Err(StorageError::Conflict));
    let exact = plan_grant(GrantMode::ExactOnce, 100, Some(10), None, None, None).unwrap();
    assert_eq!((exact.expires_at, exact.max_uses, exact.exact), (Some(100), Some(1), true));
    assert_eq!(
        plan_grant(GrantMode::ExactOnce, 100, None, Some(101), None, None),
        Err(StorageError::Conflict)
    );
    assert_eq!(
        plan_grant(GrantMode::ExactOnce, 100, Some(100), None, None, None),
        Err(StorageError::Conflict)
    );
    let scoped = plan_grant(GrantMode::Scoped, 100, None, Some(90), Some("s".into()), Some("s".into()))
        .unwrap();
    assert_eq!((scoped.scope.as_deref(), scoped.max_uses), (Some("s"), None));
    assert_eq!(
        plan_grant(GrantMode::Scoped, 100, None, None, Some("s".into()), Some("t".into())),
        Err(StorageError::Conflict)
    );
}

#[test]
fn grant_uses_and_leases() {
    let g = GrantUsage { active: true, starts_at: None, expires_at: Some(100), max_uses: Some(2), use_count: 1 };
    let u = use_grant(g, 50).unwrap();
    assert_eq!((u.use_count, u.exhausted), (2, true));
    assert_eq!(use_grant(GrantUsage { use_count: 2, ..g }, 50), Err(StorageError::Conflict));
    assert_eq!(use_grant(g, 100), Err(StorageError::Conflict));
    let open = GrantUsage { max_uses: None, ..g };
    assert_eq!(use_grant(open, 50).unwrap().exhausted, false);
    assert_eq!(check_lease_replay("f", &Some("g".into()), "consumed", "f", &Some("g".into())), Ok(()));
    assert_eq!(check_lease_replay("f", &None, "canceled", "f", &None), Err(StorageError::Conflict));
    assert_eq!(lease_completion_text(LeaseStatus::Consumed), Ok("consumed"));
    assert_eq!(lease_completion_text(LeaseStatus::Claimed), Err(StorageError::Conflict));
    assert_eq!(check_lease_completion(0, "consumed", "consumed"), Ok(()));
    assert_eq!(check_lease_completion(0, "canceled", "consumed"), Err(StorageError::Conflict));
    assert_eq!(check_revocation(1), Ok(()));
    assert_eq!(check_revocation(0), Err(StorageError::Conflict));
}

fn evidence() -> CaptureEvidence {
    CaptureEvidence {
        deadline: 10_000,
        now: 5_000,
        expects_flush: false,
        receipt_accepted_at: None,
        receipt_rejected_spans: 0,
        latest_evidence_at: 4_000,
        quiet_period_ms: 2_000,
        dropped_trace_count: 0,
        has_unattributed_traces: false,
    }
}

#[test]
fn capture_barrier_waits_then_snapshots() {
    assert_eq!(capture_verdict(evidence()), CaptureVerdict::Waiting);
    let quiet = CaptureEvidence { now: 6_000, ..evidence() };
    assert_eq!(capture_verdict(quiet), CaptureVerdict::Snapshot(RunCaptureStatus::Complete));
    let forced = CaptureEvidence { now: 10_000, expects_flush: true, ..evidence() };
    assert_eq!(capture_verdict(forced), CaptureVerdict::Snapshot(RunCaptureStatus::Incomplete));
    let receipt = CaptureEvidence { expects_flush: true, receipt_accepted_at: Some(4_500), ..evidence() };
    assert_eq!(capture_verdict(receipt), CaptureVerdict::Snapshot(RunCaptureStatus::Complete));
    let dropped = CaptureEvidence { now: 6_000, dropped_trace_count: 1, ..evidence() };
    assert_eq!(capture_verdict(dropped), CaptureVerdict::Snapshot(RunCaptureStatus::Incomplete));
    assert_eq!(quiet_period_ms(0, &vec![5_000]), 2_000);
    assert_eq!(quiet_period_ms(2, &vec![]), 2_000);
    assert_eq!(quiet_period_ms(2, &vec![1_000, 7_000, 3_000]), 7_000);
}

#[test]
fn evaluation_jobs_leases_and_retries() {
    let lease = JobLease { status: "running".into(), lease_owner: Some("w1".into()), attempts: 2, lease_expires_at: Some(100) };
    assert_eq!(check_job_lease(&lease, "w1", 2, 50), Ok(()));
    assert_eq!(check_job_lease(&lease, "w2", 2, 50), Err(StorageError::Conflict));
    assert_eq!(check_job_lease(&lease, "w1", 2, 100), Err(StorageError::Conflict));
    assert_eq!(job_status_for_verdict("passed"), "completed");
    assert_eq!(job_status_for_verdict("weird"), "error");
    assert_eq!(retry_delay_seconds(0), 1);
    assert_eq!(retry_delay_seconds(3), 8);
    assert_eq!(retry_delay_seconds(40), 64);
    assert_eq!(retry_status(3, 3), "error");
    assert_eq!(retry_status(2, 3), "queued");
    assert_eq!(truncate_chars("héllo", 2), "hé");
    assert_eq!(truncate_chars("abc", 10), "abc");
    assert_eq!(parse_job_status("waiting_capture"), Ok(EvaluationJobStatus::WaitingCapture));
    assert!(parse_job_status("paused").is_err());
    assert_eq!(capture_batch_limit(0), 1);
    assert_eq!(capture_batch_limit(1_000), 100);
    assert_eq!(run_duration_ms(100, Some(50)), 0);
    assert_eq!(run_duration_ms(100, Some(350)), 250);
    assert_eq!(run_duration_ms(100, None), 0);
}

#[test]
fn reevaluation_rules() {
    assert_eq!(check_reevaluation(true, false), Ok(()));
    assert_eq!(check_reevaluation(false, false), Err(StorageError::Conflict));
    assert_eq!(check_reevaluation(true, true), Err(StorageError::Conflict));
    let parts = vec!["a".to_string(), "b".to_string(), "c".to_string()];
    assert_eq!(check_requested_agents(&None, &parts), Ok(()));
    assert_eq!(check_requested_agents(&Some(vec![]), &parts), Err(StorageError::NotFound));
    assert_eq!(check_requested_agents(&Some(vec!["z".into()]), &parts), Err(StorageError::NotFound));
    assert_eq!(check_requested_agents(&Some(vec!["c".into(), "a".into()]), &parts), Ok(()));
    assert_eq!(
        evaluation_participants(&parts, &Some(vec!["c".into(), "a".into()])),
        vec!["a".to_string(), "c".to_string()]
    );
    assert_eq!(evaluation_participants(&parts, &None), parts);
    assert_eq!(reevaluation_wait_ms(None), 30_000);
    assert_eq!(reevaluation_wait_ms(Some(10)), 1_000);
    assert_eq!(reevaluation_wait_ms(Some(10_000_000)), 3_600_000);
}

#[test]
fn profiles_and_assignments_validate() {
    assert_eq!(validate_profile_input(300_000, 1_000), Ok(()));
    assert_eq!(
        validate_profile_input(300_001, 1_000),
        Err(StorageError::Internal("quiet_period_ms must be at most 300000".into()))
    );
    assert!(validate_profile_input(0, 999).is_err());
    let a = |id: &str, w, v| AgentEvaluationPolicyAssignment { policy_id: id.into(), policy_version: v, weight: w, critical: false };
    assert_eq!(validate_assignments(&vec![a("p1", 1, None), a("p2", 10_000, Some(1))]), Ok(()));
    assert_eq!(validate_assignments(&vec![a("p1", 1, None), a(" p1 ", 1, None)]), Err(StorageError::Conflict));
    assert_eq!(
        validate_assignments(&vec![a("p1", 0, None)]),
        Err(StorageError::Internal("evaluation assignment weight must be between 1 and 10000".into()))
    );
    assert_eq!(
        validate_assignments(&vec![a(&"é".repeat(65), 1, None)]),
        Err(StorageError::Internal("evaluation policy_id must contain between 1 and 128 bytes".into()))
    );
    assert_eq!(
        validate_assignments(&vec![a("p", 1, Some(0))]),
        Err(StorageError::Internal("evaluation policy_version must be positive".into()))
    );
    let many: Vec<_> = (0..257).map(|i| a(&format!("p{i}"), 1, None)).collect();
    assert_eq!(
        validate_assignments(&many),
        Err(StorageError::Internal("at most 256 evaluation assignments are allowed".into()))
    );
}

#[test]
fn redacted_snapshots_keep_content_only_with_a_full_report() {
    assert!(redaction_verified(Some("redacted"), Some("applied"), Some(true), Some(true), Some(true)));
    assert!(!redaction_verified(Some("redacted"), None, None, None, None));
    assert!(!redaction_verified(Some("metadata_only"), Some("applied"), Some(true), Some(true), Some(true)));
    assert!(!redaction_verified(Some("redacted"), Some("applied"), Some(true), Some(false), Some(true)));
}

#[test]
fn manifest_freezes_evaluation_policies_only() {
    assert_eq!(check_evaluation_family("quality", true), Ok(()));
    assert_eq!(
        check_evaluation_family("quality", false),
        Err(StorageError::Internal("assigned policy `quality` is not evaluation family".into()))
    );
    assert_eq!(check_replay_source("pii", ReplaySourceKind::DeterministicContent), Ok(()));
    assert_eq!(
        check_replay_source("pii", ReplaySourceKind::SemanticContent),
        Err(StorageError::Internal(
            "policy_replay source `pii` must use deterministic literal or regex matchers".into()
        ))
    );
    assert_eq!(
        check_replay_source("pii", ReplaySourceKind::Evaluation),
        Err(StorageError::Internal("policy_replay source `pii` must not reference an evaluation policy".into()))
    );
    assert_eq!(
        check_replay_source("pii", ReplaySourceKind::OtherFamily),
        Err(StorageError::Internal("policy_replay source `pii` must be a deterministic content policy".into()))
    );

    let assignment = AgentEvaluationPolicyAssignment {
        policy_id: "quality".into(),
        policy_version: None,
        weight: 40,
        critical: true,
    };
    let entry = manifest_entry(
        "ws",
        "prod",
        7,
        "agent-1",
        &assignment,
        3,
        "family: evaluation\n".to_string(),
        JsonValue::Null,
    );
    assert_eq!(entry.workspace_id, "ws");
    assert_eq!(entry.environment_id, "prod");
    assert_eq!(entry.run_id, 7);
    assert_eq!(entry.agent_id, "agent-1");
    assert_eq!(entry.policy_id, "quality");
    assert_eq!(entry.policy_family, "evaluation");
    assert_eq!(entry.policy_version, 3);
    assert_eq!(
        entry.policy_hash,
        "sha256:v1:2b098898ee0b46cd85889714d270a5e4052878a6c1882fb51ec2a7e23efb1920"
    );
    assert_eq!(entry.policy_yaml, "family: evaluation\n");
    assert_eq!(entry.weight, 40);
    assert!(entry.critical);
    assert_eq!(entry.evidence_requirements, JsonValue::Null);
}

#[test]
fn claimed_jobs_run_under_the_claiming_worker() {
    let job = |status: &str, attempts: i32, lease: Option<i64>| JobClaimState {
        status: status.into(),
        attempts,
        available_at: 100,
        lease_expires_at: lease,
    };
    assert!(job_claimable(&job("queued", 0, None), 100, 3));
    assert!(!job_claimable(&job("queued", 0, None), 99, 3));
    assert!(!job_claimable(&job("queued", 3, None), 200, 3));
    assert!(job_claimable(&job("running", 1, Some(150)), 200, 3));
    assert!(!job_claimable(&job("running", 1, Some(250)), 200, 3));
    assert!(!job_claimable(&job("completed", 1, None), 200, 3));
    assert!(lease_exhausted(&job("running", 3, Some(150)), 200, 3));
    assert!(!lease_exhausted(&job("running", 2, Some(150)), 200, 3));
    assert!(!lease_exhausted(&job("running", 3, None), 200, 3));

    let lease = claim_job(&job("queued", 1, None), "worker-a", 1_000, 30_000, 3);
    assert_eq!(lease.status, "running");
    assert_eq!(lease.lease_owner.as_deref(), Some("worker-a"));
    assert_eq!(lease.attempts, 2);
    assert_eq!(lease.lease_expires_at, Some(31_000));
    assert_eq!(check_job_lease(&lease, "worker-a", 2, 30_999), Ok(()));
    assert_eq!(check_job_lease(&lease, "worker-a", 2, 31_000), Err(StorageError::Conflict));
    assert_eq!(check_job_lease(&lease, "worker-b", 2, 2_000), Err(StorageError::Conflict));
}

#[test]
fn capture_opens_only_for_waiting_finalized_runs() {
    assert_eq!(capture_start("complete", None, None), Ok(CaptureStart::Closed));
    assert_eq!(
        capture_start("waiting", Some(10), Some(20)),
        Ok(CaptureStart::Open { finalized_at: 10, deadline: 20 })
    );
    assert_eq!(
        capture_start("waiting", None, Some(20)),
        Err(StorageError::Internal("waiting capture has no finalization".into()))
    );
    assert_eq!(
        capture_start("waiting", Some(10), None),
        Err(StorageError::Internal("waiting capture has no deadline".into()))
    );
}

#[test]
fn budget_alert_updates_leave_unset_fields_alone() {
    let config = BudgetAlertConfigFields {
        name: "weekly".into(),
        window: "week".into(),
        principal_id: Some("p-1".into()),
        threshold_type: "percent".into(),
        threshold_value: 80,
        webhook_url: Some("https://hooks.example/a".into()),
        enabled: true,
    };
    assert_eq!(apply_budget_alert_update(config.clone(), UpdateBudgetAlertConfigParams::default()), config);
    let update = UpdateBudgetAlertConfigParams {
        threshold_value: Some(90),
        enabled: Some(false),
        webhook_url: Some("https://hooks.example/b".into()),
        ..UpdateBudgetAlertConfigParams::default()
    };
    let once = apply_budget_alert_update(config.clone(), update.clone());
    assert_eq!(once.threshold_value, 90);
    assert!(!once.enabled);
    assert_eq!(once.webhook_url.as_deref(), Some("https://hooks.example/b"));
    assert_eq!(once.principal_id.as_deref(), Some("p-1"));
    assert_eq!(once.name, "weekly");
    assert_eq!(apply_budget_alert_update(once.clone(), update), once);
}

#[test]
fn escalations_close_once_and_only_pending_ones_are_redelivered() {
    let mut row = new_pending_escalation(1, 2, "https://hooks.example/e", JsonValue::Null, 1_000);
    assert_eq!(row.status, "pending");
    assert_eq!(row.attempts, 0);
    assert!(row.sent_at.is_none());
    assert!(is_stale_pending(&row, 1_001));
    assert!(!is_stale_pending(&row, 1_000));
    assert_eq!(record_escalation_attempt(&mut row), Ok(()));
    assert_eq!(row.attempts, 1);
    mark_escalation_sent(&mut row, 5_000);
    assert_eq!(row.status, "sent");
    assert_eq!(row.sent_at, Some(5_000));
    assert!(!is_stale_pending(&row, 10_000));
    let mut failed = new_pending_escalation(3, 4, "https://hooks.example/e", JsonValue::Null, 0);
    failed.attempts = i32::MAX;
    assert_eq!(
        record_escalation_attempt(&mut failed),
        Err(StorageError::Internal("record_attempt: integer out of range".into()))
    );
    assert_eq!(failed.attempts, i32::MAX);
    mark_escalation_failed(&mut failed, 7);
    assert_eq!(failed.status, "failed");
    assert_eq!(failed.sent_at, Some(7));
}

#[test]
fn lease_claims_replay_or_take_one_grant_use() {
    let g = GrantUsage { active: true, starts_at: None, expires_at: Some(1_000_000), max_uses: Some(2), use_count: 1 };
    let grant = Some("g".to_string());
    let held = StoredLease { fingerprint: "f".into(), grant_id: grant.clone(), status: "claimed".into() };
    assert_eq!(decide_lease_claim(Some(&held), "f", "f", &grant, Some(g), 10), Ok(LeaseClaim::Replayed));
    assert_eq!(decide_lease_claim(Some(&held), "f", "other", &grant, Some(g), 10), Err(StorageError::Conflict));
    assert_eq!(decide_lease_claim(None, "f", "other", &grant, Some(g), 10), Err(StorageError::Conflict));
    assert_eq!(
        decide_lease_claim(None, "f", "f", &grant, Some(g), 10),
        Ok(LeaseClaim::Claimed { grant_use: Some(GrantUse { use_count: 2, exhausted: true }), expires_at: 300_010 })
    );
    assert_eq!(
        decide_lease_claim(None, "f", "f", &grant, Some(GrantUsage { use_count: 2, ..g }), 10),
        Err(StorageError::Conflict)
    );
    assert_eq!(decide_lease_claim(None, "f", "f", &grant, None, 10), Err(StorageError::NotFound));
    assert_eq!(
        decide_lease_claim(None, "f", "f", &None, None, 10),
        Ok(LeaseClaim::Claimed { grant_use: None, expires_at: 300_010 })
    );
}
