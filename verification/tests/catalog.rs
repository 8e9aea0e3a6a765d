use tl_storage::github::GitHubIntegrationJobStatus::{Analyzing, Applying, AwaitingApproval, AwaitingVerification, Cancelled, ClosedUnmerged, DraftPrOpen, Error, Queued, Verified};
use tl_storage::environment::{check_default_update, check_environment_deletable, environment_id_for};
use tl_storage::error::{storage_error_from_db, DbFailure, StorageError};
use tl_storage::feature_flag::{flag_after_set, flag_enabled, GlobalFeatureFlagRow};
use tl_storage::json::JsonValue;
use tl_storage::gateway::{
    apply_route_patch, parse_provider_kind, parse_reliability_mode, provider_kind_text,
    reliability_mode_text, update_provider_fields, GatewayProviderKind, GatewayReliabilityMode,
    GatewayRoutePatch, ProviderConnectionFields, RouteFields,
};
use tl_storage::github::{
    check_expected_status, job_status_text, merge_job_fields, parse_connection_status,
    parse_job_status, parse_selection, pull_request_closed_status, GitHubConnectionStatus,
    GitHubIntegrationJobStatus, GitHubRepositorySelection, JobFieldValues,
};
use tl_storage::mcp::{
    check_client_capacity, replace_catalog, CatalogTool, CatalogToolInput, McpGatewayCatalogStatus,
    apply_connection_patch, check_members, credential_status, ids_not_in, parse_auth_kind,
    replacement_user_ids, CredentialPatch, McpConnectionPatch, McpConnectionState,
    McpGatewayAuthKind, McpGatewayCredentialStatus, McpGatewaySyncStatus,
};
use tl_storage::memory::MemoryStore;
use tl_storage::notification::{
    delivery_claimable, delivery_status_text, delivery_transition, event_kind_text,
    matching_rule_ids, parse_delivery_status, parse_event_kind, rule_matches, DeliveryClaimState,
    DeliveryStatus, NotificationEventKind, NotificationRuleFacts,
};
use tl_storage::otel::{check_span_tenancy, ingest_result, is_late_evidence, SpanTenancy};
use tl_storage::policy::{cache_key, policy_version_row, unique_policy_ids};

#[test]
fn memory_store_reads_back_writes() {
    let mut store: MemoryStore<u32> = MemoryStore::new();
    assert_eq!(store.get("t1"), Err(StorageError::NotFound));
    store.put("t1".into(), 7);
    store.put("t2".into(), 8);
    store.put("t1".into(), 9);
    assert_eq!(store.get("t1"), Ok(&9));
    assert_eq!(store.get("t2"), Ok(&8));
    assert_eq!(store.get("t3"), Err(StorageError::NotFound));
}

#[test]
fn db_failures_map_to_storage_errors() {
    assert_eq!(storage_error_from_db(DbFailure::NoRow), StorageError::NotFound);
    assert_eq!(storage_error_from_db(DbFailure::UniqueViolation), StorageError::Conflict);
    assert_eq!(
        storage_error_from_db(DbFailure::Other("boom".into())),
        StorageError::Internal("boom".into())
    );
}

#[test]
fn notification_deliveries_back_off() {
    let t = delivery_transition(true, 3, None);
    assert_eq!((t.status, t.delay_seconds), (DeliveryStatus::Sent, 8));
    let t = delivery_transition(false, 5, None);
    assert_eq!((t.status, t.delay_seconds), (DeliveryStatus::Failed, 32));
    let t = delivery_transition(false, 2, Some(3));
    assert_eq!((t.status, t.delay_seconds), (DeliveryStatus::Pending, 4));
    assert_eq!(delivery_transition(false, 20, Some(30)).delay_seconds, 256);
    assert_eq!(delivery_transition(false, -4, None).delay_seconds, 1);
    assert_eq!(parse_event_kind(event_kind_text(NotificationEventKind::Test)), Ok(NotificationEventKind::Test));
    assert_eq!(
        parse_event_kind("other"),
        Err(StorageError::Internal("invalid notification event kind".into()))
    );
}

#[test]
fn github_jobs_statuses_and_fields() {
    for s in [Queued, Analyzing, AwaitingApproval, Applying, DraftPrOpen, AwaitingVerification, Verified, ClosedUnmerged, Error, Cancelled] {
        assert_eq!(parse_job_status(job_status_text(s)), Ok(s));
    }
    assert_eq!(pull_request_closed_status(true), AwaitingVerification);
    assert_eq!(pull_request_closed_status(false), ClosedUnmerged);
    assert_eq!(check_expected_status(&vec![Queued, Analyzing], "analyzing"), Ok(()));
    assert_eq!(check_expected_status(&vec![Queued], "verified"), Err(StorageError::Conflict));
    assert_eq!(parse_connection_status("weird"), GitHubConnectionStatus::Active);
    assert_eq!(parse_selection("all"), GitHubRepositorySelection::All);
    let empty = JobFieldValues {
        base_sha: None, branch_name: None, commit_sha: None, pull_request_number: None,
        pull_request_url: None, error_code: None, error_message: None,
        analysis_completed_at: None, pr_opened_at: None, pr_merged_at: None,
        first_verified_trace_at: None,
    };
    let current = JobFieldValues { branch_name: Some("b".into()), pull_request_number: Some(4), ..empty.clone() };
    let update = JobFieldValues { pull_request_number: Some(5), commit_sha: Some("c".into()), ..empty.clone() };
    let merged = merge_job_fields(update, current.clone());
    assert_eq!(merged.branch_name.as_deref(), Some("b"));
    assert_eq!(merged.pull_request_number, Some(5));
    assert_eq!(merged.commit_sha.as_deref(), Some("c"));
    assert_eq!(merge_job_fields(empty, current.clone()), current);
}

fn state() -> McpConnectionState {
    McpConnectionState {
        display_name: "n".into(),
        endpoint_url: "https://x".into(),
        auth_kind: McpGatewayAuthKind::StaticBearer,
        encrypted_credential: Some("secret".into()),
        enabled: true,
        last_sync_status: McpGatewaySyncStatus::Succeeded,
        last_sync_error: None,
        last_synced_at: Some(5),
    }
}

#[test]
fn mcp_patches_and_assignments() {
    let patch = McpConnectionPatch {
        display_name: Some("m".into()),
        endpoint_url: None,
        auth_kind: Some(McpGatewayAuthKind::NoAuth),
        credential: CredentialPatch::Replace("new".into()),
        enabled: None,
        invalidate_catalog: true,
    };
    let s = apply_connection_patch(state(), patch);
    assert_eq!(s.display_name, "m");
    assert_eq!(s.encrypted_credential, None);
    assert_eq!(s.last_sync_status, McpGatewaySyncStatus::Never);
    assert_eq!(s.last_synced_at, None);
    let keep = McpConnectionPatch {
        display_name: None, endpoint_url: None, auth_kind: None,
        credential: CredentialPatch::default(), enabled: Some(false), invalidate_catalog: false,
    };
    let s = apply_connection_patch(state(), keep);
    assert_eq!(s.encrypted_credential.as_deref(), Some("secret"));
    assert!(!s.enabled);
    assert_eq!(credential_status(McpGatewayAuthKind::StaticBearer, false), McpGatewayCredentialStatus::Missing);
    assert_eq!(parse_auth_kind("static_bearer"), Ok(McpGatewayAuthKind::StaticBearer));
    assert!(parse_auth_kind("oauth").is_err());
    assert_eq!(replacement_user_ids(&vec![3, 1, 3, 2]), Ok(vec![1, 2, 3]));
    let many: Vec<u128> = (0..501).collect();
    assert_eq!(replacement_user_ids(&many), Err(StorageError::Conflict));
    let mut dup: Vec<u128> = (0..500).collect();
    dup.extend(0..10);
    assert_eq!(replacement_user_ids(&dup).map(|v| v.len()), Ok(500));
    assert_eq!(check_members(2, 2), Ok(()));
    assert_eq!(check_members(1, 2), Err(StorageError::Conflict));
    assert_eq!(ids_not_in(&vec![5, 1, 7], &vec![7, 2]), vec![5, 1]);
}

#[test]
fn gateway_encodings_and_updates() {
    assert_eq!(parse_reliability_mode(reliability_mode_text(GatewayReliabilityMode::Direct)), Ok(GatewayReliabilityMode::Direct));
    assert_eq!(reliability_mode_text(GatewayReliabilityMode::Direct), "none");
    assert_eq!(parse_provider_kind(provider_kind_text(GatewayProviderKind::PaymentHttp)), Ok(GatewayProviderKind::PaymentHttp));
    assert_eq!(
        parse_provider_kind("gemini"),
        Err(StorageError::Internal("unknown provider kind: gemini".into()))
    );
    let current = ProviderConnectionFields {
        display_name: "a".into(),
        base_url: Some("u".into()),
        default_model: "m".into(),
        encrypted_api_key: "k".into(),
    };
    let next = update_provider_fields(current.clone(), None, Some(None), Some("m2".into()), None);
    assert_eq!(next.base_url, None);
    assert_eq!(next.default_model, "m2");
    assert_eq!(next.display_name, "a");
    let route = RouteFields {
        display_name: "r".into(),
        provider_connection_id: "p".into(),
        agent_id: "a".into(),
        reliability_mode: GatewayReliabilityMode::Standard,
        fallback_provider_connection_ids: vec![],
    };
    let patched = apply_route_patch(route, GatewayRoutePatch {
        display_name: None,
        provider_connection_id: None,
        agent_id: Some("b".into()),
        reliability_mode: None,
        fallback_provider_connection_ids: Some(vec!["f".into()]),
    });
    assert_eq!(patched.agent_id, "b");
    assert_eq!(patched.fallback_provider_connection_ids, vec!["f".to_string()]);
    assert_eq!(patched.display_name, "r");
}

#[test]
fn policies_environments_and_spans() {
    assert_eq!(
        unique_policy_ids(&vec!["b".into(), "a".into(), "b".into(), "c".into(), "a".into()]),
        vec!["b".to_string(), "a".to_string(), "c".to_string()]
    );
    assert_eq!(cache_key("w", "p"), "w\0p");
    let row = policy_version_row("w", "p", 2, "yaml");
    assert_eq!((row.version, row.entity_type.as_str()), (3, "policy"));
    assert_eq!(environment_id_for("production", "x"), "production");
    assert_eq!(environment_id_for("staging", "123"), "env_123");
    assert_eq!(
        check_default_update(Some(false), true),
        Err(StorageError::Internal("workspace must have one default environment".into()))
    );
    assert_eq!(check_default_update(Some(true), false), Ok(()));
    assert_eq!(
        check_environment_deletable(true, 0, 0, 0),
        Err(StorageError::Internal("default environment cannot be deleted".into()))
    );
    assert_eq!(
        check_environment_deletable(false, 0, 1, 0),
        Err(StorageError::Internal("environment is still referenced by runtime data".into()))
    );
    assert_eq!(check_environment_deletable(false, 0, 0, 0), Ok(()));
    assert!(is_late_evidence("complete", None, 0));
    assert!(is_late_evidence("open", Some(5), 6));
    assert!(!is_late_evidence("waiting", Some(5), 5));
    let t = |w: &str| SpanTenancy { workspace_id: w.into(), environment_id: "e".into(), run_id: "r".into() };
    assert_eq!(check_span_tenancy(&vec![t("w"), t("w")], &t("w")), Ok(()));
    assert!(check_span_tenancy(&vec![t("w"), t("x")], &t("w")).is_err());
    let r = ingest_result(3, true);
    assert_eq!((r.accepted_span_count, r.late_span_count), (3, 3));
    assert_eq!(ingest_result(usize::MAX, false).accepted_span_count, i32::MAX);
}

#[test]
fn uuid_identifiers_parse_per_store() {
    let id = "550E8400-E29B-41D4-A716-446655440000";
    assert_eq!(
        tl_storage::ids::canonical_uuid(id),
        Some("550e8400-e29b-41d4-a716-446655440000".to_string())
    );
    assert_eq!(tl_storage::ids::canonical_uuid("zz"), None);
    assert_eq!(tl_storage::ids::parse_uuid_or_conflict("zz"), Err(StorageError::Conflict));
    assert_eq!(tl_storage::ids::parse_uuid_or_not_found("zz"), Err(StorageError::NotFound));
    assert_eq!(tl_storage::ids::parse_config_id("  00000000-0000-0000-0000-000000000001 "), Ok(1));
    assert_eq!(
        tl_storage::ids::parse_delivery_uuid("zz"),
        Err(StorageError::Internal("invalid UUID".into()))
    );
    assert_eq!(
        tl_storage::ids::parse_labelled_uuid("run_id", "zz"),
        Err(StorageError::Internal("run_id parse: invalid character: found `z` at 0".into()))
    );
    assert_eq!(
        tl_storage::ids::parse_action_uuid("abc"),
        Err(StorageError::Internal("invalid financial action uuid: invalid length: found 3".into()))
    );
}

#[test]
fn notification_rules_fire_for_their_kind_and_agent() {
    let rule = |id: u128, kinds: &[&str], agent: Option<&str>| NotificationRuleFacts {
        id,
        enabled: true,
        deleted: false,
        event_kinds: kinds.iter().map(|k| k.to_string()).collect(),
        agent_id: agent.map(|a| a.to_string()),
    };
    let any_agent = rule(1, &["evaluation_failed"], None);
    let agent_a = rule(2, &["evaluation_failed", "test"], Some("a"));
    let mut disabled = rule(3, &["evaluation_failed"], None);
    disabled.enabled = false;
    let mut deleted = rule(4, &["evaluation_failed"], None);
    deleted.deleted = true;
    let failed = NotificationEventKind::EvaluationFailed;
    assert!(rule_matches(&any_agent, None, failed, Some("a")));
    assert!(rule_matches(&any_agent, None, failed, None));
    assert!(rule_matches(&agent_a, None, failed, Some("a")));
    assert!(!rule_matches(&agent_a, None, failed, Some("b")));
    assert!(!rule_matches(&agent_a, None, failed, None));
    assert!(!rule_matches(&any_agent, None, NotificationEventKind::Test, None));
    assert!(rule_matches(&any_agent, Some(1), NotificationEventKind::Test, None));
    assert!(!rule_matches(&any_agent, Some(2), failed, None));
    assert!(!rule_matches(&disabled, None, failed, None));
    assert!(!rule_matches(&deleted, None, failed, None));
    let rules = vec![any_agent, agent_a, disabled, deleted];
    assert_eq!(matching_rule_ids(&rules, None, failed, Some("a")), vec![1, 2]);
    assert_eq!(matching_rule_ids(&rules, None, NotificationEventKind::Test, Some("a")), vec![2]);
}

#[test]
fn deliveries_are_claimable_when_due_or_abandoned() {
    let d = |status, next, lease| DeliveryClaimState { status, next_attempt_at: next, lease_expires_at: lease };
    assert!(delivery_claimable(&d(DeliveryStatus::Pending, 10, None), 10));
    assert!(!delivery_claimable(&d(DeliveryStatus::Pending, 11, None), 10));
    assert!(delivery_claimable(&d(DeliveryStatus::Sending, 99, Some(10)), 10));
    assert!(!delivery_claimable(&d(DeliveryStatus::Sending, 0, Some(11)), 10));
    assert!(!delivery_claimable(&d(DeliveryStatus::Sending, 0, None), 10));
    assert!(!delivery_claimable(&d(DeliveryStatus::Sent, 0, None), 10));
    for s in [DeliveryStatus::Pending, DeliveryStatus::Sending, DeliveryStatus::Sent, DeliveryStatus::Failed] {
        assert_eq!(parse_delivery_status(delivery_status_text(s)), Ok(s));
    }
    assert_eq!(
        parse_delivery_status("queued"),
        Err(StorageError::Internal("invalid notification delivery status".into()))
    );
}

#[test]
fn oauth_client_registration_is_bounded() {
    assert_eq!(check_client_capacity(0, 1), Ok(()));
    assert_eq!(check_client_capacity(99, 100), Ok(()));
    assert_eq!(check_client_capacity(100, 100), Err(StorageError::Conflict));
    assert_eq!(check_client_capacity(5, 0), Err(StorageError::Conflict));
}

#[test]
fn feature_flags_default_until_set_and_keep_their_config() {
    let set = flag_after_set(None, "beta", true, Some("ops"), 42);
    assert_eq!(set.key, "beta");
    assert!(set.enabled);
    assert_eq!(set.config, JsonValue::Object(vec![]));
    assert_eq!(set.updated_at, 42);
    assert_eq!(set.updated_by.as_deref(), Some("ops"));
    assert!(flag_enabled(Some(&set), false));
    assert!(!flag_enabled(None, false));
    assert!(flag_enabled(None, true));
    let configured = GlobalFeatureFlagRow {
        key: "beta".into(),
        enabled: true,
        config: JsonValue::Object(vec![("rollout".into(), JsonValue::Number("50".into()))]),
        updated_at: 1,
        updated_by: None,
    };
    let off = flag_after_set(Some(configured), "beta", false, None, 50);
    assert!(!flag_enabled(Some(&off), true));
    assert_eq!(off.config, JsonValue::Object(vec![("rollout".into(), JsonValue::Number("50".into()))]));
    assert!(off.updated_by.is_none());
}

fn stored_tool(id: u128, name: &str, side_effect: &str, status: McpGatewayCatalogStatus) -> CatalogTool {
    CatalogTool {
        id,
        upstream_name: name.into(),
        public_name: format!("pub_{name}"),
        title: None,
        description: None,
        input_schema: JsonValue::Object(vec![]),
        output_schema: None,
        annotations: JsonValue::Null,
        schema_hash: "h0".into(),
        side_effect: side_effect.into(),
        catalog_status: status,
    }
}

fn reported_tool(name: &str, hash: &str) -> CatalogToolInput {
    CatalogToolInput {
        upstream_name: name.into(),
        public_name: format!("new_{name}"),
        title: Some(format!("Title {name}")),
        description: None,
        input_schema: JsonValue::Object(vec![("type".into(), JsonValue::Str("object".into()))]),
        output_schema: None,
        annotations: JsonValue::Null,
        schema_hash: hash.into(),
    }
}

#[test]
fn catalog_snapshot_marks_unreported_tools_missing() {
    let existing = vec![
        stored_tool(1, "search", "read_only", McpGatewayCatalogStatus::Active),
        stored_tool(2, "delete", "destructive", McpGatewayCatalogStatus::SchemaChanged),
    ];
    let reported = vec![reported_tool("search", "h1"), reported_tool("create", "h2"), reported_tool("search", "h3")];
    let out = replace_catalog(existing, reported, &vec![10, 11, 12]);
    assert_eq!(out.len(), 3);
    assert_eq!(out[0].id, 1);
    assert_eq!(out[0].catalog_status, McpGatewayCatalogStatus::Active);
    assert_eq!(out[0].side_effect, "read_only");
    assert_eq!(out[0].public_name, "new_search");
    assert_eq!(out[0].schema_hash, "h3");
    assert_eq!(out[0].title.as_deref(), Some("Title search"));
    assert_eq!(out[1].id, 2);
    assert_eq!(out[1].catalog_status, McpGatewayCatalogStatus::Missing);
    assert_eq!(out[1].side_effect, "destructive");
    assert_eq!(out[1].public_name, "pub_delete");
    assert_eq!(out[2].id, 11);
    assert_eq!(out[2].upstream_name, "create");
    assert_eq!(out[2].side_effect, "api_mutation");
    assert_eq!(out[2].catalog_status, McpGatewayCatalogStatus::Active);
    let empty = replace_catalog(vec![stored_tool(5, "x", "read_only", McpGatewayCatalogStatus::Active)], vec![], &vec![]);
    assert_eq!(empty[0].catalog_status, McpGatewayCatalogStatus::Missing);
}

#[test]
fn memory_store_keeps_the_last_write_of_each_trace() {
    let mut store: MemoryStore<u32> = MemoryStore::new();
    let writes = [("a", 1), ("b", 2), ("a", 3), ("c", 4), ("b", 5), ("a", 6)];
    for (trace_id, decision) in writes {
        store.put(trace_id.into(), decision);
    }
    assert_eq!(store.get("a"), Ok(&6));
    assert_eq!(store.get("b"), Ok(&5));
    assert_eq!(store.get("c"), Ok(&4));
    assert_eq!(store.get("d"), Err(StorageError::NotFound));
}
