use tl_storage::financial::FinancialExecutionStatus::{Canceled, Executing, Failed, NotStarted, Reversed, Succeeded};
use tl_storage::error::StorageError;
use tl_storage::json::JsonValue;
use tl_storage::financial::{
    check_execution_transition, check_ledger_replay, clean_operation, clean_optional,
    clean_required, commit_in_session, evaluate_action_budget, execution_status_as_str,
    execution_status_from_text, ledger_kind_from_text, net_spend_minor, prepare_financial_action,
    prepare_budget_reservation, prepare_ledger_entry, release_in_session, reservation_release_metadata,
    reserve_in_session, saturating_add_i64,
    validate_create_action, validate_payment_request, AgenticPaymentReservationStatus,
    FinancialActionInput, FinancialBudgetConstraint, FinancialBudgetWindow,
    FinancialExecutionStatus, FinancialLedgerEntryKind, LedgerAmountRow, LedgerEntryFacts,
    MoneyAmount, PaymentSession, SettleStep, WindowSpend,
};
use tl_storage::financial::{commit_reservation, release_reservation, HeldReservation};

fn internal(msg: &str) -> StorageError {
    StorageError::Internal(msg.to_string())
}

#[test]
fn ledger_kinds_round_trip_and_sign() {
    for k in [
        FinancialLedgerEntryKind::Reserved,
        FinancialLedgerEntryKind::Released,
        FinancialLedgerEntryKind::Executed,
        FinancialLedgerEntryKind::Reversed,
    ] {
        assert_eq!(ledger_kind_from_text(k.as_str()), Ok(k));
    }
    assert_eq!(FinancialLedgerEntryKind::Reserved.signed_amount(250), 250);
    assert_eq!(FinancialLedgerEntryKind::Released.signed_amount(250), -250);
    assert_eq!(
        ledger_kind_from_text("pending"),
        Err(internal("unknown financial ledger kind: pending"))
    );
}

#[test]
fn net_spend_saturates_and_reports_unknown_kinds() {
    let row = |k: &str, a: i64| LedgerAmountRow { entry_kind: k.to_string(), amount_minor: a };
    assert_eq!(
        net_spend_minor(&vec![row("reserved", 500), row("released", 200), row("executed", 50)]),
        Ok(350)
    );
    assert_eq!(
        net_spend_minor(&vec![row("reserved", i64::MAX), row("executed", 10)]),
        Ok(i64::MAX)
    );
    assert_eq!(
        net_spend_minor(&vec![row("reserved", 1), row("bogus", 2), row("nope", 3)]),
        Err(internal("unknown financial ledger kind: bogus"))
    );
    assert_eq!(saturating_add_i64(i64::MIN, -1), i64::MIN);
}

#[test]
fn execution_lifecycle_transitions() {
    assert_eq!(check_execution_transition(NotStarted, Executing), Ok(()));
    assert_eq!(check_execution_transition(Succeeded, Reversed), Ok(()));
    assert_eq!(check_execution_transition(Canceled, Canceled), Ok(()));
    assert_eq!(check_execution_transition(Canceled, Executing), Err(StorageError::Conflict));
    assert_eq!(check_execution_transition(Reversed, Succeeded), Err(StorageError::Conflict));
    assert_eq!(check_execution_transition(Executing, NotStarted), Err(StorageError::Conflict));
    assert_eq!(execution_status_from_text(execution_status_as_str(Failed)), Ok(Failed));
    assert!(execution_status_from_text("done").is_err());
}

#[test]
fn cleaning_and_operation_names() {
    assert_eq!(clean_required("currency", "  usd "), Ok("usd".to_string()));
    assert_eq!(
        clean_required("currency", "   "),
        Err(internal("currency must not be empty"))
    );
    assert_eq!(clean_optional("  memo  ".to_string()), Some("memo".to_string()));
    assert_eq!(clean_optional(" ".to_string()), None);
    assert_eq!(clean_operation(" wire_transfer-2 "), Ok(()));
    assert_eq!(
        clean_operation("  "),
        Err(internal("financial action operation must not be empty"))
    );
    assert_eq!(
        clean_operation("Wire"),
        Err(internal("financial action operation must be lowercase ASCII, digits, '_' or '-'"))
    );
    assert!(clean_operation(&"a".repeat(129)).is_err());
    assert!(clean_operation(&"a".repeat(128)).is_ok());
}

fn input(amount: i64) -> FinancialActionInput {
    FinancialActionInput {
        action_id: None,
        idempotency_key: " key-1 ".into(),
        principal_id: " agent-7 ".into(),
        operation: " pay_invoice ".into(),
        amount: MoneyAmount { amount_minor: amount, currency: " usd ".into() },
        memo: Some("   ".into()),
    }
}

#[test]
fn create_action_validation_and_normalization() {
    assert_eq!(validate_create_action(&input(100)), Ok(()));
    assert_eq!(
        validate_create_action(&input(0)),
        Err(internal("financial action amount must be positive"))
    );
    let mut blank_key = input(100);
    blank_key.idempotency_key = " ".into();
    assert_eq!(
        validate_create_action(&blank_key),
        Err(internal("idempotency_key must not be empty"))
    );
    let p = prepare_financial_action(" prod ", &input(100)).unwrap();
    assert_eq!(p.environment_id, "prod");
    assert_eq!(p.idempotency_key, "key-1");
    assert_eq!(p.principal_id, "agent-7");
    assert_eq!(p.operation, "pay_invoice");
    assert_eq!(p.currency, "USD");
    assert_eq!(p.memo, None);
    assert_eq!(p.action_id, None);
    let mut with_id = input(100);
    with_id.action_id = Some("00000000-0000-0000-0000-00000000002a".into());
    assert_eq!(prepare_financial_action("prod", &with_id).unwrap().action_id, Some(42));
    with_id.action_id = Some("nope".into());
    assert!(prepare_financial_action("prod", &with_id).is_err());
    assert_eq!(
        prepare_financial_action(" ", &input(100)),
        Err(internal("environment_id must not be empty"))
    );
}

#[test]
fn ledger_entries_replay_or_conflict() {
    let facts = |a: i64| LedgerEntryFacts {
        action_id: "a1".into(),
        kind: FinancialLedgerEntryKind::Reserved,
        amount_minor: a,
        currency: "USD".into(),
    };
    assert_eq!(check_ledger_replay(&facts(10), &facts(10)), Ok(()));
    assert_eq!(check_ledger_replay(&facts(10), &facts(11)), Err(StorageError::Conflict));
    let id = "550e8400-e29b-41d4-a716-446655440000";
    assert_eq!(
        prepare_ledger_entry(-1, id, "usd", "k"),
        Err(internal("financial ledger amount must be non-negative"))
    );
    let p = prepare_ledger_entry(5, id, " eur ", " k ").unwrap();
    assert_eq!((p.currency.as_str(), p.idempotency_key.as_str()), ("EUR", "k"));
    assert_eq!(p.action_id, 0x550e8400_e29b_41d4_a716_446655440000u128);
    match prepare_ledger_entry(5, "not-a-uuid", " ", "k") {
        Err(StorageError::Internal(m)) => assert!(m.starts_with("invalid financial action uuid: ")),
        other => panic!("unexpected {other:?}"),
    }
    assert_eq!(
        prepare_budget_reservation(0, id, "usd", "k"),
        Err(internal("financial budget reservation amount must be positive"))
    );
    assert_eq!(
        prepare_budget_reservation(1, id, "usd", " "),
        Err(internal("idempotency_key must not be empty"))
    );
}

#[test]
fn budget_constraints_report_breaches_and_deny_on_blocking() {
    let c = |id: &str, w, cap, block| FinancialBudgetConstraint {
        policy_id: id.into(),
        window: w,
        cap_minor: cap,
        block_on_breach: block,
    };
    let constraints = vec![
        c("daily", FinancialBudgetWindow::Day, 1_000, false),
        c("weekly", FinancialBudgetWindow::Week, 5_000, true),
        c("monthly", FinancialBudgetWindow::Month, 100_000, true),
    ];
    let spend = WindowSpend { day_minor: 900, week_minor: 4_000, month_minor: 10_000 };
    let (v, denied) = evaluate_action_budget(&constraints, spend, 200);
    assert_eq!(v.len(), 1);
    assert_eq!(v[0].policy_id, "daily");
    assert_eq!(v[0].committed_minor, 900);
    assert!(!denied);
    let (v, denied) = evaluate_action_budget(&constraints, spend, 1_500);
    assert_eq!(
        v.iter().map(|x| x.policy_id.as_str()).collect::<Vec<_>>(),
        vec!["daily", "weekly"]
    );
    assert!(denied);
}

fn session() -> PaymentSession {
    PaymentSession {
        active: true,
        principal_id: "p".into(),
        currency: "USD".into(),
        expires_at: 1_000,
        max_amount_minor: 100,
        reserved_minor: 30,
        committed_minor: 50,
        released_minor: 5,
    }
}

#[test]
fn payment_sessions_reserve_commit_release() {
    let s = reserve_in_session(&session(), "p", "USD", 20, 10).unwrap();
    assert_eq!((s.reserved_minor, s.committed_minor), (50, 50));
    assert_eq!(reserve_in_session(&session(), "p", "USD", 21, 10), Err(StorageError::Conflict));
    assert_eq!(reserve_in_session(&session(), "q", "USD", 1, 10), Err(StorageError::Conflict));
    assert_eq!(reserve_in_session(&session(), "p", "USD", 1, 1_000), Err(StorageError::Conflict));

    let st = AgenticPaymentReservationStatus::Reserved;
    match commit_in_session(st, 500, 30, &session(), 10).unwrap() {
        SettleStep::Apply(s) => {
            assert_eq!((s.reserved_minor, s.committed_minor, s.released_minor), (0, 80, 5))
        }
        other => panic!("unexpected {other:?}"),
    }
    assert_eq!(
        commit_in_session(AgenticPaymentReservationStatus::Committed, 500, 30, &session(), 10),
        Ok(SettleStep::AlreadySettled)
    );
    assert_eq!(
        commit_in_session(AgenticPaymentReservationStatus::Released, 500, 30, &session(), 10),
        Err(StorageError::Conflict)
    );
    assert_eq!(commit_in_session(st, 5, 30, &session(), 10), Err(StorageError::Conflict));
    match release_in_session(st, 10, &session()).unwrap() {
        SettleStep::Apply(s) => {
            assert_eq!((s.reserved_minor, s.committed_minor, s.released_minor), (20, 50, 15))
        }
        other => panic!("unexpected {other:?}"),
    }
    assert_eq!(release_in_session(st, 31, &session()), Err(StorageError::Conflict));
}

#[test]
fn payment_request_validation() {
    let amount = MoneyAmount { amount_minor: 10, currency: " usd ".into() };
    let id = "550e8400-e29b-41d4-a716-446655440000";
    let c = validate_payment_request(&amount, 10, 100, 50, " s ", " p ", " h ", id).unwrap();
    assert_eq!(c.currency, "USD");
    assert!(validate_payment_request(&amount, 10, 100, 50, "s", "p", "h", "x").is_err());
    assert_eq!(c.session_id, "s");
    assert_eq!(
        validate_payment_request(&amount, 9, 100, 50, "s", "p", "h", id),
        Err(internal("agentic payment session limit must cover the reservation amount"))
    );
    assert_eq!(
        validate_payment_request(&amount, 10, 50, 50, "s", "p", "h", id),
        Err(internal("agentic payment reservation expires_at must be in the future"))
    );
    assert_eq!(
        validate_payment_request(&amount, 10, 100, 50, "s", "p", " ", id),
        Err(internal("payment_requirement_hash must not be empty"))
    );
}

#[test]
fn release_metadata_keeps_current_members_and_records_the_reason() {
    let current = JsonValue::Object(vec![
        ("merchant".to_string(), JsonValue::Str("m-1".into())),
        ("release_reason".to_string(), JsonValue::Str("old".into())),
    ]);
    let extra = JsonValue::Object(vec![("by".to_string(), JsonValue::Str("ops".into()))]);
    assert_eq!(
        reservation_release_metadata(current, "expired", extra),
        JsonValue::Object(vec![
            ("merchant".to_string(), JsonValue::Str("m-1".into())),
            ("release_reason".to_string(), JsonValue::Str("expired".into())),
            (
                "release_metadata".to_string(),
                JsonValue::Object(vec![("by".to_string(), JsonValue::Str("ops".into()))])
            ),
        ])
    );
    assert_eq!(
        reservation_release_metadata(JsonValue::Str("not an object".into()), "manual", JsonValue::Null),
        JsonValue::Object(vec![
            ("release_reason".to_string(), JsonValue::Str("manual".into())),
            ("release_metadata".to_string(), JsonValue::Null),
        ])
    );
}

fn held(status: AgenticPaymentReservationStatus) -> HeldReservation {
    HeldReservation {
        status,
        amount_minor: 20,
        expires_at: 900,
        metadata: JsonValue::Object(vec![("note".to_string(), JsonValue::Str("x".to_string()))]),
        commit_proof: None,
        committed_at: None,
        released_at: None,
    }
}

#[test]
fn reservations_commit_once_and_release_once() {
    let (committed, moved) =
        commit_reservation(held(AgenticPaymentReservationStatus::Reserved), &session(), JsonValue::Bool(true), 100)
            .unwrap();
    assert_eq!(committed.status, AgenticPaymentReservationStatus::Committed);
    assert_eq!(committed.committed_at, Some(100));
    assert_eq!(committed.commit_proof, Some(JsonValue::Bool(true)));
    let s2 = moved.unwrap();
    assert_eq!((s2.reserved_minor, s2.committed_minor, s2.released_minor), (10, 70, 5));
    let (again, none) = commit_reservation(committed, &s2, JsonValue::Null, 200).unwrap();
    assert!(none.is_none());
    assert_eq!(again.committed_at, Some(100));
    assert_eq!(
        release_reservation(again, &s2, "done", JsonValue::Null, 300).unwrap_err(),
        StorageError::Conflict
    );
    assert_eq!(
        commit_reservation(held(AgenticPaymentReservationStatus::Reserved), &session(), JsonValue::Null, 900)
            .unwrap_err(),
        StorageError::Conflict
    );

    assert_eq!(
        release_reservation(held(AgenticPaymentReservationStatus::Reserved), &session(), "  ", JsonValue::Null, 100)
            .unwrap_err(),
        internal("reason must not be empty")
    );
    let (released, moved) =
        release_reservation(held(AgenticPaymentReservationStatus::Reserved), &session(), " cancel ", JsonValue::Null, 100)
            .unwrap();
    assert_eq!(released.status, AgenticPaymentReservationStatus::Released);
    assert_eq!(released.released_at, Some(100));
    let s3 = moved.unwrap();
    assert_eq!((s3.reserved_minor, s3.committed_minor, s3.released_minor), (10, 50, 25));
    match &released.metadata {
        JsonValue::Object(m) => {
            assert!(m.contains(&("note".to_string(), JsonValue::Str("x".to_string()))));
            assert!(m.contains(&("release_reason".to_string(), JsonValue::Str("cancel".to_string()))));
        }
        _ => panic!("metadata is an object"),
    }
    assert_eq!(
        commit_reservation(released, &s3, JsonValue::Null, 150).unwrap_err(),
        StorageError::Conflict
    );
}
