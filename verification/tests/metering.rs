use tl_storage::llm::{
    decide_llm_budget, llm_budget_reservation_row, nanos_to_minor, net_llm_spend_minor,
    LlmBudgetCapsNanos, LlmBudgetWindow, LlmWindowUsage, ReserveLlmBudgetResult,
};
use tl_storage::pay::{resolve_hold, sum_counted, PayDecisionRow};
use tl_storage::llm::{grouped_usage, LlmUsageBucketRow, LlmUsageFacts, LlmUsageGroupBy};

#[test]
fn nanos_truncate_to_minor_units() {
    assert_eq!(nanos_to_minor(25_000_000), 2);
    assert_eq!(nanos_to_minor(-25_000_000), -2);
    assert_eq!(nanos_to_minor(9_999_999), 0);
    assert_eq!(net_llm_spend_minor(&vec![3, 4, 5]), 12);
    assert_eq!(net_llm_spend_minor(&vec![1, i64::MAX, 7]), i64::MAX);
    assert_eq!(net_llm_spend_minor(&vec![]), 0);
    let half_minor = nanos_to_minor(5_000_000);
    assert_eq!(net_llm_spend_minor(&vec![half_minor, half_minor]), 0);
}

#[test]
fn llm_admission_reports_first_exceeded_window() {
    let usage = |s, a| LlmWindowUsage { spent_nanos: s, active_nanos: a };
    let caps = LlmBudgetCapsNanos { daily: None, weekly: Some(1_000), monthly: Some(500) };
    let r = decide_llm_budget(caps, usage(10, 10), usage(600, 200), usage(900, 0), 300);
    assert_eq!(
        r,
        ReserveLlmBudgetResult::Exceeded {
            window: LlmBudgetWindow::Week,
            cap_nanos: 1_000,
            committed_nanos: 800,
            requested_nanos: 300,
        }
    );
    let caps = LlmBudgetCapsNanos { daily: Some(1_000), weekly: None, monthly: None };
    assert_eq!(
        decide_llm_budget(caps, usage(500, 200), usage(0, 0), usage(0, 0), 300),
        ReserveLlmBudgetResult::Reserved
    );
    assert_eq!(
        decide_llm_budget(LlmBudgetCapsNanos::default(), usage(i64::MAX, 1), usage(0, 0), usage(0, 0), 1),
        ReserveLlmBudgetResult::Reserved
    );
}

#[test]
fn reservation_rows_are_active_and_uppercase() {
    let row = llm_budget_reservation_row("w", "req", "p", "k", "usd", 42);
    assert_eq!(row.status, "active");
    assert_eq!(row.currency, "USD");
    assert_eq!(row.actual_nanos, None);
}

#[test]
fn pay_caps_count_allowed_and_approved_holds() {
    let r = |s: &str, res, a| PayDecisionRow { status: s.into(), resolution: res, amount_minor: a };
    let rows = vec![
        r("allow", None, 100),
        r("hold", Some(true), 50),
        r("hold", Some(false), 1_000),
        r("hold", None, 1_000),
        r("block", None, 1_000),
    ];
    assert_eq!(sum_counted(&rows), 150);
    assert_eq!(sum_counted(&vec![r("allow", None, i64::MAX), r("allow", None, 1)]), i64::MAX);
}

#[test]
fn resolving_holds_decides_whether_they_count() {
    let row = |status: &str, resolution: Option<bool>, amount: i64| PayDecisionRow {
        status: status.into(),
        resolution,
        amount_minor: amount,
    };
    let mut hold = row("hold", None, 500);
    let mut block = row("block", None, 700);
    assert_eq!(sum_counted(&vec![row("allow", None, 100), hold.clone(), block.clone()]), 100);
    assert!(resolve_hold(&mut hold, true));
    assert_eq!(hold.resolution, Some(true));
    assert!(!resolve_hold(&mut block, true));
    assert_eq!(block.resolution, None);
    assert_eq!(sum_counted(&vec![row("allow", None, 100), hold.clone(), block.clone()]), 600);
    assert!(!resolve_hold(&mut hold, false));
    assert_eq!(hold.resolution, Some(true));
    assert_eq!(sum_counted(&vec![hold]), 500);
    let mut denied = row("hold", None, 300);
    assert!(resolve_hold(&mut denied, false));
    assert_eq!(sum_counted(&vec![denied]), 0);
}

#[test]
fn usage_buckets_sum_by_key_in_key_order() {
    let day = |d: &str| match d {
        "2024-05-01" => 1_714_521_600_000 + 3_600_000,
        _ => 1_714_608_000_000 + 86_399_999,
    };
    let e = |principal: &str, model: &str, d: &str, prompt: i64, completion: i64, nanos: i64| LlmUsageFacts {
        principal_id: principal.into(),
        model: model.into(),
        effective_at: day(d),
        prompt_tokens: prompt,
        completion_tokens: completion,
        cost_nanos: nanos,
    };
    let events = vec![
        e("p2", "gpt", "2024-05-02", 10, 5, 25_000_000),
        e("p1", "local", "2024-05-01", 7, 3, 0),
        e("p2", "gpt", "2024-05-01", 1, 1, 5_000_000),
        e("p1", "gpt", "2024-05-02", i64::MAX, 1, 1),
    ];
    let by_model = grouped_usage(&events, LlmUsageGroupBy::Model);
    assert_eq!(
        by_model,
        vec![
            LlmUsageBucketRow {
                key: "gpt".into(),
                prompt_tokens: i64::MAX,
                completion_tokens: 7,
                cost_minor: 3,
                cost_nanos: 30_000_001,
                calls: 3,
                unpriced: None,
            },
            LlmUsageBucketRow {
                key: "local".into(),
                prompt_tokens: 7,
                completion_tokens: 3,
                cost_minor: 0,
                cost_nanos: 0,
                calls: 1,
                unpriced: Some(true),
            },
        ]
    );
    let by_day = grouped_usage(&events, LlmUsageGroupBy::Day);
    let keys: Vec<&str> = by_day.iter().map(|r| r.key.as_str()).collect();
    assert_eq!(keys, vec!["2024-05-01", "2024-05-02"]);
    assert_eq!(by_day[0].calls, 2);
    assert_eq!(by_day[0].unpriced, None);
    let by_principal = grouped_usage(&events, LlmUsageGroupBy::Principal);
    let keys: Vec<&str> = by_principal.iter().map(|r| r.key.as_str()).collect();
    assert_eq!(keys, vec!["p1", "p2"]);
    assert_eq!(by_principal[1].cost_nanos, 30_000_000);
    assert_eq!(by_principal[1].cost_minor, 3);
    assert!(grouped_usage(&vec![], LlmUsageGroupBy::Day).is_empty());
}
