use tl_storage::review::HumanReviewOutcome::{Accepted, Corrected, FalsePositive, Ignored, MissedIssue, Rejected};
use tl_storage::error::StorageError;
use tl_storage::json::JsonValue;
use tl_storage::review::{
    clean_reason_codes, count_outcome, is_human_intervention, non_empty_string, outcome_text,
    normalize_metadata, parse_outcome, parse_reason_codes, sort_named_rows, sort_policy_rows,
    sort_reason_rows, validate_create_event, validate_metadata, validate_reason_codes,
    HumanReviewGroupRow, HumanReviewOutcome, HumanReviewOutcomeCounts, HumanReviewPolicyRow,
    HumanReviewReasonRow, HumanReviewWorkflowStepRow,
};

#[test]
fn outcomes_round_trip() {
    for o in [Accepted, Corrected, Rejected, FalsePositive, MissedIssue, Ignored] {
        assert_eq!(parse_outcome(outcome_text(o)), Ok(o));
    }
    assert_eq!(
        parse_outcome("maybe"),
        Err(StorageError::Internal("unknown human review outcome: maybe".into()))
    );
    assert!(is_human_intervention(MissedIssue));
    assert!(!is_human_intervention(FalsePositive));
}

#[test]
fn outcome_counts_increment_one_field() {
    let mut c = HumanReviewOutcomeCounts::default();
    count_outcome(&mut c, HumanReviewOutcome::Rejected);
    count_outcome(&mut c, HumanReviewOutcome::Rejected);
    count_outcome(&mut c, HumanReviewOutcome::Ignored);
    assert_eq!(c.rejected_count, 2);
    assert_eq!(c.ignored_count, 1);
    assert_eq!(c.accepted_count, 0);
}

#[test]
fn reason_codes_are_trimmed_and_validated() {
    assert_eq!(
        clean_reason_codes(vec![" a ".into(), "   ".into(), "b".into()]),
        vec!["a".to_string(), "b".to_string()]
    );
    assert_eq!(validate_reason_codes(&vec!["x".into()]), Ok(()));
    assert_eq!(
        validate_reason_codes(&vec!["x".into(), " ".into()]),
        Err(StorageError::Internal("reason_codes must not contain empty values".into()))
    );
    assert_eq!(non_empty_string(""), None);
    assert_eq!(non_empty_string(" "), Some(" ".to_string()));
}

#[test]
fn named_rows_sort_by_name() {
    let g = |n: &str| HumanReviewGroupRow { group: n.into(), human_review_count: 1, human_intervention_count: 0 };
    let sorted = sort_named_rows(vec![g("zeta"), g("alpha"), g("Beta"), g("alp")]);
    let names: Vec<_> = sorted.iter().map(|r| r.group.as_str()).collect();
    assert_eq!(names, vec!["Beta", "alp", "alpha", "zeta"]);
    let w = |n: &str| HumanReviewWorkflowStepRow {
        workflow_step: n.into(),
        human_review_count: 0,
        corrected_count: 0,
        rejected_count: 0,
        false_positive_count: 0,
    };
    let sorted = sort_named_rows(vec![w("plan"), w("act")]);
    assert_eq!(sorted[0].workflow_step, "act");
}

#[test]
fn reasons_and_policies_sort_by_count_then_name() {
    let r = |c: &str, n| HumanReviewReasonRow { reason_code: c.into(), count: n };
    let sorted = sort_reason_rows(vec![r("b", 2), r("a", 2), r("c", 5)]);
    let codes: Vec<_> = sorted.iter().map(|x| x.reason_code.as_str()).collect();
    assert_eq!(codes, vec!["c", "a", "b"]);
    let p = |id: &str, e, c, f| HumanReviewPolicyRow {
        policy_id: id.into(),
        escalation_count: e,
        corrected_count: c,
        false_positive_count: f,
    };
    let sorted = sort_policy_rows(vec![p("x", 1, 0, 0), p("y", 0, 2, 1), p("w", 1, 0, 0)]);
    let ids: Vec<_> = sorted.iter().map(|x| x.policy_id.as_str()).collect();
    assert_eq!(ids, vec!["y", "w", "x"]);
}

#[test]
fn review_metadata_must_be_an_object_or_absent() {
    let object = JsonValue::Object(vec![("k".to_string(), JsonValue::Bool(true))]);
    assert_eq!(validate_metadata(&JsonValue::Null), Ok(()));
    assert_eq!(validate_metadata(&object), Ok(()));
    let bad = StorageError::Internal("metadata must be a JSON object".into());
    assert_eq!(validate_metadata(&JsonValue::Str("x".into())), Err(bad.clone()));
    assert_eq!(validate_metadata(&JsonValue::Array(vec![])), Err(bad.clone()));
    assert_eq!(validate_create_event(&JsonValue::Bool(true), &vec![" ".into()]), Err(bad));
    assert_eq!(
        validate_create_event(&object, &vec!["ok".into(), " ".into()]),
        Err(StorageError::Internal("reason_codes must not contain empty values".into()))
    );
    assert_eq!(validate_create_event(&JsonValue::Null, &vec!["ok".into()]), Ok(()));
    assert_eq!(normalize_metadata(JsonValue::Null), JsonValue::Object(vec![]));
    assert_eq!(normalize_metadata(JsonValue::Str("m".into())), JsonValue::Str("m".into()));
}

#[test]
fn stored_reason_codes_are_a_list_of_strings() {
    let codes = JsonValue::Array(vec![JsonValue::Str("tone".into()), JsonValue::Str(" scope".into())]);
    assert_eq!(parse_reason_codes(codes), Ok(vec!["tone".to_string(), " scope".to_string()]));
    assert_eq!(parse_reason_codes(JsonValue::Array(vec![])), Ok(vec![]));
    assert_eq!(
        parse_reason_codes(JsonValue::Array(vec![JsonValue::Str("a".into()), JsonValue::Null])),
        Err(StorageError::Internal("reason_codes contains a non-string value".into()))
    );
    assert_eq!(
        parse_reason_codes(JsonValue::Str("a".into())),
        Err(StorageError::Internal("reason_codes must be a JSON array".into()))
    );
}

#[test]
fn rows_with_equal_names_keep_their_input_order() {
    let g = |n: &str, c: i64| HumanReviewGroupRow { group: n.into(), human_review_count: c, human_intervention_count: 0 };
    let sorted = sort_named_rows(vec![g("b", 1), g("a", 2), g("b", 3), g("a", 4), g("b", 5)]);
    let got: Vec<_> = sorted.iter().map(|r| (r.group.as_str(), r.human_review_count)).collect();
    assert_eq!(got, vec![("a", 2), ("a", 4), ("b", 1), ("b", 3), ("b", 5)]);
}
