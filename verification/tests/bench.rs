use tl_storage::bench::{clean_optional, is_terminal_status, parse_arm, parse_status, status_text, BenchArm, BenchRunStatus};
use tl_storage::error::StorageError;

#[test]
fn persisted_enum_parsers_reject_unknown_values() {
    assert!(parse_status("bogus").is_err());
    assert!(parse_arm("shadow").is_err());
}

#[test]
fn bench_statuses_round_trip() {
    for s in [
        BenchRunStatus::Queued,
        BenchRunStatus::Running,
        BenchRunStatus::Complete,
        BenchRunStatus::Error,
        BenchRunStatus::Cancelled,
    ] {
        assert_eq!(parse_status(status_text(s)), Ok(s));
    }
    assert_eq!(parse_arm("guarded"), Ok(BenchArm::Guarded));
    assert_eq!(
        parse_status("bogus"),
        Err(StorageError::Internal("unknown bench run status: bogus".into()))
    );
}

#[test]
fn bench_terminal_statuses_and_optional_text() {
    assert!(is_terminal_status("cancelled"));
    assert!(!is_terminal_status("running"));
    assert_eq!(clean_optional(Some("  seed ")), Some("seed".to_string()));
    assert_eq!(clean_optional(Some("   ")), None);
    assert_eq!(clean_optional(None), None);
}
