use tl_storage::analytics::point_limit;
use tl_storage::calendar::{
    parse_optional_time, parse_rfc3339, parse_time, start_of_day_millis, start_of_month_millis,
    MILLIS_PER_DAY,
};
use tl_storage::error::StorageError;
use tl_storage::ids::{canonical_uuid, new_id};

#[test]
fn day_starts_at_utc_midnight() {
    assert_eq!(start_of_day_millis(1_710_498_600_000), 1_710_460_800_000);
    assert_eq!(start_of_day_millis(1_710_460_800_000), 1_710_460_800_000);
    assert_eq!(start_of_day_millis(0), 0);
    assert_eq!(start_of_day_millis(-1), -MILLIS_PER_DAY);
    assert_eq!(start_of_day_millis(-MILLIS_PER_DAY), -MILLIS_PER_DAY);
    assert_eq!(start_of_day_millis(-3_600_000), -MILLIS_PER_DAY);
}

#[test]
fn month_starts_on_its_first_day() {
    assert_eq!(start_of_month_millis(1_710_498_600_000), 1_709_251_200_000);
    assert_eq!(start_of_month_millis(1_709_251_200_000), 1_709_251_200_000);
    assert_eq!(start_of_month_millis(-3_600_000), -2_678_400_000);
}

#[test]
fn query_points_are_limited_between_one_and_a_hundred() {
    assert_eq!(point_limit(None), 12);
    assert_eq!(point_limit(Some(0)), 1);
    assert_eq!(point_limit(Some(7)), 7);
    assert_eq!(point_limit(Some(100)), 100);
    assert_eq!(point_limit(Some(5000)), 100);
}

#[test]
fn request_timestamps_read_as_instants() {
    assert_eq!(parse_time("2024-03-15T10:30:00Z"), Ok(1_710_498_600_000));
    assert_eq!(parse_time("2024-03-15T12:30:00+02:00"), Ok(1_710_498_600_000));
    assert_eq!(parse_time("2024-03-15T10:30:00.250Z"), Ok(1_710_498_600_250));
    assert_eq!(parse_time("yesterday"), Err(StorageError::Conflict));
    assert_eq!(parse_optional_time(None), Ok(None));
    assert_eq!(parse_optional_time(Some("1970-01-01T00:00:01Z")), Ok(Some(1_000)));
    assert_eq!(parse_optional_time(Some("")), Err(StorageError::Conflict));
    assert_eq!(parse_rfc3339("occurred_at", "1970-01-01T00:00:00Z"), Ok(0));
    match parse_rfc3339("occurred_at", "2024-13-01T00:00:00Z") {
        Err(StorageError::Internal(m)) => assert!(m.starts_with("occurred_at: ") && m.len() > 13, "{m}"),
        other => panic!("unexpected {other:?}"),
    }
}

#[test]
fn fresh_ids_are_version_7_in_canonical_text() {
    let (a, text) = new_id();
    assert_eq!((a >> 76) & 0xf, 7);
    assert_eq!((a >> 62) & 0x3, 2);
    assert_eq!(text.len(), 36);
    assert_eq!(canonical_uuid(&text), Some(text.clone()));
    assert_eq!(
        canonical_uuid("A1A2A3A4-B1B2-C1C2-D1D2-D3D4D5D6D7D8"),
        Some("a1a2a3a4-b1b2-c1c2-d1d2-d3d4d5d6d7d8".to_string())
    );
    let (b, _) = new_id();
    assert_ne!(a, b);
}
