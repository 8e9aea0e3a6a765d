//! Global feature flags: a flag that was never set reads as the caller's
//! default; setting a flag creates it with an empty configuration or
//! updates an existing one in place, keeping its configuration.

use vstd::prelude::*;
use crate::json::{JsonValue, is_empty_object};

verus! {

/// A stored feature flag; `updated_at` is in milliseconds.
#[derive(Debug, PartialEq)]
pub struct GlobalFeatureFlagRow {
    pub key: String,
    pub enabled: bool,
    pub config: JsonValue,
    pub updated_at: i64,
    pub updated_by: Option<String>,
}

/// Whether a flag is on: its stored setting, or `default` when it was never
/// set.
pub fn flag_enabled(row: Option<&GlobalFeatureFlagRow>, default: bool) -> (r: bool)
    ensures
        r == match row {
            Some(f) => f.enabled,
            None => default,
        },
{
    match row {
        Some(f) => f.enabled,
        None => default,
    }
}

/// The flag stored after setting `key` to `enabled`: a new flag has an
/// empty configuration; an existing one keeps its configuration.
pub fn flag_after_set(
    existing: Option<GlobalFeatureFlagRow>,
    key: &str,
    enabled: bool,
    updated_by: Option<&str>,
    now: i64,
) -> (r: GlobalFeatureFlagRow)
    ensures
        r.key@ == key@,
        r.enabled == enabled,
        r.updated_at == now,
        match updated_by {
            Some(u) => r.updated_by matches Some(v) && v@ == u@,
            None => r.updated_by is None,
        },
        match existing {
            Some(f) => r.config == f.config,
            None => is_empty_object(r.config),
        },
{
    let updated = match updated_by {
        Some(u) => Some(u.to_owned()),
        None => None,
    };
    let config = match existing {
        Some(f) => f.config,
        None => JsonValue::Object(Vec::new()),
    };
    GlobalFeatureFlagRow { key: key.to_owned(), enabled, config, updated_at: now, updated_by: updated }
}

} // verus!
