//! Budget alert configurations: the fields a partial update changes. An
//! update leaves every field it does not set unchanged, so the optional
//! principal and webhook can be replaced but never cleared by one.

use vstd::prelude::*;

verus! {

/// The user-authored fields of a budget alert configuration.
#[derive(Debug, Clone, PartialEq, Eq)]
pub struct BudgetAlertConfigFields {
    pub name: String,
    pub window: String,
    pub principal_id: Option<String>,
    pub threshold_type: String,
    pub threshold_value: i64,
    pub webhook_url: Option<String>,
    pub enabled: bool,
}

/// A partial update: fields left `None` stay unchanged.
#[derive(Debug, Clone, Default, PartialEq, Eq)]
pub struct UpdateBudgetAlertConfigParams {
    pub name: Option<String>,
    pub window: Option<String>,
    pub principal_id: Option<String>,
    pub threshold_type: Option<String>,
    pub threshold_value: Option<i64>,
    pub webhook_url: Option<String>,
    pub enabled: Option<bool>,
}

/// The value a field takes: the update's, when it sets one.
pub open spec fn updated<T>(current: T, update: Option<T>) -> T {
    match update {
        Some(v) => v,
        None => current,
    }
}

/// The configuration after a partial update.
pub open spec fn config_after(
    c: BudgetAlertConfigFields,
    u: UpdateBudgetAlertConfigParams,
) -> BudgetAlertConfigFields {
    BudgetAlertConfigFields {
        name: updated(c.name, u.name),
        window: updated(c.window, u.window),
        principal_id: match u.principal_id {
            Some(p) => Some(p),
            None => c.principal_id,
        },
        threshold_type: updated(c.threshold_type, u.threshold_type),
        threshold_value: updated(c.threshold_value, u.threshold_value),
        webhook_url: match u.webhook_url {
            Some(w) => Some(w),
            None => c.webhook_url,
        },
        enabled: updated(c.enabled, u.enabled),
    }
}

/// Applies a partial update to a configuration.
pub fn apply_budget_alert_update(
    config: BudgetAlertConfigFields,
    update: UpdateBudgetAlertConfigParams,
) -> (r: BudgetAlertConfigFields)
    ensures
        r == config_after(config, update),
{
    BudgetAlertConfigFields {
        name: match update.name {
            Some(v) => v,
            None => config.name,
        },
        window: match update.window {
            Some(v) => v,
            None => config.window,
        },
        principal_id: match update.principal_id {
            Some(p) => Some(p),
            None => config.principal_id,
        },
        threshold_type: match update.threshold_type {
            Some(v) => v,
            None => config.threshold_type,
        },
        threshold_value: match update.threshold_value {
            Some(v) => v,
            None => config.threshold_value,
        },
        webhook_url: match update.webhook_url {
            Some(w) => Some(w),
            None => config.webhook_url,
        },
        enabled: match update.enabled {
            Some(v) => v,
            None => config.enabled,
        },
    }
}

/// An update that sets nothing changes nothing; applying an update twice
/// is applying it once; and an update never clears the principal or the
/// webhook of a configuration that has them.
pub proof fn law_budget_alert_update(c: BudgetAlertConfigFields, u: UpdateBudgetAlertConfigParams)
    ensures
        config_after(
            c,
            UpdateBudgetAlertConfigParams {
                name: None,
                window: None,
                principal_id: None,
                threshold_type: None,
                threshold_value: None,
                webhook_url: None,
                enabled: None,
            },
        ) == c,
        config_after(config_after(c, u), u) == config_after(c, u),
        c.principal_id is Some ==> config_after(c, u).principal_id is Some,
        c.webhook_url is Some ==> config_after(c, u).webhook_url is Some,
{
}

} // verus!
