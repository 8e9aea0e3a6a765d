//! Escalations of decisions to a human, delivered by webhook. An
//! escalation starts `pending`; a delivery attempt is counted; it ends
//! `sent` once the webhook accepts it, or `failed` once retries are
//! exhausted, either way stamped with the time it closed. Pending
//! escalations older than a cutoff are redelivered after a restart.

use vstd::prelude::*;
use crate::error::{StorageError, is_internal, internal};
use crate::json::JsonValue;
use crate::text::same_text;

verus! {

/// An escalation as stored. Ids are UUIDs taken as 128-bit integers;
/// instants are milliseconds.
#[derive(Debug, PartialEq)]
pub struct EscalationRow {
    pub id: u128,
    pub trace_id: u128,
    pub webhook_url: String,
    pub status: String,
    pub attempts: i32,
    pub payload: JsonValue,
    pub created_at: i64,
    pub sent_at: Option<i64>,
}

/// A new escalation: pending, with no attempt made.
pub fn new_pending_escalation(
    id: u128,
    trace_id: u128,
    webhook_url: &str,
    payload: JsonValue,
    created_at: i64,
) -> (r: EscalationRow)
    ensures
        r.id == id,
        r.trace_id == trace_id,
        r.webhook_url@ == webhook_url@,
        r.status@ == "pending"@,
        r.attempts == 0,
        r.payload == payload,
        r.created_at == created_at,
        r.sent_at is None,
{
    EscalationRow {
        id,
        trace_id,
        webhook_url: webhook_url.to_owned(),
        status: "pending".to_owned(),
        attempts: 0,
        payload,
        created_at,
        sent_at: None,
    }
}

/// Counts a delivery attempt; the count is a 32-bit column, so one past
/// its largest value is refused.
pub fn record_escalation_attempt(row: &mut EscalationRow) -> (r: Result<(), StorageError>)
    ensures
        old(row).attempts < i32::MAX ==> r is Ok && final(row).attempts == old(row).attempts + 1,
        old(row).attempts == i32::MAX ==> (r matches Err(e) && is_internal(
            e,
            "record_attempt: integer out of range"@,
        )) && final(row).attempts == old(row).attempts,
        final(row).status == old(row).status,
        final(row).sent_at == old(row).sent_at,
        final(row).id == old(row).id,
        final(row).trace_id == old(row).trace_id,
        final(row).webhook_url == old(row).webhook_url,
        final(row).payload == old(row).payload,
        final(row).created_at == old(row).created_at,
{
    if row.attempts == i32::MAX {
        return Err(internal("record_attempt: integer out of range"));
    }
    row.attempts = row.attempts + 1;
    Ok(())
}

/// Closes an escalation as delivered at `now`.
pub fn mark_escalation_sent(row: &mut EscalationRow, now: i64)
    ensures
        final(row).status@ == "sent"@,
        final(row).sent_at == Some(now),
        final(row).attempts == old(row).attempts,
        final(row).id == old(row).id,
        final(row).trace_id == old(row).trace_id,
        final(row).webhook_url == old(row).webhook_url,
        final(row).payload == old(row).payload,
        final(row).created_at == old(row).created_at,
{
    row.status = "sent".to_owned();
    row.sent_at = Some(now);
}

/// Closes an escalation as failed at `now`, once its retries are spent.
pub fn mark_escalation_failed(row: &mut EscalationRow, now: i64)
    ensures
        final(row).status@ == "failed"@,
        final(row).sent_at == Some(now),
        final(row).attempts == old(row).attempts,
        final(row).id == old(row).id,
        final(row).trace_id == old(row).trace_id,
        final(row).webhook_url == old(row).webhook_url,
        final(row).payload == old(row).payload,
        final(row).created_at == old(row).created_at,
{
    row.status = "failed".to_owned();
    row.sent_at = Some(now);
}

/// A pending escalation created before the cutoff, to be redelivered.
pub open spec fn spec_stale_pending(row: EscalationRow, cutoff: i64) -> bool {
    row.status@ == "pending"@ && row.created_at < cutoff
}

/// Whether an escalation is pending and older than the cutoff.
pub fn is_stale_pending(row: &EscalationRow, cutoff: i64) -> (r: bool)
    ensures
        r == spec_stale_pending(*row, cutoff),
{
    same_text(row.status.as_str(), "pending") && row.created_at < cutoff
}

/// A closed escalation, sent or failed, is never redelivered.
pub proof fn law_closed_escalations_stay_closed(row: EscalationRow, cutoff: i64)
    requires
        row.status@ == "sent"@ || row.status@ == "failed"@,
    ensures
        !spec_stale_pending(row, cutoff),
{
    reveal_strlit("pending");
    reveal_strlit("sent");
    reveal_strlit("failed");
    assert("pending"@.len() != "sent"@.len());
    assert("pending"@.len() != "failed"@.len());
}

} // verus!
