//! Notifications: event kind encodings, which rules fire for an event,
//! which deliveries a worker may claim, and the state a send attempt
//! leads to, with its retry backoff.

use vstd::prelude::*;
use crate::error::{StorageError, is_internal, internal};
use crate::text::same_text;

verus! {

/// What a notification rule can fire on.
#[derive(Debug, Clone, Copy, PartialEq, Eq, Structural)]
pub enum NotificationEventKind {
    EvaluationFailed,
    EvaluationInconclusive,
    EvaluationError,
    ProviderTerminalFailure,
    Test,
}

/// The stored text of an event kind.
pub open spec fn event_kind_spec(kind: NotificationEventKind) -> Seq<char> {
    match kind {
        NotificationEventKind::EvaluationFailed => "evaluation_failed"@,
        NotificationEventKind::EvaluationInconclusive => "evaluation_inconclusive"@,
        NotificationEventKind::EvaluationError => "evaluation_error"@,
        NotificationEventKind::ProviderTerminalFailure => "provider_terminal_failure"@,
        NotificationEventKind::Test => "test"@,
    }
}

/// The event kind stored as `s`, if any.
pub open spec fn event_kind_from_spec(s: Seq<char>) -> Option<NotificationEventKind> {
    if s == "evaluation_failed"@ {
        Some(NotificationEventKind::EvaluationFailed)
    } else if s == "evaluation_inconclusive"@ {
        Some(NotificationEventKind::EvaluationInconclusive)
    } else if s == "evaluation_error"@ {
        Some(NotificationEventKind::EvaluationError)
    } else if s == "provider_terminal_failure"@ {
        Some(NotificationEventKind::ProviderTerminalFailure)
    } else if s == "test"@ {
        Some(NotificationEventKind::Test)
    } else {
        None
    }
}

/// The stored text of an event kind.
pub fn event_kind_text(kind: NotificationEventKind) -> (r: &'static str)
    ensures
        r@ == event_kind_spec(kind),
{
    match kind {
        NotificationEventKind::EvaluationFailed => "evaluation_failed",
        NotificationEventKind::EvaluationInconclusive => "evaluation_inconclusive",
        NotificationEventKind::EvaluationError => "evaluation_error",
        NotificationEventKind::ProviderTerminalFailure => "provider_terminal_failure",
        NotificationEventKind::Test => "test",
    }
}

/// Parses a stored event kind.
pub fn parse_event_kind(value: &str) -> (r: Result<NotificationEventKind, StorageError>)
    ensures
        match event_kind_from_spec(value@) {
            Some(k) => r == Ok::<NotificationEventKind, StorageError>(k),
            None => r matches Err(e) && is_internal(e, "invalid notification event kind"@),
        },
{
    if same_text(value, "evaluation_failed") {
        Ok(NotificationEventKind::EvaluationFailed)
    } else if same_text(value, "evaluation_inconclusive") {
        Ok(NotificationEventKind::EvaluationInconclusive)
    } else if same_text(value, "evaluation_error") {
        Ok(NotificationEventKind::EvaluationError)
    } else if same_text(value, "provider_terminal_failure") {
        Ok(NotificationEventKind::ProviderTerminalFailure)
    } else if same_text(value, "test") {
        Ok(NotificationEventKind::Test)
    } else {
        Err(internal("invalid notification event kind"))
    }
}

/// Every event kind reads back from its stored text.
pub proof fn law_event_kind_roundtrip(kind: NotificationEventKind)
    ensures
        event_kind_from_spec(event_kind_spec(kind)) == Some(kind),
{
    reveal_strlit("evaluation_failed");
    reveal_strlit("evaluation_inconclusive");
    reveal_strlit("evaluation_error");
    reveal_strlit("provider_terminal_failure");
    reveal_strlit("test");
    assert("evaluation_failed"@[11] == 'f');
    assert("evaluation_inconclusive"@[11] == 'i');
    assert("evaluation_error"@[11] == 'e');
    assert("provider_terminal_failure"@[0] == 'p');
    assert("test"@[0] == 't');
    assert("evaluation_failed"@[0] == 'e');
}

/// Where a delivery stands: waiting for an attempt, being sent under a
/// worker's lease, sent, or failed for good.
#[derive(Debug, Clone, Copy, PartialEq, Eq, Structural)]
pub enum DeliveryStatus {
    Pending,
    Sending,
    Sent,
    Failed,
}

/// The stored text of a delivery status.
pub open spec fn delivery_status_spec(status: DeliveryStatus) -> Seq<char> {
    match status {
        DeliveryStatus::Pending => "pending"@,
        DeliveryStatus::Sending => "sending"@,
        DeliveryStatus::Sent => "sent"@,
        DeliveryStatus::Failed => "failed"@,
    }
}

/// The stored text of a delivery status.
pub fn delivery_status_text(status: DeliveryStatus) -> (r: &'static str)
    ensures
        r@ == delivery_status_spec(status),
{
    match status {
        DeliveryStatus::Pending => "pending",
        DeliveryStatus::Sending => "sending",
        DeliveryStatus::Sent => "sent",
        DeliveryStatus::Failed => "failed",
    }
}

/// The delivery status a stored text names.
pub open spec fn delivery_status_from_spec(s: Seq<char>) -> Option<DeliveryStatus> {
    if s == "pending"@ {
        Some(DeliveryStatus::Pending)
    } else if s == "sending"@ {
        Some(DeliveryStatus::Sending)
    } else if s == "sent"@ {
        Some(DeliveryStatus::Sent)
    } else if s == "failed"@ {
        Some(DeliveryStatus::Failed)
    } else {
        None
    }
}

/// Reads a stored delivery status.
pub fn parse_delivery_status(value: &str) -> (r: Result<DeliveryStatus, StorageError>)
    ensures
        match delivery_status_from_spec(value@) {
            Some(st) => r == Ok::<DeliveryStatus, StorageError>(st),
            None => r matches Err(e) && is_internal(e, "invalid notification delivery status"@),
        },
{
    if same_text(value, "pending") {
        Ok(DeliveryStatus::Pending)
    } else if same_text(value, "sending") {
        Ok(DeliveryStatus::Sending)
    } else if same_text(value, "sent") {
        Ok(DeliveryStatus::Sent)
    } else if same_text(value, "failed") {
        Ok(DeliveryStatus::Failed)
    } else {
        Err(internal("invalid notification delivery status"))
    }
}

/// Reading back a stored delivery status gives the status.
pub proof fn law_delivery_status_roundtrip(status: DeliveryStatus)
    ensures
        delivery_status_from_spec(delivery_status_spec(status)) == Some(status),
{
    reveal_strlit("pending");
    reveal_strlit("sending");
    reveal_strlit("sent");
    reveal_strlit("failed");
    assert("pending"@.len() == 7);
    assert("sending"@.len() == 7);
    assert("pending"@[0] != "sending"@[0]);
    assert("sent"@.len() == 4);
    assert("failed"@.len() == 6);
}

/// Attempts a delivery gets when its rule sets no limit.
pub const DEFAULT_MAX_DELIVERY_ATTEMPTS: i32 = 5;

/// The delivery's next state and the seconds until it may be tried again.
#[derive(Debug, Clone, Copy, PartialEq, Eq, Structural)]
pub struct DeliveryTransition {
    pub status: DeliveryStatus,
    pub delay_seconds: i64,
}

/// `attempts` kept between 0 and 8.
pub open spec fn backoff_exponent(attempts: i32) -> int {
    if attempts < 0 {
        0
    } else if attempts > 8 {
        8
    } else {
        attempts as int
    }
}

/// The outcome of an attempt: sent; or failed for good once the attempts
/// reach the limit; or pending again. The next try waits 2 to the power of
/// the attempts so far, from 1 second up to 256.
pub open spec fn delivery_transition_spec(sent: bool, attempt_count: i32, max_attempts: Option<i32>) -> DeliveryTransition {
    let limit = match max_attempts {
        Some(m) => m,
        None => DEFAULT_MAX_DELIVERY_ATTEMPTS,
    };
    DeliveryTransition {
        status: if sent {
            DeliveryStatus::Sent
        } else if attempt_count >= limit {
            DeliveryStatus::Failed
        } else {
            DeliveryStatus::Pending
        },
        delay_seconds: crate::evaluation::pow2(backoff_exponent(attempt_count) as nat) as i64,
    }
}

/// The state a delivery moves to after an attempt.
pub fn delivery_transition(sent: bool, attempt_count: i32, max_attempts: Option<i32>) -> (r:
    DeliveryTransition)
    ensures
        r == delivery_transition_spec(sent, attempt_count, max_attempts),
{
    let limit = match max_attempts {
        Some(m) => m,
        None => DEFAULT_MAX_DELIVERY_ATTEMPTS,
    };
    let status = if sent {
        DeliveryStatus::Sent
    } else if attempt_count >= limit {
        DeliveryStatus::Failed
    } else {
        DeliveryStatus::Pending
    };
    let e: i32 = if attempt_count < 0 {
        0
    } else if attempt_count > 8 {
        8
    } else {
        attempt_count
    };
    let mut delay: i64 = 1;
    let mut k: i32 = 0;
    while k < e
        invariant
            0 <= k <= e <= 8,
            delay == crate::evaluation::pow2(k as nat),
            delay <= 256,
        decreases e - k,
    {
        proof {
            reveal_with_fuel(crate::evaluation::pow2, 9);
            assert(k + 1 <= 8);
        }
        delay = delay * 2;
        k = k + 1;
    }
    DeliveryTransition { status, delay_seconds: delay }
}

/// A sent delivery stays sent whatever its attempt count, an unsent one
/// fails exactly when its attempts reach the limit, and the wait never
/// exceeds 256 seconds.
pub proof fn law_delivery_transition(sent: bool, attempt_count: i32, max_attempts: Option<i32>)
    ensures
        sent ==> delivery_transition_spec(sent, attempt_count, max_attempts).status
            == DeliveryStatus::Sent,
        !sent ==> (delivery_transition_spec(sent, attempt_count, max_attempts).status
            == DeliveryStatus::Failed <==> attempt_count >= match max_attempts {
            Some(m) => m,
            None => DEFAULT_MAX_DELIVERY_ATTEMPTS,
        }),
        1 <= delivery_transition_spec(sent, attempt_count, max_attempts).delay_seconds <= 256,
{
    reveal_with_fuel(crate::evaluation::pow2, 9);
}

/// What matching reads of a notification rule.
#[derive(Debug, Clone, PartialEq, Eq)]
pub struct NotificationRuleFacts {
    pub id: u128,
    pub enabled: bool,
    pub deleted: bool,
    pub event_kinds: Vec<String>,
    pub agent_id: Option<String>,
}

/// A rule fires for an event: it is enabled and not deleted; it is the
/// named rule, or, when no rule is named, it lists the event's kind; and it
/// is not tied to an agent, or is tied to the event's agent.
pub open spec fn rule_fires(
    rule: NotificationRuleFacts,
    rule_id: Option<u128>,
    kind: NotificationEventKind,
    agent_id: Option<Seq<char>>,
) -> bool {
    &&& rule.enabled
    &&& !rule.deleted
    &&& match rule_id {
        Some(id) => rule.id == id,
        None => exists|j: int|
            0 <= j < rule.event_kinds@.len() && (#[trigger] rule.event_kinds@[j])@ == event_kind_spec(
                kind,
            ),
    }
    &&& match agent_id {
        Some(a) => rule.agent_id matches Some(r) ==> r@ == a,
        None => rule.agent_id is None,
    }
}

fn lists_kind(kinds: &Vec<String>, text: &str) -> (r: bool)
    ensures
        r == exists|j: int| 0 <= j < kinds@.len() && (#[trigger] kinds@[j])@ == text@,
{
    let mut j: usize = 0;
    while j < kinds.len()
        invariant
            j <= kinds.len(),
            forall|k: int| 0 <= k < j ==> (#[trigger] kinds@[k])@ != text@,
        decreases kinds.len() - j,
    {
        if same_text(kinds[j].as_str(), text) {
            return true;
        }
        j = j + 1;
    }
    false
}

/// Whether a rule fires for an event of kind `kind` about agent `agent_id`,
/// or, when `rule_id` names a rule, whether it is that rule.
pub fn rule_matches(
    rule: &NotificationRuleFacts,
    rule_id: Option<u128>,
    kind: NotificationEventKind,
    agent_id: Option<&str>,
) -> (r: bool)
    ensures
        r == rule_fires(
            *rule,
            rule_id,
            kind,
            match agent_id {
                Some(a) => Some(a@),
                None => None,
            },
        ),
{
    if !rule.enabled || rule.deleted {
        return false;
    }
    let selected = match rule_id {
        Some(id) => rule.id == id,
        None => lists_kind(&rule.event_kinds, event_kind_text(kind)),
    };
    if !selected {
        return false;
    }
    match agent_id {
        Some(a) => match &rule.agent_id {
            Some(r) => same_text(r.as_str(), a),
            None => true,
        },
        None => rule.agent_id.is_none(),
    }
}

/// The ids of the rules that fire for an event, in order; each gets one
/// delivery.
pub open spec fn firing_ids(
    rules: Seq<NotificationRuleFacts>,
    rule_id: Option<u128>,
    kind: NotificationEventKind,
    agent_id: Option<Seq<char>>,
) -> Seq<u128>
    decreases rules.len(),
{
    if rules.len() == 0 {
        Seq::empty()
    } else {
        let rest = firing_ids(rules.drop_last(), rule_id, kind, agent_id);
        if rule_fires(rules.last(), rule_id, kind, agent_id) {
            rest.push(rules.last().id)
        } else {
            rest
        }
    }
}

/// The rules that fire for an event, in order.
pub fn matching_rule_ids(
    rules: &Vec<NotificationRuleFacts>,
    rule_id: Option<u128>,
    kind: NotificationEventKind,
    agent_id: Option<&str>,
) -> (r: Vec<u128>)
    ensures
        r@ == firing_ids(
            rules@,
            rule_id,
            kind,
            match agent_id {
                Some(a) => Some(a@),
                None => None,
            },
        ),
{
    let ghost a = match agent_id {
        Some(a) => Some(a@),
        None => None::<Seq<char>>,
    };
    let mut ids: Vec<u128> = Vec::new();
    let mut i: usize = 0;
    while i < rules.len()
        invariant
            i <= rules.len(),
            a == match agent_id {
                Some(a) => Some(a@),
                None => None::<Seq<char>>,
            },
            ids@ == firing_ids(rules@.take(i as int), rule_id, kind, a),
        decreases rules.len() - i,
    {
        proof {
            assert(rules@.take(i + 1).drop_last() =~= rules@.take(i as int));
            assert(rules@.take(i + 1).last() == rules@[i as int]);
        }
        if rule_matches(&rules[i], rule_id, kind, agent_id) {
            ids.push(rules[i].id);
        }
        i = i + 1;
    }
    proof {
        assert(rules@.take(rules.len() as int) =~= rules@);
    }
    ids
}

/// What the claim step reads of a delivery.
#[derive(Debug, Clone, Copy, PartialEq, Eq, Structural)]
pub struct DeliveryClaimState {
    pub status: DeliveryStatus,
    pub next_attempt_at: i64,
    pub lease_expires_at: Option<i64>,
}

/// A delivery a worker may claim: pending and due, or being sent under a
/// lease that has run out.
pub open spec fn spec_delivery_claimable(d: DeliveryClaimState, now: i64) -> bool {
    ||| d.status == DeliveryStatus::Pending && d.next_attempt_at <= now
    ||| d.status == DeliveryStatus::Sending && (d.lease_expires_at matches Some(t) && t <= now)
}

/// Whether a worker may claim a delivery.
pub fn delivery_claimable(d: &DeliveryClaimState, now: i64) -> (r: bool)
    ensures
        r == spec_delivery_claimable(*d, now),
{
    match d.status {
        DeliveryStatus::Pending => d.next_attempt_at <= now,
        DeliveryStatus::Sending => match d.lease_expires_at {
            Some(t) => t <= now,
            None => false,
        },
        _ => false,
    }
}

} // verus!
