//! Financial actions: ledger entry kinds and their signed amounts, execution
//! status transitions, input cleaning, budget constraint evaluation and the
//! reserve / commit / release arithmetic of agentic payment sessions.

use vstd::prelude::*;
use crate::error::{StorageError, is_internal, internal, internal_with};
use crate::text::{trim, same_text, chars_of, trim_chars, string_of, to_uppercase, spec_to_uppercase};
use crate::ids::{parse_action_uuid, spec_uuid_parse, spec_uuid_error};
use crate::json::{JsonValue, field, json_text, member_value, set_member, lemma_member_set_lookup};

verus! {

// ---------------------------------------------------------------------------
// Ledger entry kinds
// ---------------------------------------------------------------------------

/// The kind of a financial ledger entry.
#[derive(Debug, Clone, Copy, PartialEq, Eq, Structural)]
pub enum FinancialLedgerEntryKind {
    Reserved,
    Released,
    Executed,
    Reversed,
}

/// The stored text of a ledger entry kind.
pub open spec fn ledger_kind_text(kind: FinancialLedgerEntryKind) -> Seq<char> {
    match kind {
        FinancialLedgerEntryKind::Reserved => "reserved"@,
        FinancialLedgerEntryKind::Released => "released"@,
        FinancialLedgerEntryKind::Executed => "executed"@,
        FinancialLedgerEntryKind::Reversed => "reversed"@,
    }
}

/// The ledger entry kind stored as `s`, if any.
pub open spec fn parse_ledger_kind(s: Seq<char>) -> Option<FinancialLedgerEntryKind> {
    if s == "reserved"@ {
        Some(FinancialLedgerEntryKind::Reserved)
    } else if s == "released"@ {
        Some(FinancialLedgerEntryKind::Released)
    } else if s == "executed"@ {
        Some(FinancialLedgerEntryKind::Executed)
    } else if s == "reversed"@ {
        Some(FinancialLedgerEntryKind::Reversed)
    } else {
        None
    }
}

/// The effect of an entry of `kind` for `amount` on net spend: reservations
/// and executions count up, releases and reversals count down.
pub open spec fn signed_ledger_amount(kind: FinancialLedgerEntryKind, amount: int) -> int {
    match kind {
        FinancialLedgerEntryKind::Reserved | FinancialLedgerEntryKind::Executed => amount,
        FinancialLedgerEntryKind::Released | FinancialLedgerEntryKind::Reversed => -amount,
    }
}

impl FinancialLedgerEntryKind {
    /// The stored text of this kind.
    pub fn as_str(self) -> (s: &'static str)
        ensures
            s@ == ledger_kind_text(self),
    {
        match self {
            FinancialLedgerEntryKind::Reserved => "reserved",
            FinancialLedgerEntryKind::Released => "released",
            FinancialLedgerEntryKind::Executed => "executed",
            FinancialLedgerEntryKind::Reversed => "reversed",
        }
    }

    /// The signed contribution of an entry of this kind to net spend.
    pub fn signed_amount(self, amount_minor: i64) -> (r: i64)
        requires
            amount_minor != i64::MIN,
        ensures
            r == signed_ledger_amount(self, amount_minor as int),
    {
        match self {
            FinancialLedgerEntryKind::Reserved | FinancialLedgerEntryKind::Executed => amount_minor,
            FinancialLedgerEntryKind::Released | FinancialLedgerEntryKind::Reversed => -amount_minor,
        }
    }
}

/// Parses a stored ledger entry kind; unknown text is an internal error
/// naming it.
pub fn ledger_kind_from_text(value: &str) -> (r: Result<FinancialLedgerEntryKind, StorageError>)
    ensures
        match parse_ledger_kind(value@) {
            Some(k) => r == Ok::<FinancialLedgerEntryKind, StorageError>(k),
            None => r matches Err(e) && is_internal(e, "unknown financial ledger kind: "@ + value@),
        },
{
    if same_text(value, "reserved") {
        Ok(FinancialLedgerEntryKind::Reserved)
    } else if same_text(value, "released") {
        Ok(FinancialLedgerEntryKind::Released)
    } else if same_text(value, "executed") {
        Ok(FinancialLedgerEntryKind::Executed)
    } else if same_text(value, "reversed") {
        Ok(FinancialLedgerEntryKind::Reversed)
    } else {
        Err(internal_with("unknown financial ledger kind: ", value))
    }
}

/// Every ledger kind reads back from its stored text, and distinct kinds
/// have distinct texts.
pub proof fn law_ledger_kind_roundtrip(kind: FinancialLedgerEntryKind)
    ensures
        parse_ledger_kind(ledger_kind_text(kind)) == Some(kind),
{
    reveal_strlit("reserved");
    reveal_strlit("released");
    reveal_strlit("executed");
    reveal_strlit("reversed");
    assert("reserved"@[2] != "released"@[2]);
    assert("reserved"@[0] != "executed"@[0]);
    assert("reserved"@[2] != "reversed"@[2]);
    assert("released"@[0] != "executed"@[0]);
    assert("released"@[2] != "reversed"@[2]);
    assert("executed"@[0] != "reversed"@[0]);
}

// ---------------------------------------------------------------------------
// Execution status
// ---------------------------------------------------------------------------

/// Where a financial action's execution stands.
#[derive(Debug, Clone, Copy, PartialEq, Eq, Structural)]
pub enum FinancialExecutionStatus {
    NotStarted,
    Executing,
    Succeeded,
    Failed,
    Canceled,
    Reversed,
}

/// The stored text of an execution status.
pub open spec fn execution_status_text(s: FinancialExecutionStatus) -> Seq<char> {
    match s {
        FinancialExecutionStatus::NotStarted => "not_started"@,
        FinancialExecutionStatus::Executing => "executing"@,
        FinancialExecutionStatus::Succeeded => "succeeded"@,
        FinancialExecutionStatus::Failed => "failed"@,
        FinancialExecutionStatus::Canceled => "canceled"@,
        FinancialExecutionStatus::Reversed => "reversed"@,
    }
}

/// The execution status stored as `s`, if any.
pub open spec fn parse_execution_status(s: Seq<char>) -> Option<FinancialExecutionStatus> {
    if s == "not_started"@ {
        Some(FinancialExecutionStatus::NotStarted)
    } else if s == "executing"@ {
        Some(FinancialExecutionStatus::Executing)
    } else if s == "succeeded"@ {
        Some(FinancialExecutionStatus::Succeeded)
    } else if s == "failed"@ {
        Some(FinancialExecutionStatus::Failed)
    } else if s == "canceled"@ {
        Some(FinancialExecutionStatus::Canceled)
    } else if s == "reversed"@ {
        Some(FinancialExecutionStatus::Reversed)
    } else {
        None
    }
}

/// The stored text of an execution status.
pub fn execution_status_as_str(s: FinancialExecutionStatus) -> (r: &'static str)
    ensures
        r@ == execution_status_text(s),
{
    match s {
        FinancialExecutionStatus::NotStarted => "not_started",
        FinancialExecutionStatus::Executing => "executing",
        FinancialExecutionStatus::Succeeded => "succeeded",
        FinancialExecutionStatus::Failed => "failed",
        FinancialExecutionStatus::Canceled => "canceled",
        FinancialExecutionStatus::Reversed => "reversed",
    }
}

/// Parses a stored execution status; unknown text is an internal error.
pub fn execution_status_from_text(value: &str) -> (r: Result<FinancialExecutionStatus, StorageError>)
    ensures
        match parse_execution_status(value@) {
            Some(s) => r == Ok::<FinancialExecutionStatus, StorageError>(s),
            None => r matches Err(e) && is_internal(e, "unknown financial execution status: "@ + value@),
        },
{
    if same_text(value, "not_started") {
        Ok(FinancialExecutionStatus::NotStarted)
    } else if same_text(value, "executing") {
        Ok(FinancialExecutionStatus::Executing)
    } else if same_text(value, "succeeded") {
        Ok(FinancialExecutionStatus::Succeeded)
    } else if same_text(value, "failed") {
        Ok(FinancialExecutionStatus::Failed)
    } else if same_text(value, "canceled") {
        Ok(FinancialExecutionStatus::Canceled)
    } else if same_text(value, "reversed") {
        Ok(FinancialExecutionStatus::Reversed)
    } else {
        Err(internal_with("unknown financial execution status: ", value))
    }
}

/// Every execution status reads back from its stored text.
pub proof fn law_execution_status_roundtrip(s: FinancialExecutionStatus)
    ensures
        parse_execution_status(execution_status_text(s)) == Some(s),
{
    reveal_strlit("not_started");
    reveal_strlit("executing");
    reveal_strlit("succeeded");
    reveal_strlit("failed");
    reveal_strlit("canceled");
    reveal_strlit("reversed");
    assert("not_started"@[0] == 'n');
    assert("executing"@[0] == 'e');
    assert("succeeded"@[0] == 's');
    assert("failed"@[0] == 'f');
    assert("canceled"@[0] == 'c');
    assert("reversed"@[0] == 'r');
}

/// The execution lifecycle: an action starts executing or is canceled;
/// an execution succeeds, fails or is canceled; a failure may be retried
/// or canceled; a success may be reversed.
pub open spec fn execution_transition_allowed(
    from: FinancialExecutionStatus,
    to: FinancialExecutionStatus,
) -> bool {
    match (from, to) {
        (FinancialExecutionStatus::NotStarted, FinancialExecutionStatus::Executing) => true,
        (FinancialExecutionStatus::NotStarted, FinancialExecutionStatus::Canceled) => true,
        (FinancialExecutionStatus::Executing, FinancialExecutionStatus::Succeeded) => true,
        (FinancialExecutionStatus::Executing, FinancialExecutionStatus::Failed) => true,
        (FinancialExecutionStatus::Executing, FinancialExecutionStatus::Canceled) => true,
        (FinancialExecutionStatus::Failed, FinancialExecutionStatus::Executing) => true,
        (FinancialExecutionStatus::Failed, FinancialExecutionStatus::Canceled) => true,
        (FinancialExecutionStatus::Succeeded, FinancialExecutionStatus::Reversed) => true,
        _ => false,
    }
}

/// Whether the execution lifecycle allows moving from `from` to `to`.
pub fn is_valid_execution_transition(
    from: FinancialExecutionStatus,
    to: FinancialExecutionStatus,
) -> (r: bool)
    ensures
        r == execution_transition_allowed(from, to),
{
    match (from, to) {
        (FinancialExecutionStatus::NotStarted, FinancialExecutionStatus::Executing) => true,
        (FinancialExecutionStatus::NotStarted, FinancialExecutionStatus::Canceled) => true,
        (FinancialExecutionStatus::Executing, FinancialExecutionStatus::Succeeded) => true,
        (FinancialExecutionStatus::Executing, FinancialExecutionStatus::Failed) => true,
        (FinancialExecutionStatus::Executing, FinancialExecutionStatus::Canceled) => true,
        (FinancialExecutionStatus::Failed, FinancialExecutionStatus::Executing) => true,
        (FinancialExecutionStatus::Failed, FinancialExecutionStatus::Canceled) => true,
        (FinancialExecutionStatus::Succeeded, FinancialExecutionStatus::Reversed) => true,
        _ => false,
    }
}

/// Decides a requested execution status change: staying put or an allowed
/// transition goes ahead, anything else is a conflict.
pub fn check_execution_transition(
    current: FinancialExecutionStatus,
    next: FinancialExecutionStatus,
) -> (r: Result<(), StorageError>)
    ensures
        r is Ok <==> (current == next || execution_transition_allowed(current, next)),
        r is Err ==> r == Err::<(), StorageError>(StorageError::Conflict),
{
    if current != next && !is_valid_execution_transition(current, next) {
        Err(StorageError::Conflict)
    } else {
        Ok(())
    }
}

/// Canceled and reversed actions are final, nothing returns an action to
/// not-started, and only a success can be reversed.
pub proof fn law_execution_lifecycle(from: FinancialExecutionStatus, to: FinancialExecutionStatus)
    ensures
        !execution_transition_allowed(FinancialExecutionStatus::Canceled, to),
        !execution_transition_allowed(FinancialExecutionStatus::Reversed, to),
        !execution_transition_allowed(from, FinancialExecutionStatus::NotStarted),
        execution_transition_allowed(from, FinancialExecutionStatus::Reversed)
            ==> from == FinancialExecutionStatus::Succeeded,
        !execution_transition_allowed(from, from),
{
}

// ---------------------------------------------------------------------------
// Input cleaning
// ---------------------------------------------------------------------------

/// `value` trimmed, or an internal error naming the field when nothing is
/// left.
pub fn clean_required(name: &str, value: &str) -> (r: Result<String, StorageError>)
    ensures
        trim(value@).len() > 0 ==> (r matches Ok(s) && s@ == trim(value@)),
        trim(value@).len() == 0 ==> (r matches Err(e) && is_internal(e, name@ + " must not be empty"@)),
{
    let v = chars_of(value);
    let t = trim_chars(&v);
    if t.len() == 0 {
        Err(internal_with(name, " must not be empty"))
    } else {
        Ok(string_of(&t))
    }
}

/// `value` trimmed, or nothing when it is blank.
pub fn clean_optional(value: String) -> (r: Option<String>)
    ensures
        trim(value@).len() == 0 ==> r is None,
        trim(value@).len() > 0 ==> (r matches Some(s) && s@ == trim(value@)),
{
    let v = chars_of(value.as_str());
    let t = trim_chars(&v);
    if t.len() == 0 {
        None
    } else {
        Some(string_of(&t))
    }
}

/// A character allowed in an operation name.
pub open spec fn is_operation_char(c: char) -> bool {
    ('a' <= c && c <= 'z') || ('0' <= c && c <= '9') || c == '_' || c == '-'
}

/// A well-formed operation name: lower-case ASCII letters, digits, `_` and
/// `-`, at most 128 of them.
pub open spec fn valid_operation(t: Seq<char>) -> bool {
    &&& t.len() <= 128
    &&& forall|i: int| 0 <= i < t.len() ==> is_operation_char(#[trigger] t[i])
}

/// Checks an operation name after trimming.
pub fn clean_operation(operation: &str) -> (r: Result<(), StorageError>)
    ensures
        trim(operation@).len() == 0 ==> (r matches Err(e)
            && is_internal(e, "financial action operation must not be empty"@)),
        trim(operation@).len() > 0 && !valid_operation(trim(operation@)) ==> (r matches Err(e)
            && is_internal(e, "financial action operation must be lowercase ASCII, digits, '_' or '-'"@)),
        trim(operation@).len() > 0 && valid_operation(trim(operation@)) ==> r is Ok,
{
    let v = chars_of(operation);
    let t = trim_chars(&v);
    if t.len() == 0 {
        return Err(internal("financial action operation must not be empty"));
    }
    let mut i: usize = 0;
    while i < t.len()
        invariant
            i <= t.len(),
            t@ == trim(operation@),
            t.len() > 0,
            forall|j: int| 0 <= j < i ==> is_operation_char(#[trigger] t@[j]),
        decreases t.len() - i,
    {
        let c = t[i];
        if !(('a' <= c && c <= 'z') || ('0' <= c && c <= '9') || c == '_' || c == '-') {
            return Err(
                internal("financial action operation must be lowercase ASCII, digits, '_' or '-'"),
            );
        }
        i = i + 1;
    }
    if t.len() > 128 {
        return Err(
            internal("financial action operation must be lowercase ASCII, digits, '_' or '-'"),
        );
    }
    Ok(())
}

/// An amount of money in minor units of a currency.
#[derive(Debug, Clone, PartialEq, Eq)]
pub struct MoneyAmount {
    pub amount_minor: i64,
    pub currency: String,
}

/// What a request to create a financial action says, as far as creation
/// validates and normalizes it.
#[derive(Debug, Clone, PartialEq, Eq)]
pub struct FinancialActionInput {
    /// The action id the caller chose, if any.
    pub action_id: Option<String>,
    pub idempotency_key: String,
    pub principal_id: String,
    pub operation: String,
    pub amount: MoneyAmount,
    pub memo: Option<String>,
}

/// The message of the first check that `input` fails, if any.
pub open spec fn create_action_error(input: FinancialActionInput) -> Option<Seq<char>> {
    let op = trim(input.operation@);
    if trim(input.idempotency_key@).len() == 0 {
        Some("idempotency_key"@ + " must not be empty"@)
    } else if op.len() == 0 {
        Some("financial action operation must not be empty"@)
    } else if !valid_operation(op) {
        Some("financial action operation must be lowercase ASCII, digits, '_' or '-'"@)
    } else if trim(input.principal_id@).len() == 0 {
        Some("principal_id"@ + " must not be empty"@)
    } else if trim(input.amount.currency@).len() == 0 {
        Some("currency"@ + " must not be empty"@)
    } else if input.amount.amount_minor <= 0 {
        Some("financial action amount must be positive"@)
    } else {
        None
    }
}

/// Validates a request to create a financial action.
pub fn validate_create_action(input: &FinancialActionInput) -> (r: Result<(), StorageError>)
    ensures
        match create_action_error(*input) {
            None => r is Ok,
            Some(msg) => r matches Err(e) && is_internal(e, msg),
        },
{
    match clean_required("idempotency_key", input.idempotency_key.as_str()) {
        Err(e) => return Err(e),
        Ok(_) => {},
    }
    match clean_operation(input.operation.as_str()) {
        Err(e) => return Err(e),
        Ok(_) => {},
    }
    match clean_required("principal_id", input.principal_id.as_str()) {
        Err(e) => return Err(e),
        Ok(_) => {},
    }
    match clean_required("currency", input.amount.currency.as_str()) {
        Err(e) => return Err(e),
        Ok(_) => {},
    }
    if input.amount.amount_minor <= 0 {
        return Err(internal("financial action amount must be positive"));
    }
    Ok(())
}

/// The normalized fields of a financial action about to be stored.
#[derive(Debug, Clone, PartialEq, Eq)]
pub struct PreparedFinancialAction {
    pub environment_id: String,
    /// The caller's action id, parsed; without one a new id is minted.
    pub action_id: Option<u128>,
    pub idempotency_key: String,
    pub principal_id: String,
    pub operation: String,
    pub amount_minor: i64,
    pub currency: String,
    pub memo: Option<String>,
}

/// Validates a creation request and normalizes what will be stored: the
/// text fields trimmed, a given action id parsed, the currency trimmed and
/// upper-cased, a blank memo dropped.
pub fn prepare_financial_action(environment_id: &str, input: &FinancialActionInput) -> (r: Result<
    PreparedFinancialAction,
    StorageError,
>)
    ensures
        create_action_error(*input) matches Some(msg) ==> (r matches Err(e) && is_internal(e, msg)),
        create_action_error(*input) is None && trim(environment_id@).len() == 0 ==> (r matches Err(e)
            && is_internal(e, "environment_id"@ + " must not be empty"@)),
        create_action_error(*input) is None && trim(environment_id@).len() > 0 && (
        input.action_id matches Some(id) && spec_uuid_parse(id@) is None) ==> (r matches Err(e)
            && is_internal(
            e,
            "invalid financial action uuid: "@ + spec_uuid_error(input.action_id->0@),
        )),
        r matches Ok(p) ==> {
            &&& create_action_error(*input) is None
            &&& p.environment_id@ == trim(environment_id@)
            &&& match input.action_id {
                None => p.action_id is None,
                Some(id) => spec_uuid_parse(id@) is Some && p.action_id == spec_uuid_parse(id@),
            }
            &&& p.idempotency_key@ == trim(input.idempotency_key@)
            &&& p.principal_id@ == trim(input.principal_id@)
            &&& p.operation@ == trim(input.operation@)
            &&& p.amount_minor == input.amount.amount_minor
            &&& p.currency@ == spec_to_uppercase(trim(input.amount.currency@))
            &&& match input.memo {
                None => p.memo is None,
                Some(m) => if trim(m@).len() == 0 {
                    p.memo is None
                } else {
                    p.memo matches Some(pm) && pm@ == trim(m@)
                },
            }
        },
        create_action_error(*input) is None && trim(environment_id@).len() > 0 && !(
        input.action_id matches Some(id) && spec_uuid_parse(id@) is None) ==> r is Ok,
{
    match validate_create_action(input) {
        Err(e) => return Err(e),
        Ok(_) => {},
    }
    let environment_id = match clean_required("environment_id", environment_id) {
        Err(e) => return Err(e),
        Ok(v) => v,
    };
    let action_id = match &input.action_id {
        None => None,
        Some(id) => match parse_action_uuid(id.as_str()) {
            Err(e) => return Err(e),
            Ok(v) => Some(v),
        },
    };
    let idempotency_key = string_of(&trim_chars(&chars_of(input.idempotency_key.as_str())));
    let principal_id = string_of(&trim_chars(&chars_of(input.principal_id.as_str())));
    let operation = string_of(&trim_chars(&chars_of(input.operation.as_str())));
    let currency_trimmed = string_of(&trim_chars(&chars_of(input.amount.currency.as_str())));
    let currency = to_uppercase(currency_trimmed.as_str());
    let memo = match &input.memo {
        None => None,
        Some(m) => clean_optional(m.clone()),
    };
    Ok(
        PreparedFinancialAction {
            environment_id,
            action_id,
            idempotency_key,
            principal_id,
            operation,
            amount_minor: input.amount.amount_minor,
            currency,
            memo,
        },
    )
}

// ---------------------------------------------------------------------------
// Net spend
// ---------------------------------------------------------------------------

/// `x` clamped to the range of `i64`, as saturating arithmetic leaves it.
pub open spec fn saturate_i64(x: int) -> int {
    if x > i64::MAX {
        i64::MAX as int
    } else if x < i64::MIN {
        i64::MIN as int
    } else {
        x
    }
}

/// `a + b`, saturating at the bounds of `i64` (`i64::saturating_add`).
pub fn saturating_add_i64(a: i64, b: i64) -> (r: i64)
    ensures
        r == saturate_i64(a + b),
{
    match a.checked_add(b) {
        Some(v) => v,
        None => if b > 0 {
            i64::MAX
        } else {
            i64::MIN
        },
    }
}

/// A ledger row as the spend query reads it: the stored kind text and the
/// amount in minor units.
#[derive(Debug, Clone, PartialEq, Eq)]
pub struct LedgerAmountRow {
    pub entry_kind: String,
    pub amount_minor: i64,
}

/// Every row's kind text names a ledger kind.
pub open spec fn rows_parse(rows: Seq<LedgerAmountRow>) -> bool {
    forall|i: int| 0 <= i < rows.len() ==> (#[trigger] parse_ledger_kind(rows[i].entry_kind@)) is Some
}

/// Net spend of rows whose kinds all parse: the signed amounts added left
/// to right with saturation.
pub open spec fn net_spend(rows: Seq<LedgerAmountRow>) -> int
    decreases rows.len(),
{
    if rows.len() == 0 {
        0
    } else {
        let last = rows.last();
        saturate_i64(
            net_spend(rows.drop_last()) + signed_ledger_amount(
                parse_ledger_kind(last.entry_kind@).unwrap(),
                last.amount_minor as int,
            ),
        )
    }
}

/// Net spend counts reservations and executions up and releases and
/// reversals down: appending an entry stored as `reserved` or `executed`
/// adds its amount, one stored as `released` or `reversed` subtracts it
/// (saturating); so, away from the bounds, releasing what was reserved, or
/// reversing what was executed, leaves net spend where it was.
pub proof fn law_net_spend_signs(rows: Seq<LedgerAmountRow>, row: LedgerAmountRow, amount: i64)
    ensures
        (row.entry_kind@ == "reserved"@ || row.entry_kind@ == "executed"@) ==> net_spend(rows.push(row))
            == saturate_i64(net_spend(rows) + row.amount_minor),
        (row.entry_kind@ == "released"@ || row.entry_kind@ == "reversed"@) ==> net_spend(rows.push(row))
            == saturate_i64(net_spend(rows) - row.amount_minor),
        ({
            let up = LedgerAmountRow { entry_kind: row.entry_kind, amount_minor: amount };
            let down_text = if row.entry_kind@ == "reserved"@ {
                "released"@
            } else {
                "reversed"@
            };
            (row.entry_kind@ == "reserved"@ || row.entry_kind@ == "executed"@) && i64::MIN
                <= net_spend(rows) + amount <= i64::MAX ==> forall|down: LedgerAmountRow|
                down.entry_kind@ == down_text && down.amount_minor == amount ==> #[trigger] net_spend(
                    rows.push(up).push(down),
                ) == net_spend(rows)
        }),
{
    reveal_strlit("reserved");
    reveal_strlit("released");
    reveal_strlit("executed");
    reveal_strlit("reversed");
    assert("reserved"@[2] != "released"@[2] && "reserved"@[2] != "reversed"@[2]
        && "released"@[2] != "reversed"@[2]);
    assert("executed"@[0] != "reserved"@[0] && "executed"@[0] != "released"@[0]
        && "executed"@[0] != "reversed"@[0]);
    assert(rows.push(row).drop_last() =~= rows);
    let up = LedgerAmountRow { entry_kind: row.entry_kind, amount_minor: amount };
    assert(rows.push(up).drop_last() =~= rows);
    assert forall|down: LedgerAmountRow| #[trigger] net_spend(rows.push(up).push(down)) == saturate_i64(
        net_spend(rows.push(up)) + signed_ledger_amount(
            parse_ledger_kind(down.entry_kind@).unwrap(),
            down.amount_minor as int,
        ),
    ) by {
        assert(rows.push(up).push(down).drop_last() =~= rows.push(up));
    }
}

/// No row that counts down holds `i64::MIN`, whose negation overflows.
pub open spec fn negatable_rows(rows: Seq<LedgerAmountRow>) -> bool {
    forall|i: int|
        0 <= i < rows.len() ==> (#[trigger] rows[i]).amount_minor != i64::MIN
}

/// Net spend over ledger rows. The first row with an unknown kind makes it
/// an internal error naming that kind.
pub fn net_spend_minor(rows: &Vec<LedgerAmountRow>) -> (r: Result<i64, StorageError>)
    requires
        negatable_rows(rows@),
    ensures
        rows_parse(rows@) ==> r == Ok::<i64, StorageError>(net_spend(rows@) as i64),
        !rows_parse(rows@) ==> exists|k: int|
            #![trigger rows@[k]]
            0 <= k < rows.len() && rows_parse(rows@.take(k)) && parse_ledger_kind(
                rows@[k].entry_kind@,
            ) is None && (r matches Err(e) && is_internal(
                e,
                "unknown financial ledger kind: "@ + rows@[k].entry_kind@,
            )),
{
    let mut total: i64 = 0;
    let mut i: usize = 0;
    while i < rows.len()
        invariant
            i <= rows.len(),
            negatable_rows(rows@),
            rows_parse(rows@.take(i as int)),
            total == net_spend(rows@.take(i as int)),
        decreases rows.len() - i,
    {
        let row = &rows[i];
        let kind = match ledger_kind_from_text(row.entry_kind.as_str()) {
            Ok(k) => k,
            Err(e) => {
                assert(rows@[i as int] == *row);
                return Err(e);
            },
        };
        assert(rows@[i as int] == *row);
        let signed = kind.signed_amount(row.amount_minor);
        total = saturating_add_i64(total, signed);
        assert(rows@.take(i + 1).drop_last() =~= rows@.take(i as int));
        assert forall|j: int| 0 <= j < i + 1 implies (#[trigger] parse_ledger_kind(
            rows@.take(i + 1)[j].entry_kind@,
        )) is Some by {
            if j < i {
                assert(rows@.take(i + 1)[j] == rows@.take(i as int)[j]);
            }
        }
        i = i + 1;
    }
    assert(rows@.take(rows.len() as int) =~= rows@);
    Ok(total)
}

// ---------------------------------------------------------------------------
// Budget constraints
// ---------------------------------------------------------------------------

/// The window a budget constraint caps spend over.
#[derive(Debug, Clone, Copy, PartialEq, Eq, Structural)]
pub enum FinancialBudgetWindow {
    Day,
    Week,
    Month,
}

/// A cap on a principal's net spend over a window.
#[derive(Debug, Clone, PartialEq, Eq)]
pub struct FinancialBudgetConstraint {
    pub policy_id: String,
    pub window: FinancialBudgetWindow,
    pub cap_minor: i64,
    pub block_on_breach: bool,
}

/// A constraint that the requested amount would breach.
#[derive(Debug, Clone, PartialEq, Eq)]
pub struct FinancialBudgetViolation {
    pub policy_id: String,
    pub window: FinancialBudgetWindow,
    pub cap_minor: i64,
    pub committed_minor: i64,
    pub requested_minor: i64,
    pub block_on_breach: bool,
}

/// The outcome of an action budget reservation.
#[derive(Debug, Clone, PartialEq, Eq)]
pub enum ReserveFinancialActionBudgetResult {
    Reserved { ledger_entry_id: String, violations: Vec<FinancialBudgetViolation> },
    Denied { violations: Vec<FinancialBudgetViolation> },
}

/// Net spend already committed in each window.
#[derive(Debug, Clone, Copy, PartialEq, Eq, Structural)]
pub struct WindowSpend {
    pub day_minor: i64,
    pub week_minor: i64,
    pub month_minor: i64,
}

/// The committed spend of the window a constraint caps.
pub open spec fn committed_in(window: FinancialBudgetWindow, spend: WindowSpend) -> i64 {
    match window {
        FinancialBudgetWindow::Day => spend.day_minor,
        FinancialBudgetWindow::Week => spend.week_minor,
        FinancialBudgetWindow::Month => spend.month_minor,
    }
}

/// Whether adding `requested` to the committed spend (saturating) exceeds
/// the constraint's cap.
pub open spec fn breaches(c: FinancialBudgetConstraint, spend: WindowSpend, requested: i64) -> bool {
    saturate_i64(committed_in(c.window, spend) + requested) > c.cap_minor
}

/// The violation reported for a breached constraint.
pub open spec fn violation_of(
    c: FinancialBudgetConstraint,
    spend: WindowSpend,
    requested: i64,
) -> FinancialBudgetViolation {
    FinancialBudgetViolation {
        policy_id: c.policy_id,
        window: c.window,
        cap_minor: c.cap_minor,
        committed_minor: committed_in(c.window, spend),
        requested_minor: requested,
        block_on_breach: c.block_on_breach,
    }
}

/// The violations of the breached constraints, in constraint order.
pub open spec fn budget_violations(
    cs: Seq<FinancialBudgetConstraint>,
    spend: WindowSpend,
    requested: i64,
) -> Seq<FinancialBudgetViolation>
    decreases cs.len(),
{
    if cs.len() == 0 {
        Seq::empty()
    } else {
        let rest = budget_violations(cs.drop_last(), spend, requested);
        if breaches(cs.last(), spend, requested) {
            rest.push(violation_of(cs.last(), spend, requested))
        } else {
            rest
        }
    }
}

/// Some violation blocks the reservation.
pub open spec fn any_blocking(vs: Seq<FinancialBudgetViolation>) -> bool {
    exists|i: int| 0 <= i < vs.len() && (#[trigger] vs[i]).block_on_breach
}

/// Checks every constraint against the committed spend of its window and
/// reports the breached ones, in order.
pub fn collect_budget_violations(
    constraints: &Vec<FinancialBudgetConstraint>,
    spend: WindowSpend,
    requested_minor: i64,
) -> (v: Vec<FinancialBudgetViolation>)
    ensures
        v@ == budget_violations(constraints@, spend, requested_minor),
{
    let mut out: Vec<FinancialBudgetViolation> = Vec::new();
    let mut i: usize = 0;
    while i < constraints.len()
        invariant
            i <= constraints.len(),
            out@ == budget_violations(constraints@.take(i as int), spend, requested_minor),
        decreases constraints.len() - i,
    {
        let c = &constraints[i];
        let committed = match c.window {
            FinancialBudgetWindow::Day => spend.day_minor,
            FinancialBudgetWindow::Week => spend.week_minor,
            FinancialBudgetWindow::Month => spend.month_minor,
        };
        assert(constraints@.take(i + 1).drop_last() =~= constraints@.take(i as int));
        assert(constraints@.take(i + 1).last() == *c);
        if saturating_add_i64(committed, requested_minor) > c.cap_minor {
            out.push(
                FinancialBudgetViolation {
                    policy_id: c.policy_id.clone(),
                    window: c.window,
                    cap_minor: c.cap_minor,
                    committed_minor: committed,
                    requested_minor,
                    block_on_breach: c.block_on_breach,
                },
            );
        }
        i = i + 1;
    }
    assert(constraints@.take(constraints.len() as int) =~= constraints@);
    out
}

/// Whether any violation blocks the reservation.
pub fn has_blocking_violation(violations: &Vec<FinancialBudgetViolation>) -> (r: bool)
    ensures
        r == any_blocking(violations@),
{
    let mut i: usize = 0;
    while i < violations.len()
        invariant
            i <= violations.len(),
            forall|j: int| 0 <= j < i ==> !(#[trigger] violations@[j]).block_on_breach,
        decreases violations.len() - i,
    {
        if violations[i].block_on_breach {
            return true;
        }
        i = i + 1;
    }
    false
}

/// The budget verdict for a requested amount: the breached constraints,
/// and whether one of them blocks.
pub fn evaluate_action_budget(
    constraints: &Vec<FinancialBudgetConstraint>,
    spend: WindowSpend,
    requested_minor: i64,
) -> (r: (Vec<FinancialBudgetViolation>, bool))
    ensures
        r.0@ == budget_violations(constraints@, spend, requested_minor),
        r.1 == any_blocking(r.0@),
{
    let violations = collect_budget_violations(constraints, spend, requested_minor);
    let denied = has_blocking_violation(&violations);
    (violations, denied)
}

/// The spend a constraint of window `w` is checked against, read from the
/// window it names.
pub open spec fn spend_of_window(w: FinancialBudgetWindow, spend: WindowSpend) -> int {
    if w == FinancialBudgetWindow::Day {
        spend.day_minor as int
    } else if w == FinancialBudgetWindow::Week {
        spend.week_minor as int
    } else {
        spend.month_minor as int
    }
}

proof fn lemma_violations_sound(cs: Seq<FinancialBudgetConstraint>, spend: WindowSpend, requested: i64)
    ensures
        forall|i: int|
            0 <= i < budget_violations(cs, spend, requested).len() ==> {
                let v = #[trigger] budget_violations(cs, spend, requested)[i];
                &&& v.requested_minor == requested
                &&& v.committed_minor == spend_of_window(v.window, spend)
                &&& saturate_i64(v.committed_minor + requested) > v.cap_minor
                &&& exists|j: int|
                    0 <= j < cs.len() && (#[trigger] cs[j]).policy_id == v.policy_id
                        && cs[j].window == v.window && cs[j].cap_minor == v.cap_minor
                        && cs[j].block_on_breach == v.block_on_breach
            },
    decreases cs.len(),
{
    if cs.len() > 0 {
        let rest = cs.drop_last();
        lemma_violations_sound(rest, spend, requested);
        let vs = budget_violations(cs, spend, requested);
        let vr = budget_violations(rest, spend, requested);
        assert forall|i: int| 0 <= i < vs.len() implies {
            let v = #[trigger] vs[i];
            &&& v.requested_minor == requested
            &&& v.committed_minor == spend_of_window(v.window, spend)
            &&& saturate_i64(v.committed_minor + requested) > v.cap_minor
            &&& exists|j: int|
                0 <= j < cs.len() && (#[trigger] cs[j]).policy_id == v.policy_id && cs[j].window
                    == v.window && cs[j].cap_minor == v.cap_minor && cs[j].block_on_breach
                    == v.block_on_breach
        } by {
            if i < vr.len() {
                assert(vs[i] == vr[i]);
                let j = choose|j: int|
                    0 <= j < rest.len() && (#[trigger] rest[j]).policy_id == vr[i].policy_id
                        && rest[j].window == vr[i].window && rest[j].cap_minor == vr[i].cap_minor
                        && rest[j].block_on_breach == vr[i].block_on_breach;
                assert(cs[j] == rest[j]);
            } else {
                assert(cs[cs.len() - 1] == cs.last());
            }
        }
    }
}

proof fn lemma_breaches_reported(cs: Seq<FinancialBudgetConstraint>, spend: WindowSpend, requested: i64)
    ensures
        forall|j: int|
            0 <= j < cs.len() && saturate_i64(spend_of_window((#[trigger] cs[j]).window, spend)
                + requested) > cs[j].cap_minor ==> exists|i: int|
                0 <= i < budget_violations(cs, spend, requested).len() && #[trigger] budget_violations(
                    cs,
                    spend,
                    requested,
                )[i] == violation_of(cs[j], spend, requested),
    decreases cs.len(),
{
    if cs.len() > 0 {
        let rest = cs.drop_last();
        lemma_breaches_reported(rest, spend, requested);
        let vs = budget_violations(cs, spend, requested);
        let vr = budget_violations(rest, spend, requested);
        assert forall|j: int|
            0 <= j < cs.len() && saturate_i64(spend_of_window((#[trigger] cs[j]).window, spend)
                + requested) > cs[j].cap_minor implies exists|i: int|
                0 <= i < vs.len() && #[trigger] vs[i] == violation_of(cs[j], spend, requested) by {
            if j < rest.len() {
                assert(cs[j] == rest[j]);
                let i = choose|i: int|
                    0 <= i < vr.len() && #[trigger] vr[i] == violation_of(rest[j], spend, requested);
                assert(vs[i] == vr[i]);
            } else {
                assert(cs[j] == cs.last());
                assert(vs[vs.len() - 1] == violation_of(cs.last(), spend, requested));
            }
        }
    }
}

proof fn lemma_blocking_windows(cs: Seq<FinancialBudgetConstraint>, spend: WindowSpend, requested: i64)
    ensures
        any_blocking(budget_violations(cs, spend, requested)) <==> exists|j: int|
            0 <= j < cs.len() && (#[trigger] cs[j]).block_on_breach && saturate_i64(
                spend_of_window(cs[j].window, spend) + requested,
            ) > cs[j].cap_minor,
{
    law_budget_verdict(cs, spend, requested);
    assert forall|j: int| 0 <= j < cs.len() implies (breaches(#[trigger] cs[j], spend, requested)
        <==> saturate_i64(spend_of_window(cs[j].window, spend) + requested) > cs[j].cap_minor) by {
    }
}

/// Each constraint is checked against the spend of its own window: a daily
/// cap against the day's spend, a weekly cap against the week's, a monthly
/// cap against the month's. Every reported violation carries its window's
/// spend and comes from a constraint; every constraint whose window's spend
/// plus the request (saturating) exceeds its cap is reported; and the
/// reservation is denied exactly when such a breached constraint blocks.
pub proof fn law_budget_windows(cs: Seq<FinancialBudgetConstraint>, spend: WindowSpend, requested: i64)
    ensures
        forall|i: int|
            0 <= i < budget_violations(cs, spend, requested).len() ==> {
                let v = #[trigger] budget_violations(cs, spend, requested)[i];
                &&& v.requested_minor == requested
                &&& v.committed_minor == spend_of_window(v.window, spend)
                &&& saturate_i64(v.committed_minor + requested) > v.cap_minor
                &&& exists|j: int|
                    0 <= j < cs.len() && (#[trigger] cs[j]).policy_id == v.policy_id
                        && cs[j].window == v.window && cs[j].cap_minor == v.cap_minor
                        && cs[j].block_on_breach == v.block_on_breach
            },
        forall|j: int|
            0 <= j < cs.len() && saturate_i64(spend_of_window((#[trigger] cs[j]).window, spend)
                + requested) > cs[j].cap_minor ==> exists|i: int|
                0 <= i < budget_violations(cs, spend, requested).len() && #[trigger] budget_violations(
                    cs,
                    spend,
                    requested,
                )[i] == violation_of(cs[j], spend, requested),
        any_blocking(budget_violations(cs, spend, requested)) <==> exists|j: int|
            0 <= j < cs.len() && (#[trigger] cs[j]).block_on_breach && saturate_i64(
                spend_of_window(cs[j].window, spend) + requested,
            ) > cs[j].cap_minor,
{
    lemma_violations_sound(cs, spend, requested);
    lemma_breaches_reported(cs, spend, requested);
    lemma_blocking_windows(cs, spend, requested);
}

/// Each reported violation breaches its cap, and a reservation is denied
/// exactly when some blocking constraint is breached.
pub proof fn law_budget_verdict(
    cs: Seq<FinancialBudgetConstraint>,
    spend: WindowSpend,
    requested: i64,
)
    ensures
        forall|i: int|
            0 <= i < budget_violations(cs, spend, requested).len() ==> saturate_i64(
                (#[trigger] budget_violations(cs, spend, requested)[i]).committed_minor
                    + requested,
            ) > budget_violations(cs, spend, requested)[i].cap_minor,
        any_blocking(budget_violations(cs, spend, requested)) <==> exists|j: int|
            0 <= j < cs.len() && (#[trigger] cs[j]).block_on_breach && breaches(
                cs[j],
                spend,
                requested,
            ),
    decreases cs.len(),
{
    if cs.len() > 0 {
        let rest = cs.drop_last();
        law_budget_verdict(rest, spend, requested);
        let vs = budget_violations(cs, spend, requested);
        let rv = budget_violations(rest, spend, requested);
        if any_blocking(vs) {
            let i = choose|i: int| 0 <= i < vs.len() && (#[trigger] vs[i]).block_on_breach;
            if i < rv.len() {
                assert(vs[i] == rv[i]);
                assert(rv[i].block_on_breach);
                let j = choose|j: int|
                    0 <= j < rest.len() && (#[trigger] rest[j]).block_on_breach && breaches(
                        rest[j],
                        spend,
                        requested,
                    );
                assert(cs[j] == rest[j]);
            } else {
                assert(cs[cs.len() - 1] == cs.last());
            }
        }
        if exists|j: int|
            0 <= j < cs.len() && (#[trigger] cs[j]).block_on_breach && breaches(
                cs[j],
                spend,
                requested,
            ) {
            let j = choose|j: int|
                0 <= j < cs.len() && (#[trigger] cs[j]).block_on_breach && breaches(
                    cs[j],
                    spend,
                    requested,
                );
            if j < cs.len() - 1 {
                assert(rest[j] == cs[j]);
                let i = choose|i: int| 0 <= i < rv.len() && (#[trigger] rv[i]).block_on_breach;
                assert(vs[i] == rv[i]);
            } else {
                assert(vs[vs.len() - 1] == violation_of(cs.last(), spend, requested));
            }
        }
    }
}

// ---------------------------------------------------------------------------
// Idempotent replays
// ---------------------------------------------------------------------------

/// The facts of a ledger entry that a replay must agree with.
#[derive(Debug, Clone, PartialEq, Eq)]
pub struct LedgerEntryFacts {
    pub action_id: String,
    pub kind: FinancialLedgerEntryKind,
    pub amount_minor: i64,
    pub currency: String,
}

/// Two ledger entries agree on action, kind, amount and currency.
pub open spec fn same_ledger_facts(a: LedgerEntryFacts, b: LedgerEntryFacts) -> bool {
    &&& a.action_id@ == b.action_id@
    &&& a.kind == b.kind
    &&& a.amount_minor == b.amount_minor
    &&& a.currency@ == b.currency@
}

/// A write whose idempotency key already names an entry replays it when
/// the facts agree, and conflicts otherwise.
pub fn check_ledger_replay(existing: &LedgerEntryFacts, expected: &LedgerEntryFacts) -> (r: Result<
    (),
    StorageError,
>)
    ensures
        r is Ok <==> same_ledger_facts(*existing, *expected),
        r is Err ==> r == Err::<(), StorageError>(StorageError::Conflict),
{
    if existing.action_id != expected.action_id || existing.kind != expected.kind
        || existing.amount_minor != expected.amount_minor || existing.currency
        != expected.currency {
        Err(StorageError::Conflict)
    } else {
        Ok(())
    }
}

/// The normalized key fields of a ledger write.
#[derive(Debug, Clone, PartialEq, Eq)]
pub struct PreparedLedgerEntry {
    pub action_id: u128,
    pub currency: String,
    pub idempotency_key: String,
}

/// The checks of a ledger write, in order: a non-negative amount (or
/// positive, for a budget reservation), an action id that parses, a
/// currency and an idempotency key that are not blank.
pub open spec fn ledger_write_ok(amount_ok: bool, action_id: Seq<char>, currency: Seq<char>, key: Seq<char>) -> bool {
    amount_ok && spec_uuid_parse(action_id) is Some && trim(currency).len() > 0 && trim(key).len() > 0
}

fn prepare_ledger_fields(action_id: &str, currency: &str, idempotency_key: &str) -> (r: Result<
    PreparedLedgerEntry,
    StorageError,
>)
    ensures
        spec_uuid_parse(action_id@) is None ==> (r matches Err(e) && is_internal(
            e,
            "invalid financial action uuid: "@ + spec_uuid_error(action_id@),
        )),
        spec_uuid_parse(action_id@) is Some && trim(currency@).len() == 0 ==> (r matches Err(e)
            && is_internal(e, "currency"@ + " must not be empty"@)),
        spec_uuid_parse(action_id@) is Some && trim(currency@).len() > 0 && trim(idempotency_key@).len()
            == 0 ==> (r matches Err(e) && is_internal(e, "idempotency_key"@ + " must not be empty"@)),
        ledger_write_ok(true, action_id@, currency@, idempotency_key@) ==> (r matches Ok(p)
            && Some(p.action_id) == spec_uuid_parse(action_id@) && p.currency@ == spec_to_uppercase(
            trim(currency@),
        ) && p.idempotency_key@ == trim(idempotency_key@)),
{
    let id = match parse_action_uuid(action_id) {
        Err(e) => return Err(e),
        Ok(v) => v,
    };
    let c = match clean_required("currency", currency) {
        Err(e) => return Err(e),
        Ok(c) => c,
    };
    let currency = to_uppercase(c.as_str());
    let idempotency_key = match clean_required("idempotency_key", idempotency_key) {
        Err(e) => return Err(e),
        Ok(k) => k,
    };
    Ok(PreparedLedgerEntry { action_id: id, currency, idempotency_key })
}

/// Validates a ledger write: the amount must not be negative, the action
/// id must parse, the currency is trimmed and upper-cased, the idempotency
/// key trimmed.
pub fn prepare_ledger_entry(
    amount_minor: i64,
    action_id: &str,
    currency: &str,
    idempotency_key: &str,
) -> (r: Result<PreparedLedgerEntry, StorageError>)
    ensures
        amount_minor < 0 ==> (r matches Err(e) && is_internal(
            e,
            "financial ledger amount must be non-negative"@,
        )),
        amount_minor >= 0 && spec_uuid_parse(action_id@) is None ==> (r matches Err(e)
            && is_internal(e, "invalid financial action uuid: "@ + spec_uuid_error(action_id@))),
        amount_minor >= 0 && spec_uuid_parse(action_id@) is Some && trim(currency@).len() == 0 ==> (
        r matches Err(e) && is_internal(e, "currency"@ + " must not be empty"@)),
        amount_minor >= 0 && spec_uuid_parse(action_id@) is Some && trim(currency@).len() > 0 && trim(
            idempotency_key@,
        ).len() == 0 ==> (r matches Err(e) && is_internal(
            e,
            "idempotency_key"@ + " must not be empty"@,
        )),
        ledger_write_ok(amount_minor >= 0, action_id@, currency@, idempotency_key@) ==> (r matches Ok(p)
            && Some(p.action_id) == spec_uuid_parse(action_id@) && p.currency@ == spec_to_uppercase(
            trim(currency@),
        ) && p.idempotency_key@ == trim(idempotency_key@)),
{
    if amount_minor < 0 {
        return Err(internal("financial ledger amount must be non-negative"));
    }
    prepare_ledger_fields(action_id, currency, idempotency_key)
}

/// Validates an action budget reservation: the amount must be positive,
/// the action id must parse, the currency is trimmed and upper-cased, the
/// idempotency key trimmed.
pub fn prepare_budget_reservation(
    amount_minor: i64,
    action_id: &str,
    currency: &str,
    idempotency_key: &str,
) -> (r: Result<PreparedLedgerEntry, StorageError>)
    ensures
        amount_minor <= 0 ==> (r matches Err(e) && is_internal(
            e,
            "financial budget reservation amount must be positive"@,
        )),
        amount_minor > 0 && spec_uuid_parse(action_id@) is None ==> (r matches Err(e)
            && is_internal(e, "invalid financial action uuid: "@ + spec_uuid_error(action_id@))),
        amount_minor > 0 && spec_uuid_parse(action_id@) is Some && trim(currency@).len() == 0 ==> (
        r matches Err(e) && is_internal(e, "currency"@ + " must not be empty"@)),
        amount_minor > 0 && spec_uuid_parse(action_id@) is Some && trim(currency@).len() > 0 && trim(
            idempotency_key@,
        ).len() == 0 ==> (r matches Err(e) && is_internal(
            e,
            "idempotency_key"@ + " must not be empty"@,
        )),
        ledger_write_ok(amount_minor > 0, action_id@, currency@, idempotency_key@) ==> (r matches Ok(p)
            && Some(p.action_id) == spec_uuid_parse(action_id@) && p.currency@ == spec_to_uppercase(
            trim(currency@),
        ) && p.idempotency_key@ == trim(idempotency_key@)),
{
    if amount_minor <= 0 {
        return Err(internal("financial budget reservation amount must be positive"));
    }
    prepare_ledger_fields(action_id, currency, idempotency_key)
}

// ---------------------------------------------------------------------------
// Agentic payment sessions
// ---------------------------------------------------------------------------

/// Where an agentic payment reservation stands.
#[derive(Debug, Clone, Copy, PartialEq, Eq, Structural)]
pub enum AgenticPaymentReservationStatus {
    Reserved,
    Committed,
    Released,
    Expired,
}

/// The stored text of a reservation status.
pub open spec fn reservation_status_text(s: AgenticPaymentReservationStatus) -> Seq<char> {
    match s {
        AgenticPaymentReservationStatus::Reserved => "reserved"@,
        AgenticPaymentReservationStatus::Committed => "committed"@,
        AgenticPaymentReservationStatus::Released => "released"@,
        AgenticPaymentReservationStatus::Expired => "expired"@,
    }
}

/// The reservation status stored as `s`, if any.
pub open spec fn parse_reservation_status(s: Seq<char>) -> Option<AgenticPaymentReservationStatus> {
    if s == "reserved"@ {
        Some(AgenticPaymentReservationStatus::Reserved)
    } else if s == "committed"@ {
        Some(AgenticPaymentReservationStatus::Committed)
    } else if s == "released"@ {
        Some(AgenticPaymentReservationStatus::Released)
    } else if s == "expired"@ {
        Some(AgenticPaymentReservationStatus::Expired)
    } else {
        None
    }
}

/// The stored text of a reservation status.
pub fn reservation_status_as_str(s: AgenticPaymentReservationStatus) -> (r: &'static str)
    ensures
        r@ == reservation_status_text(s),
{
    match s {
        AgenticPaymentReservationStatus::Reserved => "reserved",
        AgenticPaymentReservationStatus::Committed => "committed",
        AgenticPaymentReservationStatus::Released => "released",
        AgenticPaymentReservationStatus::Expired => "expired",
    }
}

/// Parses a stored reservation status; unknown text is an internal error.
pub fn reservation_status_from_text(value: &str) -> (r: Result<
    AgenticPaymentReservationStatus,
    StorageError,
>)
    ensures
        match parse_reservation_status(value@) {
            Some(s) => r == Ok::<AgenticPaymentReservationStatus, StorageError>(s),
            None => r matches Err(e) && is_internal(e, "unknown agentic payment reservation status: "@ + value@),
        },
{
    if same_text(value, "reserved") {
        Ok(AgenticPaymentReservationStatus::Reserved)
    } else if same_text(value, "committed") {
        Ok(AgenticPaymentReservationStatus::Committed)
    } else if same_text(value, "released") {
        Ok(AgenticPaymentReservationStatus::Released)
    } else if same_text(value, "expired") {
        Ok(AgenticPaymentReservationStatus::Expired)
    } else {
        Err(internal_with("unknown agentic payment reservation status: ", value))
    }
}

/// Every reservation status reads back from its stored text.
pub proof fn law_reservation_status_roundtrip(s: AgenticPaymentReservationStatus)
    ensures
        parse_reservation_status(reservation_status_text(s)) == Some(s),
{
    reveal_strlit("reserved");
    reveal_strlit("committed");
    reveal_strlit("released");
    reveal_strlit("expired");
    assert("reserved"@[0] == 'r');
    assert("committed"@[0] == 'c');
    assert("released"@[2] == 'l');
    assert("reserved"@[2] == 's');
    assert("expired"@[0] == 'e');
}

/// The amounts and identity of a payment session, as the reservation
/// logic reads and writes them. Times are instants on one clock (for
/// example microseconds since the epoch).
#[derive(Debug, Clone, PartialEq, Eq)]
pub struct PaymentSession {
    pub active: bool,
    pub principal_id: String,
    pub currency: String,
    pub expires_at: i64,
    pub max_amount_minor: i64,
    pub reserved_minor: i64,
    pub committed_minor: i64,
    pub released_minor: i64,
}

/// A session whose amounts are non-negative and whose held amounts
/// (reserved plus committed) stay within its limit.
pub open spec fn session_wf(s: PaymentSession) -> bool {
    &&& s.reserved_minor >= 0
    &&& s.committed_minor >= 0
    &&& s.released_minor >= 0
    &&& s.reserved_minor + s.committed_minor <= s.max_amount_minor
}

/// `s` with new reserved, committed and released amounts.
pub open spec fn with_amounts(s: PaymentSession, reserved: int, committed: int, released: int) -> PaymentSession {
    PaymentSession {
        reserved_minor: reserved as i64,
        committed_minor: committed as i64,
        released_minor: released as i64,
        ..s
    }
}

fn session_with_amounts(s: &PaymentSession, reserved: i64, committed: i64, released: i64) -> (r: PaymentSession)
    ensures
        r == with_amounts(*s, reserved as int, committed as int, released as int),
{
    PaymentSession {
        active: s.active,
        principal_id: s.principal_id.clone(),
        currency: s.currency.clone(),
        expires_at: s.expires_at,
        max_amount_minor: s.max_amount_minor,
        reserved_minor: reserved,
        committed_minor: committed,
        released_minor: released,
    }
}

/// The cleaned fields of a reservation request.
#[derive(Debug, Clone, PartialEq, Eq)]
pub struct CleanPaymentRequest {
    pub session_id: String,
    pub principal_id: String,
    pub payment_requirement_hash: String,
    pub currency: String,
    pub action_id: u128,
}

/// The message of the first check a reservation request fails before
/// any identifier is cleaned, if any.
pub open spec fn payment_request_amount_error(
    amount_minor: i64,
    session_limit_minor: i64,
    expires_at: i64,
    now: i64,
) -> Option<Seq<char>> {
    if amount_minor <= 0 {
        Some("agentic payment amount must be positive"@)
    } else if session_limit_minor < amount_minor {
        Some("agentic payment session limit must cover the reservation amount"@)
    } else if expires_at <= now {
        Some("agentic payment reservation expires_at must be in the future"@)
    } else {
        None
    }
}

/// Validates a reservation request: a positive amount within the session
/// limit, an expiry in the future, non-blank session, principal,
/// requirement hash and currency (the currency upper-cased), and an action
/// id that parses.
pub fn validate_payment_request(
    amount: &MoneyAmount,
    session_limit_minor: i64,
    expires_at: i64,
    now: i64,
    session_id: &str,
    principal_id: &str,
    payment_requirement_hash: &str,
    action_id: &str,
) -> (r: Result<CleanPaymentRequest, StorageError>)
    ensures
        payment_request_amount_error(amount.amount_minor, session_limit_minor, expires_at, now) matches Some(msg)
            ==> (r matches Err(e) && is_internal(e, msg)),
        payment_request_amount_error(amount.amount_minor, session_limit_minor, expires_at, now) is None ==> {
            if trim(session_id@).len() == 0 {
                r matches Err(e) && is_internal(e, "session_id"@ + " must not be empty"@)
            } else if trim(principal_id@).len() == 0 {
                r matches Err(e) && is_internal(e, "principal_id"@ + " must not be empty"@)
            } else if trim(payment_requirement_hash@).len() == 0 {
                r matches Err(e) && is_internal(e, "payment_requirement_hash"@ + " must not be empty"@)
            } else if trim(amount.currency@).len() == 0 {
                r matches Err(e) && is_internal(e, "currency"@ + " must not be empty"@)
            } else if spec_uuid_parse(action_id@) is None {
                r matches Err(e) && is_internal(
                    e,
                    "invalid financial action uuid: "@ + spec_uuid_error(action_id@),
                )
            } else {
                r matches Ok(c) && c.session_id@ == trim(session_id@) && c.principal_id@ == trim(
                    principal_id@,
                ) && c.payment_requirement_hash@ == trim(payment_requirement_hash@)
                    && c.currency@ == spec_to_uppercase(trim(amount.currency@)) && Some(c.action_id)
                    == spec_uuid_parse(action_id@)
            }
        },
{
    if amount.amount_minor <= 0 {
        return Err(internal("agentic payment amount must be positive"));
    }
    if session_limit_minor < amount.amount_minor {
        return Err(internal("agentic payment session limit must cover the reservation amount"));
    }
    if expires_at <= now {
        return Err(internal("agentic payment reservation expires_at must be in the future"));
    }
    let session_id = match clean_required("session_id", session_id) {
        Err(e) => return Err(e),
        Ok(v) => v,
    };
    let principal_id = match clean_required("principal_id", principal_id) {
        Err(e) => return Err(e),
        Ok(v) => v,
    };
    let payment_requirement_hash = match clean_required(
        "payment_requirement_hash",
        payment_requirement_hash,
    ) {
        Err(e) => return Err(e),
        Ok(v) => v,
    };
    let currency = match clean_required("currency", amount.currency.as_str()) {
        Err(e) => return Err(e),
        Ok(v) => to_uppercase(v.as_str()),
    };
    let action_id = match parse_action_uuid(action_id) {
        Err(e) => return Err(e),
        Ok(v) => v,
    };
    Ok(CleanPaymentRequest { session_id, principal_id, payment_requirement_hash, currency, action_id })
}

/// Reserves `amount_minor` in a session: the session must be active,
/// unexpired and belong to the same principal and currency, and the held
/// amounts must stay within the limit. Overflow is an internal error.
pub fn reserve_in_session(
    session: &PaymentSession,
    principal_id: &str,
    currency: &str,
    amount_minor: i64,
    now: i64,
) -> (r: Result<PaymentSession, StorageError>)
    ensures
        !session.active || session.expires_at <= now || session.principal_id@ != principal_id@
            || session.currency@ != currency@ ==> r == Err::<PaymentSession, StorageError>(
            StorageError::Conflict,
        ),
        session.active && session.expires_at > now && session.principal_id@ == principal_id@
            && session.currency@ == currency@ ==> {
            let next = session.reserved_minor + amount_minor;
            if next > i64::MAX || next < i64::MIN {
                r matches Err(e) && is_internal(e, "agentic payment reserved amount overflow"@)
            } else if next + session.committed_minor > i64::MAX || next + session.committed_minor
                < i64::MIN {
                r matches Err(e) && is_internal(e, "agentic payment session amount overflow"@)
            } else if next + session.committed_minor > session.max_amount_minor {
                r == Err::<PaymentSession, StorageError>(StorageError::Conflict)
            } else {
                r == Ok::<PaymentSession, StorageError>(
                    with_amounts(*session, next, session.committed_minor as int, session.released_minor as int),
                )
            }
        },
{
    let p = principal_id.to_owned();
    let c = currency.to_owned();
    if !session.active || session.expires_at <= now || session.principal_id != p
        || session.currency != c {
        return Err(StorageError::Conflict);
    }
    let next_reserved = match session.reserved_minor.checked_add(amount_minor) {
        None => return Err(internal("agentic payment reserved amount overflow")),
        Some(v) => v,
    };
    let projected = match next_reserved.checked_add(session.committed_minor) {
        None => return Err(internal("agentic payment session amount overflow")),
        Some(v) => v,
    };
    if projected > session.max_amount_minor {
        return Err(StorageError::Conflict);
    }
    Ok(session_with_amounts(session, next_reserved, session.committed_minor, session.released_minor))
}

/// What settling a reservation leads to.
#[derive(Debug, Clone, PartialEq, Eq)]
pub enum SettleStep {
    /// The reservation was already settled this way; it is returned as is.
    AlreadySettled,
    /// The session's amounts after settling.
    Apply(PaymentSession),
}

/// Commits a reservation of `amount_minor` held in `session`: a committed
/// reservation is returned unchanged, a released or expired one conflicts,
/// as does one past its expiry or more than the session holds. The amount
/// moves from reserved to committed.
pub fn commit_in_session(
    status: AgenticPaymentReservationStatus,
    reservation_expires_at: i64,
    amount_minor: i64,
    session: &PaymentSession,
    now: i64,
) -> (r: Result<SettleStep, StorageError>)
    requires
        amount_minor >= 0,
    ensures
        status == AgenticPaymentReservationStatus::Committed ==> r == Ok::<SettleStep, StorageError>(
            SettleStep::AlreadySettled,
        ),
        status == AgenticPaymentReservationStatus::Released || status
            == AgenticPaymentReservationStatus::Expired ==> r == Err::<SettleStep, StorageError>(
            StorageError::Conflict,
        ),
        status == AgenticPaymentReservationStatus::Reserved ==> {
            if reservation_expires_at <= now || session.reserved_minor < amount_minor {
                r == Err::<SettleStep, StorageError>(StorageError::Conflict)
            } else if session.committed_minor + amount_minor > i64::MAX {
                r matches Err(e) && is_internal(e, "agentic payment committed amount overflow"@)
            } else {
                r == Ok::<SettleStep, StorageError>(
                    SettleStep::Apply(
                        with_amounts(
                            *session,
                            session.reserved_minor - amount_minor,
                            session.committed_minor + amount_minor,
                            session.released_minor as int,
                        ),
                    ),
                )
            }
        },
{
    match status {
        AgenticPaymentReservationStatus::Committed => return Ok(SettleStep::AlreadySettled),
        AgenticPaymentReservationStatus::Reserved => {},
        AgenticPaymentReservationStatus::Released | AgenticPaymentReservationStatus::Expired => {
            return Err(StorageError::Conflict)
        },
    }
    if reservation_expires_at <= now {
        return Err(StorageError::Conflict);
    }
    if session.reserved_minor < amount_minor {
        return Err(StorageError::Conflict);
    }
    let next_reserved = session.reserved_minor - amount_minor;
    let next_committed = match session.committed_minor.checked_add(amount_minor) {
        None => return Err(internal("agentic payment committed amount overflow")),
        Some(v) => v,
    };
    Ok(
        SettleStep::Apply(
            session_with_amounts(session, next_reserved, next_committed, session.released_minor),
        ),
    )
}

/// Releases a reservation of `amount_minor` held in `session`: a released
/// reservation is returned unchanged, a committed or expired one conflicts,
/// as does one for more than the session holds. The amount moves from
/// reserved to released.
pub fn release_in_session(
    status: AgenticPaymentReservationStatus,
    amount_minor: i64,
    session: &PaymentSession,
) -> (r: Result<SettleStep, StorageError>)
    requires
        amount_minor >= 0,
    ensures
        status == AgenticPaymentReservationStatus::Released ==> r == Ok::<SettleStep, StorageError>(
            SettleStep::AlreadySettled,
        ),
        status == AgenticPaymentReservationStatus::Committed || status
            == AgenticPaymentReservationStatus::Expired ==> r == Err::<SettleStep, StorageError>(
            StorageError::Conflict,
        ),
        status == AgenticPaymentReservationStatus::Reserved ==> {
            if session.reserved_minor < amount_minor {
                r == Err::<SettleStep, StorageError>(StorageError::Conflict)
            } else if session.released_minor + amount_minor > i64::MAX {
                r matches Err(e) && is_internal(e, "agentic payment released amount overflow"@)
            } else {
                r == Ok::<SettleStep, StorageError>(
                    SettleStep::Apply(
                        with_amounts(
                            *session,
                            session.reserved_minor - amount_minor,
                            session.committed_minor as int,
                            session.released_minor + amount_minor,
                        ),
                    ),
                )
            }
        },
{
    match status {
        AgenticPaymentReservationStatus::Released => return Ok(SettleStep::AlreadySettled),
        AgenticPaymentReservationStatus::Reserved => {},
        AgenticPaymentReservationStatus::Committed | AgenticPaymentReservationStatus::Expired => {
            return Err(StorageError::Conflict)
        },
    }
    if session.reserved_minor < amount_minor {
        return Err(StorageError::Conflict);
    }
    let next_reserved = session.reserved_minor - amount_minor;
    let next_released = match session.released_minor.checked_add(amount_minor) {
        None => return Err(internal("agentic payment released amount overflow")),
        Some(v) => v,
    };
    Ok(
        SettleStep::Apply(
            session_with_amounts(session, next_reserved, session.committed_minor, next_released),
        ),
    )
}

/// The metadata of a released reservation: its current metadata (an empty
/// object when that is not an object) with `release_reason` set to the
/// reason and `release_metadata` to what the release carried; every other
/// member stays as it was.
pub fn reservation_release_metadata(current: JsonValue, reason: &str, release_metadata: JsonValue) -> (r:
    JsonValue)
    ensures
        r is Object,
        json_text(field(r, "release_reason"@)) == Some(reason@),
        field(r, "release_metadata"@) == Some(release_metadata),
        forall|k: Seq<char>|
            k != "release_reason"@ && k != "release_metadata"@ ==> #[trigger] field(r, k) == field(
                current,
                k,
            ),
{
    let mut members = match current {
        JsonValue::Object(m) => m,
        _ => Vec::new(),
    };
    let ghost base = members@;
    proof {
        assert forall|k: Seq<char>| #[trigger] member_value(base, k) == field(current, k) by {
            if !(current is Object) {
                assert(base.len() == 0);
            }
        }
    }
    let ghost rm = release_metadata;
    let reason_value = JsonValue::Str(reason.to_owned());
    let ghost rv = reason_value;
    set_member(&mut members, "release_reason".to_owned(), reason_value);
    let ghost mid = members@;
    set_member(&mut members, "release_metadata".to_owned(), release_metadata);
    proof {
        reveal_strlit("release_reason");
        reveal_strlit("release_metadata");
        assert("release_reason"@.len() != "release_metadata"@.len());
        lemma_member_set_lookup(mid, "release_metadata"@, rm, members@, "release_reason"@);
        lemma_member_set_lookup(base, "release_reason"@, rv, mid, "release_reason"@);
        lemma_member_set_lookup(mid, "release_metadata"@, rm, members@, "release_metadata"@);
        assert forall|k: Seq<char>|
            k != "release_reason"@ && k != "release_metadata"@ implies #[trigger] member_value(
            members@,
            k,
        ) == field(current, k) by {
            lemma_member_set_lookup(mid, "release_metadata"@, rm, members@, k);
            lemma_member_set_lookup(base, "release_reason"@, rv, mid, k);
        }
    }
    JsonValue::Object(members)
}

/// Session accounting: a successful reservation keeps the held amounts
/// within the limit and grows only the reserved amount; a commit moves an
/// amount from reserved to committed and a release from reserved to
/// released, so neither changes the session's total; all three keep a
/// well-formed session well-formed.
pub proof fn law_session_accounting(
    session: PaymentSession,
    principal_id: &str,
    currency: &str,
    amount_minor: i64,
    now: i64,
)
    requires
        session_wf(session),
        amount_minor > 0,
    ensures
        ({
            let next = session.reserved_minor + amount_minor;
            session.active && session.expires_at > now && session.principal_id@ == principal_id@
                && session.currency@ == currency@ && next <= i64::MAX && next
                + session.committed_minor <= session.max_amount_minor ==> {
                let s2 = with_amounts(
                    session,
                    next,
                    session.committed_minor as int,
                    session.released_minor as int,
                );
                &&& session_wf(s2)
                &&& s2.reserved_minor == session.reserved_minor + amount_minor
                &&& s2.committed_minor == session.committed_minor
                &&& s2.released_minor == session.released_minor
            }
        }),
        session.reserved_minor >= amount_minor && session.committed_minor + amount_minor
            <= i64::MAX ==> {
            let s2 = with_amounts(
                session,
                session.reserved_minor - amount_minor,
                session.committed_minor + amount_minor,
                session.released_minor as int,
            );
            &&& session_wf(s2)
            &&& s2.reserved_minor + s2.committed_minor + s2.released_minor
                == session.reserved_minor + session.committed_minor + session.released_minor
            &&& s2.reserved_minor + s2.committed_minor == session.reserved_minor
                + session.committed_minor
        },
        session.reserved_minor >= amount_minor && session.released_minor + amount_minor
            <= i64::MAX ==> {
            let s2 = with_amounts(
                session,
                session.reserved_minor - amount_minor,
                session.committed_minor as int,
                session.released_minor + amount_minor,
            );
            &&& session_wf(s2)
            &&& s2.reserved_minor + s2.committed_minor + s2.released_minor
                == session.reserved_minor + session.committed_minor + session.released_minor
            &&& s2.committed_minor == session.committed_minor
        },
{
}

/// The terms an action or reservation is held to: who pays, how much, in
/// what currency, for which action.
#[derive(Debug, Clone, PartialEq, Eq)]
pub struct PaymentTerms {
    pub action_id: String,
    pub principal_id: String,
    pub amount_minor: i64,
    pub currency: String,
}

/// Two sets of terms agree.
pub open spec fn same_terms(a: PaymentTerms, b: PaymentTerms) -> bool {
    &&& a.action_id@ == b.action_id@
    &&& a.principal_id@ == b.principal_id@
    &&& a.amount_minor == b.amount_minor
    &&& a.currency@ == b.currency@
}

/// A stored action or reservation found under a request's keys must carry
/// the request's terms; otherwise the request conflicts with it.
pub fn check_terms(found: &PaymentTerms, requested: &PaymentTerms) -> (r: Result<(), StorageError>)
    ensures
        r is Ok <==> same_terms(*found, *requested),
        r is Err ==> r == Err::<(), StorageError>(StorageError::Conflict),
{
    if found.action_id != requested.action_id || found.principal_id != requested.principal_id
        || found.amount_minor != requested.amount_minor || found.currency != requested.currency {
        Err(StorageError::Conflict)
    } else {
        Ok(())
    }
}

/// The row that serializes budget reservations of one principal in one
/// currency.
#[derive(Debug, Clone, PartialEq, Eq)]
pub struct NewFinancialBudgetPrincipalLock {
    pub workspace_id: String,
    pub principal_id: String,
    pub currency: String,
}

/// The lock row of a principal and currency.
pub fn budget_principal_lock(workspace_id: &str, principal_id: &str, currency: &str) -> (r:
    NewFinancialBudgetPrincipalLock)
    ensures
        r.workspace_id@ == workspace_id@,
        r.principal_id@ == principal_id@,
        r.currency@ == currency@,
{
    NewFinancialBudgetPrincipalLock {
        workspace_id: workspace_id.to_owned(),
        principal_id: principal_id.to_owned(),
        currency: currency.to_owned(),
    }
}

// ---------------------------------------------------------------------------
// Committing and releasing an agentic payment reservation.
// ---------------------------------------------------------------------------

/// A payment reservation as committing and releasing read and change it.
#[derive(Debug, PartialEq)]
pub struct HeldReservation {
    pub status: AgenticPaymentReservationStatus,
    pub amount_minor: i64,
    pub expires_at: i64,
    pub metadata: JsonValue,
    pub commit_proof: Option<JsonValue>,
    pub committed_at: Option<i64>,
    pub released_at: Option<i64>,
}

/// What a commit at `now` yields, when it succeeds: a reserved, unexpired
/// reservation becomes committed with its proof and time, and its amount
/// moves from reserved to committed in the session; a committed one is
/// returned as it is, with the session untouched. `None` when it fails.
pub open spec fn commit_outcome(
    h: HeldReservation,
    s: PaymentSession,
    proof: JsonValue,
    now: i64,
) -> Option<(HeldReservation, Option<PaymentSession>)> {
    match h.status {
        AgenticPaymentReservationStatus::Committed => Some((h, None)),
        AgenticPaymentReservationStatus::Reserved => if h.expires_at <= now || s.reserved_minor
            < h.amount_minor || s.committed_minor + h.amount_minor > i64::MAX {
            None
        } else {
            Some(
                (
                    HeldReservation {
                        status: AgenticPaymentReservationStatus::Committed,
                        commit_proof: Some(proof),
                        committed_at: Some(now),
                        ..h
                    },
                    Some(
                        with_amounts(
                            s,
                            s.reserved_minor - h.amount_minor,
                            s.committed_minor + h.amount_minor,
                            s.released_minor as int,
                        ),
                    ),
                ),
            )
        },
        _ => None,
    }
}

/// Commits a reservation held in `session` at `now` (see
/// [`commit_outcome`]). A released or expired reservation, an expired
/// reserved one, or one for more than the session holds conflicts.
pub fn commit_reservation(
    h: HeldReservation,
    session: &PaymentSession,
    proof: JsonValue,
    now: i64,
) -> (r: Result<(HeldReservation, Option<PaymentSession>), StorageError>)
    requires
        h.amount_minor >= 0,
    ensures
        commit_outcome(h, *session, proof, now) matches Some(v) ==> r == Ok::<
            (HeldReservation, Option<PaymentSession>),
            StorageError,
        >(v),
        commit_outcome(h, *session, proof, now) is None ==> {
            if h.status == AgenticPaymentReservationStatus::Reserved && h.expires_at > now
                && session.reserved_minor >= h.amount_minor {
                r matches Err(e) && is_internal(e, "agentic payment committed amount overflow"@)
            } else {
                r == Err::<(HeldReservation, Option<PaymentSession>), StorageError>(
                    StorageError::Conflict,
                )
            }
        },
{
    match commit_in_session(h.status, h.expires_at, h.amount_minor, session, now) {
        Err(e) => Err(e),
        Ok(SettleStep::AlreadySettled) => Ok((h, None)),
        Ok(SettleStep::Apply(next)) => Ok(
            (
                HeldReservation {
                    status: AgenticPaymentReservationStatus::Committed,
                    amount_minor: h.amount_minor,
                    expires_at: h.expires_at,
                    metadata: h.metadata,
                    commit_proof: Some(proof),
                    committed_at: Some(now),
                    released_at: h.released_at,
                },
                Some(next),
            ),
        ),
    }
}

/// Whether releasing `h` from `s` moves its amount: it is reserved, the
/// session holds it, and the released total does not overflow.
pub open spec fn release_moves(h: HeldReservation, s: PaymentSession) -> bool {
    &&& h.status == AgenticPaymentReservationStatus::Reserved
    &&& s.reserved_minor >= h.amount_minor
    &&& s.released_minor + h.amount_minor <= i64::MAX
}

/// `h2` is `h` released at `now` for `reason`, with `release_metadata`
/// recorded in its metadata beside the members it already had.
pub open spec fn released_row(
    h: HeldReservation,
    h2: HeldReservation,
    reason: Seq<char>,
    release_metadata: JsonValue,
    now: i64,
) -> bool {
    &&& h2.status == AgenticPaymentReservationStatus::Released
    &&& h2.released_at == Some(now)
    &&& h2.amount_minor == h.amount_minor
    &&& h2.expires_at == h.expires_at
    &&& h2.commit_proof == h.commit_proof
    &&& h2.committed_at == h.committed_at
    &&& h2.metadata is Object
    &&& json_text(field(h2.metadata, "release_reason"@)) == Some(reason)
    &&& field(h2.metadata, "release_metadata"@) == Some(release_metadata)
    &&& forall|k: Seq<char>|
        k != "release_reason"@ && k != "release_metadata"@ ==> #[trigger] field(h2.metadata, k)
            == field(h.metadata, k)
}

/// Releases a reservation held in `session` at `now` for `reason`. A blank
/// reason is refused first; a released reservation is returned as it is; a
/// committed or expired one, or one for more than the session holds,
/// conflicts. Otherwise the amount moves from reserved to released and the
/// reservation records the trimmed reason and `release_metadata`.
pub fn release_reservation(
    h: HeldReservation,
    session: &PaymentSession,
    reason: &str,
    release_metadata: JsonValue,
    now: i64,
) -> (r: Result<(HeldReservation, Option<PaymentSession>), StorageError>)
    requires
        h.amount_minor >= 0,
    ensures
        trim(reason@).len() == 0 ==> (r matches Err(e) && is_internal(
            e,
            "reason"@ + " must not be empty"@,
        )),
        trim(reason@).len() > 0 ==> {
            if h.status == AgenticPaymentReservationStatus::Released {
                r == Ok::<(HeldReservation, Option<PaymentSession>), StorageError>((h, None))
            } else if release_moves(h, *session) {
                r matches Ok((h2, Some(s2))) && released_row(h, h2, trim(reason@), release_metadata, now)
                    && s2 == with_amounts(
                    *session,
                    session.reserved_minor - h.amount_minor,
                    session.committed_minor as int,
                    session.released_minor + h.amount_minor,
                )
            } else if h.status == AgenticPaymentReservationStatus::Reserved
                && session.reserved_minor >= h.amount_minor {
                r matches Err(e) && is_internal(e, "agentic payment released amount overflow"@)
            } else {
                r == Err::<(HeldReservation, Option<PaymentSession>), StorageError>(
                    StorageError::Conflict,
                )
            }
        },
{
    let clean_reason = match clean_required("reason", reason) {
        Err(e) => return Err(e),
        Ok(c) => c,
    };
    match release_in_session(h.status, h.amount_minor, session) {
        Err(e) => Err(e),
        Ok(SettleStep::AlreadySettled) => Ok((h, None)),
        Ok(SettleStep::Apply(next)) => {
            let metadata = reservation_release_metadata(
                h.metadata,
                clean_reason.as_str(),
                release_metadata,
            );
            Ok(
                (
                    HeldReservation {
                        status: AgenticPaymentReservationStatus::Released,
                        amount_minor: h.amount_minor,
                        expires_at: h.expires_at,
                        metadata,
                        commit_proof: h.commit_proof,
                        committed_at: h.committed_at,
                        released_at: Some(now),
                    },
                    Some(next),
                ),
            )
        },
    }
}

/// The lifecycle of a reservation: committing is idempotent and keeps the
/// session's held amount (reserved plus committed) and its bounds; a
/// committed reservation can no longer be released, and a released one can
/// no longer be committed; releasing keeps the session's total and bounds.
pub proof fn law_reservation_lifecycle(
    h: HeldReservation,
    s: PaymentSession,
    proof: JsonValue,
    now: i64,
    later: PaymentSession,
    later_proof: JsonValue,
    later_now: i64,
)
    requires
        session_wf(s),
        h.amount_minor >= 0,
    ensures
        commit_outcome(h, s, proof, now) matches Some((h2, _)) ==> commit_outcome(
            h2,
            later,
            later_proof,
            later_now,
        ) == Some((h2, None::<PaymentSession>)),
        commit_outcome(h, s, proof, now) matches Some((h2, _)) ==> !release_moves(h2, later)
            && h2.status != AgenticPaymentReservationStatus::Released,
        commit_outcome(h, s, proof, now) matches Some((_, Some(s2))) ==> {
            &&& session_wf(s2)
            &&& s2.reserved_minor + s2.committed_minor == s.reserved_minor + s.committed_minor
            &&& s2.released_minor == s.released_minor
        },
        release_moves(h, s) ==> {
            let s2 = with_amounts(
                s,
                s.reserved_minor - h.amount_minor,
                s.committed_minor as int,
                s.released_minor + h.amount_minor,
            );
            &&& session_wf(s2)
            &&& s2.reserved_minor + s2.committed_minor + s2.released_minor == s.reserved_minor
                + s.committed_minor + s.released_minor
        },
        h.status == AgenticPaymentReservationStatus::Released ==> commit_outcome(
            h,
            later,
            later_proof,
            later_now,
        ) is None,
{
}

} // verus!
