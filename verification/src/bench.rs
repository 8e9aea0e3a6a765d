//! Benchmark runs: the stored encodings of run states and arms, which
//! states are final, and optional text fields.

use vstd::prelude::*;
use crate::error::{StorageError, is_internal, internal_with};
use crate::text::{trim, same_text, chars_of, trim_chars, string_of};

verus! {

/// Where a benchmark run stands.
#[derive(Debug, Clone, Copy, PartialEq, Eq, Structural)]
pub enum BenchRunStatus {
    Queued,
    Running,
    Complete,
    Error,
    Cancelled,
}

/// Which side of a benchmark an arm runs.
#[derive(Debug, Clone, Copy, PartialEq, Eq, Structural)]
pub enum BenchArm {
    Raw,
    Guarded,
}

/// The label runs get for the built-in generator.
pub const INTERNAL_RUNNER_LABEL: &'static str = "runner_default";

/// The stored text of a run status.
pub open spec fn status_spec(s: BenchRunStatus) -> Seq<char> {
    match s {
        BenchRunStatus::Queued => "queued"@,
        BenchRunStatus::Running => "running"@,
        BenchRunStatus::Complete => "complete"@,
        BenchRunStatus::Error => "error"@,
        BenchRunStatus::Cancelled => "cancelled"@,
    }
}

/// The run status stored as `s`, if any.
pub open spec fn status_from_spec(s: Seq<char>) -> Option<BenchRunStatus> {
    if s == "queued"@ {
        Some(BenchRunStatus::Queued)
    } else if s == "running"@ {
        Some(BenchRunStatus::Running)
    } else if s == "complete"@ {
        Some(BenchRunStatus::Complete)
    } else if s == "error"@ {
        Some(BenchRunStatus::Error)
    } else if s == "cancelled"@ {
        Some(BenchRunStatus::Cancelled)
    } else {
        None
    }
}

/// The stored text of a run status.
pub fn status_text(status: BenchRunStatus) -> (r: &'static str)
    ensures
        r@ == status_spec(status),
{
    match status {
        BenchRunStatus::Queued => "queued",
        BenchRunStatus::Running => "running",
        BenchRunStatus::Complete => "complete",
        BenchRunStatus::Error => "error",
        BenchRunStatus::Cancelled => "cancelled",
    }
}

/// Parses a stored run status; unknown text is an internal error.
pub fn parse_status(text: &str) -> (r: Result<BenchRunStatus, StorageError>)
    ensures
        match status_from_spec(text@) {
            Some(s) => r == Ok::<BenchRunStatus, StorageError>(s),
            None => r matches Err(e) && is_internal(e, "unknown bench run status: "@ + text@),
        },
{
    if same_text(text, "queued") {
        Ok(BenchRunStatus::Queued)
    } else if same_text(text, "running") {
        Ok(BenchRunStatus::Running)
    } else if same_text(text, "complete") {
        Ok(BenchRunStatus::Complete)
    } else if same_text(text, "error") {
        Ok(BenchRunStatus::Error)
    } else if same_text(text, "cancelled") {
        Ok(BenchRunStatus::Cancelled)
    } else {
        Err(internal_with("unknown bench run status: ", text))
    }
}

/// The arm stored as `s`, if any.
pub open spec fn arm_from_spec(s: Seq<char>) -> Option<BenchArm> {
    if s == "raw"@ {
        Some(BenchArm::Raw)
    } else if s == "guarded"@ {
        Some(BenchArm::Guarded)
    } else {
        None
    }
}

/// The stored text of an arm.
pub fn arm_text(arm: BenchArm) -> (r: &'static str)
    ensures
        r@ == match arm {
            BenchArm::Raw => "raw"@,
            BenchArm::Guarded => "guarded"@,
        },
{
    match arm {
        BenchArm::Raw => "raw",
        BenchArm::Guarded => "guarded",
    }
}

/// Parses a stored arm; unknown text is an internal error.
pub fn parse_arm(text: &str) -> (r: Result<BenchArm, StorageError>)
    ensures
        match arm_from_spec(text@) {
            Some(a) => r == Ok::<BenchArm, StorageError>(a),
            None => r matches Err(e) && is_internal(e, "unknown bench run arm: "@ + text@),
        },
{
    if same_text(text, "raw") {
        Ok(BenchArm::Raw)
    } else if same_text(text, "guarded") {
        Ok(BenchArm::Guarded)
    } else {
        Err(internal_with("unknown bench run arm: ", text))
    }
}

/// Every run status and arm reads back from its stored text.
pub proof fn law_bench_roundtrip(s: BenchRunStatus, a: BenchArm)
    ensures
        status_from_spec(status_spec(s)) == Some(s),
        arm_from_spec(
            match a {
                BenchArm::Raw => "raw"@,
                BenchArm::Guarded => "guarded"@,
            },
        ) == Some(a),
{
    reveal_strlit("queued");
    reveal_strlit("running");
    reveal_strlit("complete");
    reveal_strlit("error");
    reveal_strlit("cancelled");
    reveal_strlit("raw");
    reveal_strlit("guarded");
    assert("queued"@[0] == 'q');
    assert("running"@[0] == 'r');
    assert("complete"@[0] == 'c');
    assert("cancelled"@[1] == 'a');
    assert("complete"@[1] == 'o');
    assert("error"@[0] == 'e');
    assert("raw"@[0] == 'r');
    assert("guarded"@[0] == 'g');
}

/// Complete, errored and cancelled runs are final.
pub fn is_terminal_status(status: &str) -> (r: bool)
    ensures
        r == (status@ == "complete"@ || status@ == "error"@ || status@ == "cancelled"@),
{
    same_text(status, "complete") || same_text(status, "error") || same_text(status, "cancelled")
}

/// An optional text field trimmed; absent or blank values give nothing.
pub fn clean_optional(value: Option<&str>) -> (r: Option<String>)
    ensures
        match value {
            None => r is None,
            Some(v) => if trim(v@).len() == 0 {
                r is None
            } else {
                r matches Some(s) && s@ == trim(v@)
            },
        },
{
    match value {
        None => None,
        Some(v) => {
            let t = trim_chars(&chars_of(v));
            if t.len() == 0 {
                None
            } else {
                Some(string_of(&t))
            }
        },
    }
}

} // verus!
