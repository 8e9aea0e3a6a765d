//! OpenTelemetry span ingestion: which spans arrive late, the tenancy check
//! on a batch, and the counts an ingest reports.

use vstd::prelude::*;
use crate::error::{StorageError, is_internal, internal};
use crate::text::same_text;

verus! {

/// Spans are late when the run's capture already closed or its capture
/// deadline has passed. Instants are plain integers on one clock.
pub fn is_late_evidence(capture_status: &str, capture_deadline: Option<i64>, received_at: i64) -> (r:
    bool)
    ensures
        r == (capture_status@ == "complete"@ || capture_status@ == "incomplete"@
            || (capture_deadline matches Some(d) && received_at > d)),
{
    let closed = same_text(capture_status, "complete") || same_text(capture_status, "incomplete");
    let past = match capture_deadline {
        Some(d) => received_at > d,
        None => false,
    };
    closed || past
}

/// The tenancy of a normalized span.
#[derive(Debug, Clone, PartialEq, Eq)]
pub struct SpanTenancy {
    pub workspace_id: String,
    pub environment_id: String,
    pub run_id: String,
}

/// Every span of a batch belongs to the batch's workspace, environment and
/// run.
pub open spec fn spans_match(spans: Seq<SpanTenancy>, batch: SpanTenancy) -> bool {
    forall|i: int|
        0 <= i < spans.len() ==> (#[trigger] spans[i]).workspace_id@ == batch.workspace_id@
            && spans[i].environment_id@ == batch.environment_id@ && spans[i].run_id@
            == batch.run_id@
}

/// Checks that every span of a batch belongs to it.
pub fn check_span_tenancy(spans: &Vec<SpanTenancy>, batch: &SpanTenancy) -> (r: Result<(), StorageError>)
    ensures
        spans_match(spans@, *batch) ==> r is Ok,
        !spans_match(spans@, *batch) ==> (r matches Err(e) && is_internal(
            e,
            "normalized span tenant/run mismatch"@,
        )),
{
    let mut i: usize = 0;
    while i < spans.len()
        invariant
            i <= spans.len(),
            forall|k: int|
                0 <= k < i ==> (#[trigger] spans@[k]).workspace_id@ == batch.workspace_id@
                    && spans@[k].environment_id@ == batch.environment_id@ && spans@[k].run_id@
                    == batch.run_id@,
        decreases spans.len() - i,
    {
        let s = &spans[i];
        if s.workspace_id != batch.workspace_id || s.environment_id != batch.environment_id
            || s.run_id != batch.run_id {
            return Err(internal("normalized span tenant/run mismatch"));
        }
        i = i + 1;
    }
    Ok(())
}

/// What an ingest reports: spans accepted, and how many of them were late.
#[derive(Debug, Clone, Copy, PartialEq, Eq, Structural)]
pub struct OtelIngestResult {
    pub accepted_span_count: i32,
    pub late_span_count: i32,
}

/// The report of an ingest that stored `inserted` spans: the count capped
/// at `i32::MAX`, all of them late or none.
pub fn ingest_result(inserted: usize, late: bool) -> (r: OtelIngestResult)
    ensures
        r.accepted_span_count == (if inserted > i32::MAX { i32::MAX as int } else { inserted as int }),
        r.late_span_count == (if late { r.accepted_span_count as int } else { 0 }),
{
    let accepted: i32 = if inserted > 2147483647usize {
        2147483647i32
    } else {
        inserted as i32
    };
    OtelIngestResult { accepted_span_count: accepted, late_span_count: if late { accepted } else { 0 } }
}

} // verus!
