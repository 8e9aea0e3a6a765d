//! Run evaluation: profile and assignment validation, the stored encodings
//! of capture settings and job states, the capture barrier that decides
//! when a finished run is snapshotted, and the lease and retry rules of
//! evaluation jobs. Instants are milliseconds on one clock.

use vstd::prelude::*;
use crate::error::{StorageError, is_internal, internal, internal_with, internal_around};
use crate::json::JsonValue;
use crate::crypto::{hash_text, hex, spec_sha256};
use crate::text::{trim, same_text, chars_of, trim_chars, string_of, chars_eq};

verus! {

// ---------------------------------------------------------------------------
// Stored encodings
// ---------------------------------------------------------------------------

/// How durably a run's evidence is captured.
#[derive(Debug, Clone, Copy, PartialEq, Eq, Structural)]
pub enum CaptureMode {
    BestEffort,
    Durable,
}

/// How much content an evaluation snapshot keeps.
#[derive(Debug, Clone, Copy, PartialEq, Eq, Structural)]
pub enum ContentCaptureMode {
    MetadataOnly,
    Redacted,
    EncryptedArtifactRef,
}

/// What a policy does when required evidence is missing.
#[derive(Debug, Clone, Copy, PartialEq, Eq, Structural)]
pub enum MissingEvidenceBehavior {
    Inconclusive,
    Fail,
}

/// Where a run's evidence capture stands.
#[derive(Debug, Clone, Copy, PartialEq, Eq, Structural)]
pub enum RunCaptureStatus {
    Open,
    Waiting,
    Complete,
    Incomplete,
}

/// A participant's role in a run.
#[derive(Debug, Clone, Copy, PartialEq, Eq, Structural)]
pub enum RunParticipantRole {
    Primary,
    Participant,
}

/// Where an evaluation job stands.
#[derive(Debug, Clone, Copy, PartialEq, Eq, Structural)]
pub enum EvaluationJobStatus {
    WaitingCapture,
    Queued,
    Running,
    Completed,
    Failed,
    Inconclusive,
    Error,
}

pub open spec fn capture_mode_spec(v: CaptureMode) -> Seq<char> {
    match v {
        CaptureMode::BestEffort => "best_effort"@,
        CaptureMode::Durable => "durable"@,
    }
}

/// The stored text of a capture mode.
pub fn capture_mode_text(value: CaptureMode) -> (r: &'static str)
    ensures
        r@ == capture_mode_spec(value),
{
    match value {
        CaptureMode::BestEffort => "best_effort",
        CaptureMode::Durable => "durable",
    }
}

pub open spec fn parse_capture_mode_spec(s: Seq<char>) -> Option<CaptureMode> {
    if s == "best_effort"@ {
        Some(CaptureMode::BestEffort)
    } else if s == "durable"@ {
        Some(CaptureMode::Durable)
    } else {
        None
    }
}

/// Parses a stored capture mode.
pub fn parse_capture_mode(value: &str) -> (r: Result<CaptureMode, StorageError>)
    ensures
        match parse_capture_mode_spec(value@) {
            Some(v) => r == Ok::<CaptureMode, StorageError>(v),
            None => r matches Err(e) && is_internal(e, "unknown capture mode: "@ + value@),
        },
{
    if same_text(value, "best_effort") {
        Ok(CaptureMode::BestEffort)
    } else if same_text(value, "durable") {
        Ok(CaptureMode::Durable)
    } else {
        Err(internal_with("unknown capture mode: ", value))
    }
}

pub open spec fn content_mode_spec(v: ContentCaptureMode) -> Seq<char> {
    match v {
        ContentCaptureMode::MetadataOnly => "metadata_only"@,
        ContentCaptureMode::Redacted => "redacted"@,
        ContentCaptureMode::EncryptedArtifactRef => "encrypted_artifact_ref"@,
    }
}

/// The stored text of a content capture mode.
pub fn content_mode_text(value: ContentCaptureMode) -> (r: &'static str)
    ensures
        r@ == content_mode_spec(value),
{
    match value {
        ContentCaptureMode::MetadataOnly => "metadata_only",
        ContentCaptureMode::Redacted => "redacted",
        ContentCaptureMode::EncryptedArtifactRef => "encrypted_artifact_ref",
    }
}

pub open spec fn parse_content_mode_spec(s: Seq<char>) -> Option<ContentCaptureMode> {
    if s == "metadata_only"@ {
        Some(ContentCaptureMode::MetadataOnly)
    } else if s == "redacted"@ {
        Some(ContentCaptureMode::Redacted)
    } else if s == "encrypted_artifact_ref"@ {
        Some(ContentCaptureMode::EncryptedArtifactRef)
    } else {
        None
    }
}

/// Parses a stored content capture mode.
pub fn parse_content_mode(value: &str) -> (r: Result<ContentCaptureMode, StorageError>)
    ensures
        match parse_content_mode_spec(value@) {
            Some(v) => r == Ok::<ContentCaptureMode, StorageError>(v),
            None => r matches Err(e) && is_internal(e, "unknown content capture mode: "@ + value@),
        },
{
    if same_text(value, "metadata_only") {
        Ok(ContentCaptureMode::MetadataOnly)
    } else if same_text(value, "redacted") {
        Ok(ContentCaptureMode::Redacted)
    } else if same_text(value, "encrypted_artifact_ref") {
        Ok(ContentCaptureMode::EncryptedArtifactRef)
    } else {
        Err(internal_with("unknown content capture mode: ", value))
    }
}

pub open spec fn missing_evidence_spec(v: MissingEvidenceBehavior) -> Seq<char> {
    match v {
        MissingEvidenceBehavior::Inconclusive => "inconclusive"@,
        MissingEvidenceBehavior::Fail => "fail"@,
    }
}

/// The stored text of a missing-evidence behavior.
pub fn missing_evidence_text(value: MissingEvidenceBehavior) -> (r: &'static str)
    ensures
        r@ == missing_evidence_spec(value),
{
    match value {
        MissingEvidenceBehavior::Inconclusive => "inconclusive",
        MissingEvidenceBehavior::Fail => "fail",
    }
}

pub open spec fn parse_missing_evidence_spec(s: Seq<char>) -> Option<MissingEvidenceBehavior> {
    if s == "inconclusive"@ {
        Some(MissingEvidenceBehavior::Inconclusive)
    } else if s == "fail"@ {
        Some(MissingEvidenceBehavior::Fail)
    } else {
        None
    }
}

/// Parses a stored missing-evidence behavior.
pub fn parse_missing_evidence(value: &str) -> (r: Result<MissingEvidenceBehavior, StorageError>)
    ensures
        match parse_missing_evidence_spec(value@) {
            Some(v) => r == Ok::<MissingEvidenceBehavior, StorageError>(v),
            None => r matches Err(e) && is_internal(e, "unknown missing-evidence behavior: "@ + value@),
        },
{
    if same_text(value, "inconclusive") {
        Ok(MissingEvidenceBehavior::Inconclusive)
    } else if same_text(value, "fail") {
        Ok(MissingEvidenceBehavior::Fail)
    } else {
        Err(internal_with("unknown missing-evidence behavior: ", value))
    }
}

pub open spec fn parse_capture_status_spec(s: Seq<char>) -> Option<RunCaptureStatus> {
    if s == "open"@ {
        Some(RunCaptureStatus::Open)
    } else if s == "waiting"@ {
        Some(RunCaptureStatus::Waiting)
    } else if s == "complete"@ {
        Some(RunCaptureStatus::Complete)
    } else if s == "incomplete"@ {
        Some(RunCaptureStatus::Incomplete)
    } else {
        None
    }
}

/// Parses a stored capture status.
pub fn parse_capture_status(value: &str) -> (r: Result<RunCaptureStatus, StorageError>)
    ensures
        match parse_capture_status_spec(value@) {
            Some(v) => r == Ok::<RunCaptureStatus, StorageError>(v),
            None => r matches Err(e) && is_internal(e, "unknown capture status: "@ + value@),
        },
{
    if same_text(value, "open") {
        Ok(RunCaptureStatus::Open)
    } else if same_text(value, "waiting") {
        Ok(RunCaptureStatus::Waiting)
    } else if same_text(value, "complete") {
        Ok(RunCaptureStatus::Complete)
    } else if same_text(value, "incomplete") {
        Ok(RunCaptureStatus::Incomplete)
    } else {
        Err(internal_with("unknown capture status: ", value))
    }
}

/// The stored text of a participant role.
pub fn participant_role_text(value: RunParticipantRole) -> (r: &'static str)
    ensures
        r@ == match value {
            RunParticipantRole::Primary => "primary"@,
            RunParticipantRole::Participant => "participant"@,
        },
{
    match value {
        RunParticipantRole::Primary => "primary",
        RunParticipantRole::Participant => "participant",
    }
}

pub open spec fn job_status_spec(v: EvaluationJobStatus) -> Seq<char> {
    match v {
        EvaluationJobStatus::WaitingCapture => "waiting_capture"@,
        EvaluationJobStatus::Queued => "queued"@,
        EvaluationJobStatus::Running => "running"@,
        EvaluationJobStatus::Completed => "completed"@,
        EvaluationJobStatus::Failed => "failed"@,
        EvaluationJobStatus::Inconclusive => "inconclusive"@,
        EvaluationJobStatus::Error => "error"@,
    }
}

pub open spec fn job_status_from_spec(s: Seq<char>) -> Option<EvaluationJobStatus> {
    if s == "waiting_capture"@ {
        Some(EvaluationJobStatus::WaitingCapture)
    } else if s == "queued"@ {
        Some(EvaluationJobStatus::Queued)
    } else if s == "running"@ {
        Some(EvaluationJobStatus::Running)
    } else if s == "completed"@ {
        Some(EvaluationJobStatus::Completed)
    } else if s == "failed"@ {
        Some(EvaluationJobStatus::Failed)
    } else if s == "inconclusive"@ {
        Some(EvaluationJobStatus::Inconclusive)
    } else if s == "error"@ {
        Some(EvaluationJobStatus::Error)
    } else {
        None
    }
}

/// Parses a stored evaluation job status.
pub fn parse_job_status(value: &str) -> (r: Result<EvaluationJobStatus, StorageError>)
    ensures
        match job_status_from_spec(value@) {
            Some(s) => r == Ok::<EvaluationJobStatus, StorageError>(s),
            None => r matches Err(e) && is_internal(e, "unknown evaluation job status: "@ + value@),
        },
{
    if same_text(value, "waiting_capture") {
        Ok(EvaluationJobStatus::WaitingCapture)
    } else if same_text(value, "queued") {
        Ok(EvaluationJobStatus::Queued)
    } else if same_text(value, "running") {
        Ok(EvaluationJobStatus::Running)
    } else if same_text(value, "completed") {
        Ok(EvaluationJobStatus::Completed)
    } else if same_text(value, "failed") {
        Ok(EvaluationJobStatus::Failed)
    } else if same_text(value, "inconclusive") {
        Ok(EvaluationJobStatus::Inconclusive)
    } else if same_text(value, "error") {
        Ok(EvaluationJobStatus::Error)
    } else {
        Err(internal_with("unknown evaluation job status: ", value))
    }
}

/// Every job status reads back from its stored text.
pub proof fn law_job_status_roundtrip(s: EvaluationJobStatus)
    ensures
        job_status_from_spec(job_status_spec(s)) == Some(s),
{
    reveal_strlit("waiting_capture");
    reveal_strlit("queued");
    reveal_strlit("running");
    reveal_strlit("completed");
    reveal_strlit("failed");
    reveal_strlit("inconclusive");
    reveal_strlit("error");
    assert("waiting_capture"@[0] == 'w');
    assert("queued"@[0] == 'q');
    assert("running"@[0] == 'r');
    assert("completed"@[0] == 'c');
    assert("failed"@[0] == 'f');
    assert("inconclusive"@[0] == 'i');
    assert("error"@[0] == 'e');
}

/// Every capture and content mode reads back from its stored text.
pub proof fn law_mode_roundtrip(c: CaptureMode, m: ContentCaptureMode, b: MissingEvidenceBehavior)
    ensures
        capture_mode_spec(c) == "best_effort"@ <==> c == CaptureMode::BestEffort,
        content_mode_spec(m) == "metadata_only"@ <==> m == ContentCaptureMode::MetadataOnly,
        content_mode_spec(m) == "redacted"@ <==> m == ContentCaptureMode::Redacted,
        missing_evidence_spec(b) == "inconclusive"@ <==> b == MissingEvidenceBehavior::Inconclusive,
{
    reveal_strlit("best_effort");
    reveal_strlit("durable");
    reveal_strlit("metadata_only");
    reveal_strlit("redacted");
    reveal_strlit("encrypted_artifact_ref");
    reveal_strlit("inconclusive");
    reveal_strlit("fail");
    assert("best_effort"@[0] != "durable"@[0]);
    assert("metadata_only"@[0] != "redacted"@[0]);
    assert("metadata_only"@[0] != "encrypted_artifact_ref"@[0]);
    assert("redacted"@[0] != "encrypted_artifact_ref"@[0]);
    assert("inconclusive"@[0] != "fail"@[0]);
}

// ---------------------------------------------------------------------------
// Profiles and assignments
// ---------------------------------------------------------------------------

/// A profile waits at most five minutes of quiet, and between one second
/// and an hour for capture.
pub fn validate_profile_input(quiet_period_ms: i64, max_capture_wait_ms: i64) -> (r: Result<
    (),
    StorageError,
>)
    ensures
        quiet_period_ms > 300_000 ==> (r matches Err(e) && is_internal(
            e,
            "quiet_period_ms must be at most 300000"@,
        )),
        quiet_period_ms <= 300_000 && !(1_000 <= max_capture_wait_ms <= 3_600_000) ==> (r matches Err(e)
            && is_internal(e, "max_capture_wait_ms must be between 1000 and 3600000"@)),
        quiet_period_ms <= 300_000 && 1_000 <= max_capture_wait_ms <= 3_600_000 ==> r is Ok,
{
    if quiet_period_ms > 300_000 {
        return Err(internal("quiet_period_ms must be at most 300000"));
    }
    if !(1_000 <= max_capture_wait_ms && max_capture_wait_ms <= 3_600_000) {
        return Err(internal("max_capture_wait_ms must be between 1000 and 3600000"));
    }
    Ok(())
}

/// A policy assignment of an evaluation profile.
#[derive(Debug, Clone, PartialEq, Eq)]
pub struct AgentEvaluationPolicyAssignment {
    pub policy_id: String,
    pub policy_version: Option<i32>,
    pub weight: i32,
    pub critical: bool,
}

/// Bytes a character takes in UTF-8.
pub open spec fn utf8_width(c: char) -> nat {
    if (c as u32) < 0x80 {
        1
    } else if (c as u32) < 0x800 {
        2
    } else if (c as u32) < 0x10000 {
        3
    } else {
        4
    }
}

/// Byte length of the UTF-8 encoding of a character sequence.
pub open spec fn utf8_len(s: Seq<char>) -> nat
    decreases s.len(),
{
    if s.len() == 0 {
        0
    } else {
        utf8_len(s.drop_last()) + utf8_width(s.last())
    }
}

proof fn lemma_utf8_len_prefix(s: Seq<char>, i: int)
    requires
        0 <= i <= s.len(),
    ensures
        utf8_len(s.take(i)) <= utf8_len(s),
    decreases s.len() - i,
{
    if i < s.len() {
        lemma_utf8_len_prefix(s, i + 1);
        assert(s.take(i + 1).drop_last() =~= s.take(i));
    } else {
        assert(s.take(i) =~= s);
    }
}

/// Whether the UTF-8 encoding of `v` is longer than `limit` bytes.
fn utf8_longer_than(v: &Vec<char>, limit: usize) -> (r: bool)
    ensures
        r == (utf8_len(v@) > limit),
{
    let mut total: usize = 0;
    let mut i: usize = 0;
    while i < v.len()
        invariant
            i <= v.len(),
            total == utf8_len(v@.take(i as int)),
            total <= limit,
        decreases v.len() - i,
    {
        let c = v[i];
        let w: usize = if (c as u32) < 0x80 {
            1
        } else if (c as u32) < 0x800 {
            2
        } else if (c as u32) < 0x10000 {
            3
        } else {
            4
        };
        assert(v@.take(i + 1).drop_last() =~= v@.take(i as int));
        if w > limit - total {
            proof {
                lemma_utf8_len_prefix(v@, i + 1);
            }
            return true;
        }
        total = total + w;
        i = i + 1;
    }
    assert(v@.take(v.len() as int) =~= v@);
    false
}

/// The error of one assignment, given the trimmed ids of the assignments
/// before it, if any.
pub open spec fn assignment_error(
    a: AgentEvaluationPolicyAssignment,
    earlier: Seq<Seq<char>>,
) -> Option<StorageError> {
    let id = trim(a.policy_id@);
    if id.len() == 0 || utf8_len(id) > 128 {
        Some(StorageError::Internal(arbitrary()))
    } else if earlier.contains(id) {
        Some(StorageError::Conflict)
    } else if !(1 <= a.weight <= 10_000) {
        Some(StorageError::Internal(arbitrary()))
    } else if a.policy_version matches Some(v) && v < 1 {
        Some(StorageError::Internal(arbitrary()))
    } else {
        None
    }
}

/// The message of an assignment's internal error, if it has one.
pub open spec fn assignment_message(
    a: AgentEvaluationPolicyAssignment,
    earlier: Seq<Seq<char>>,
) -> Seq<char> {
    let id = trim(a.policy_id@);
    if id.len() == 0 || utf8_len(id) > 128 {
        "evaluation policy_id must contain between 1 and 128 bytes"@
    } else if !(1 <= a.weight <= 10_000) {
        "evaluation assignment weight must be between 1 and 10000"@
    } else {
        "evaluation policy_version must be positive"@
    }
}

/// The trimmed ids of a sequence of assignments.
pub open spec fn trimmed_ids(s: Seq<AgentEvaluationPolicyAssignment>) -> Seq<Seq<char>> {
    s.map_values(|a: AgentEvaluationPolicyAssignment| trim(a.policy_id@))
}

/// Validates the policy assignments of a profile: at most 256 of them,
/// each with an id of 1 to 128 bytes after trimming that no earlier one
/// has (a repeat is a conflict), a weight of 1 to 10000, and a positive
/// version when pinned. The first failing assignment decides the error.
pub fn validate_assignments(assignments: &Vec<AgentEvaluationPolicyAssignment>) -> (r: Result<
    (),
    StorageError,
>)
    ensures
        assignments@.len() > 256 ==> (r matches Err(e) && is_internal(
            e,
            "at most 256 evaluation assignments are allowed"@,
        )),
        assignments@.len() <= 256 ==> (r is Ok <==> forall|i: int|
            0 <= i < assignments@.len() ==> assignment_error(
                #[trigger] assignments@[i],
                trimmed_ids(assignments@.take(i)),
            ) is None),
        assignments@.len() <= 256 && r is Err ==> exists|i: int|
            #![trigger assignments@[i]]
            0 <= i < assignments@.len() && (forall|j: int|
                0 <= j < i ==> assignment_error(
                    #[trigger] assignments@[j],
                    trimmed_ids(assignments@.take(j)),
                ) is None) && match assignment_error(
                assignments@[i],
                trimmed_ids(assignments@.take(i)),
            ) {
                Some(StorageError::Conflict) => r == Err::<(), StorageError>(StorageError::Conflict),
                Some(StorageError::Internal(_)) => r matches Err(e) && is_internal(
                    e,
                    assignment_message(assignments@[i], trimmed_ids(assignments@.take(i))),
                ),
                _ => false,
            },
{
    if assignments.len() > 256 {
        return Err(internal("at most 256 evaluation assignments are allowed"));
    }
    let mut ids: Vec<Vec<char>> = Vec::new();
    let mut i: usize = 0;
    while i < assignments.len()
        invariant
            i <= assignments.len() <= 256,
            id_views(ids@) == trimmed_ids(assignments@.take(i as int)),
            forall|j: int|
                0 <= j < i ==> assignment_error(
                    #[trigger] assignments@[j],
                    trimmed_ids(assignments@.take(j)),
                ) is None,
        decreases assignments.len() - i,
    {
        let a = &assignments[i];
        assert(assignments@.take(i as int).len() == i);
        let id = match check_assignment(a, &ids) {
            Err(e) => return Err(e),
            Ok(id) => id,
        };
        let ghost before = ids@;
        ids.push(id);
        assert(assignments@.take(i + 1) =~= assignments@.take(i as int).push(*a));
        assert(id_views(ids@) =~= id_views(before).push(trim(a.policy_id@)));
        i = i + 1;
    }
    Ok(())
}

/// Checks one assignment against the trimmed ids of the ones before it
/// and gives its trimmed id.
/// The texts of a list of character vectors.
pub open spec fn id_views(ids: Seq<Vec<char>>) -> Seq<Seq<char>> {
    ids.map_values(|v: Vec<char>| v@)
}

fn check_assignment(a: &AgentEvaluationPolicyAssignment, ids: &Vec<Vec<char>>) -> (r: Result<
    Vec<char>,
    StorageError,
>)
    ensures
        match assignment_error(*a, id_views(ids@)) {
            None => r matches Ok(id) && id@ == trim(a.policy_id@),
            Some(StorageError::Conflict) => r == Err::<Vec<char>, StorageError>(
                StorageError::Conflict,
            ),
            Some(StorageError::Internal(_)) => r matches Err(e) && is_internal(
                e,
                assignment_message(*a, id_views(ids@)),
            ),
            _ => false,
        },
{
    let ghost earlier = id_views(ids@);
    let id = trim_chars(&chars_of(a.policy_id.as_str()));
    if id.len() == 0 || utf8_longer_than(&id, 128) {
        return Err(internal("evaluation policy_id must contain between 1 and 128 bytes"));
    }
    let mut k: usize = 0;
    while k < ids.len()
        invariant
            k <= ids.len(),
            earlier == id_views(ids@),
            id@ == trim(a.policy_id@),
            id@.len() > 0,
            utf8_len(id@) <= 128,
            forall|m: int| 0 <= m < k ==> (#[trigger] ids@[m])@ != id@,
        decreases ids.len() - k,
    {
        if chars_eq(&ids[k], &id) {
            proof {
                assert(earlier[k as int] == id@);
                assert(earlier.contains(id@));
            }
            return Err(StorageError::Conflict);
        }
        k = k + 1;
    }
    proof {
        if earlier.contains(id@) {
            let m = choose|m: int| 0 <= m < earlier.len() && earlier[m] == id@;
            assert(ids@[m]@ == id@);
        }
    }
    if !(1 <= a.weight && a.weight <= 10_000) {
        return Err(internal("evaluation assignment weight must be between 1 and 10000"));
    }
    if let Some(v) = a.policy_version {
        if v < 1 {
            return Err(internal("evaluation policy_version must be positive"));
        }
    }
    Ok(id)
}

// ---------------------------------------------------------------------------
// Capture barrier
// ---------------------------------------------------------------------------

/// Default quiet period when no profile sets one.
pub const DEFAULT_QUIET_PERIOD_MS: i64 = 2_000;

/// The longest element of a non-empty sequence.
pub open spec fn seq_max(s: Seq<i64>) -> i64
    decreases s.len(),
{
    if s.len() <= 1 {
        s[0]
    } else {
        let m = seq_max(s.drop_last());
        if s.last() > m {
            s.last()
        } else {
            m
        }
    }
}

/// The quiet period a run must observe: the longest among its enabled
/// profiles, or the default when it has no participants or no profile.
pub fn quiet_period_ms(participant_count: usize, profile_quiet_periods: &Vec<i64>) -> (r: i64)
    ensures
        participant_count == 0 || profile_quiet_periods@.len() == 0 ==> r == DEFAULT_QUIET_PERIOD_MS,
        participant_count > 0 && profile_quiet_periods@.len() > 0 ==> r == seq_max(
            profile_quiet_periods@,
        ),
{
    if participant_count == 0 || profile_quiet_periods.len() == 0 {
        return DEFAULT_QUIET_PERIOD_MS;
    }
    let mut m = profile_quiet_periods[0];
    let mut i: usize = 1;
    assert(profile_quiet_periods@.take(1).drop_last().len() == 0);
    assert(profile_quiet_periods@.take(1) =~= seq![profile_quiet_periods@[0]]);
    while i < profile_quiet_periods.len()
        invariant
            1 <= i <= profile_quiet_periods.len(),
            m == seq_max(profile_quiet_periods@.take(i as int)),
        decreases profile_quiet_periods.len() - i,
    {
        assert(profile_quiet_periods@.take(i + 1).drop_last() =~= profile_quiet_periods@.take(
            i as int,
        ));
        if profile_quiet_periods[i] > m {
            m = profile_quiet_periods[i];
        }
        i = i + 1;
    }
    assert(profile_quiet_periods@.take(profile_quiet_periods.len() as int)
        =~= profile_quiet_periods@);
    m
}

/// What the capture barrier of a finished run knows.
#[derive(Debug, Clone, Copy, PartialEq, Eq, Structural)]
pub struct CaptureEvidence {
    /// The capture deadline.
    pub deadline: i64,
    /// The current instant.
    pub now: i64,
    /// Whether the run expects a flush receipt.
    pub expects_flush: bool,
    /// When the expected flush receipt was accepted, if it was.
    pub receipt_accepted_at: Option<i64>,
    /// Spans the flush receipt rejected (zero without a receipt).
    pub receipt_rejected_spans: i32,
    /// The latest evidence, or the finalization when there was none.
    pub latest_evidence_at: i64,
    pub quiet_period_ms: i64,
    pub dropped_trace_count: i64,
    pub has_unattributed_traces: bool,
}

/// The barrier's verdict.
#[derive(Debug, Clone, Copy, PartialEq, Eq, Structural)]
pub enum CaptureVerdict {
    /// Keep waiting for evidence.
    Waiting,
    /// Snapshot now, with the given capture status.
    Snapshot(RunCaptureStatus),
}

/// The flush receipt arrived by the deadline.
pub open spec fn receipt_ready(e: CaptureEvidence) -> bool {
    e.receipt_accepted_at matches Some(t) && t <= e.deadline
}

/// Without an expected flush, the run has been quiet for the quiet period.
pub open spec fn quiet_ready(e: CaptureEvidence) -> bool {
    !e.expects_flush && e.now - e.latest_evidence_at >= e.quiet_period_ms
}

/// The capture barrier: wait until the receipt is in, the run has been
/// quiet long enough, or the deadline passes. The capture is incomplete
/// when the deadline forced it, traces were dropped, spans were rejected
/// or some trace has no agent.
pub open spec fn capture_verdict_spec(e: CaptureEvidence) -> CaptureVerdict {
    let deadline_reached = e.now >= e.deadline;
    if !receipt_ready(e) && !quiet_ready(e) && !deadline_reached {
        CaptureVerdict::Waiting
    } else if (deadline_reached && !receipt_ready(e) && !quiet_ready(e)) || e.dropped_trace_count > 0
        || e.receipt_rejected_spans > 0 || e.has_unattributed_traces {
        CaptureVerdict::Snapshot(RunCaptureStatus::Incomplete)
    } else {
        CaptureVerdict::Snapshot(RunCaptureStatus::Complete)
    }
}

/// Decides whether a finished run is snapshotted now, and how complete
/// its capture is.
pub fn capture_verdict(e: CaptureEvidence) -> (r: CaptureVerdict)
    ensures
        r == capture_verdict_spec(e),
{
    let receipt_ok = match e.receipt_accepted_at {
        Some(t) => t <= e.deadline,
        None => false,
    };
    let elapsed: i128 = (e.now as i128) - (e.latest_evidence_at as i128);
    let quiet_ok = !e.expects_flush && elapsed >= e.quiet_period_ms as i128;
    let deadline_reached = e.now >= e.deadline;
    if !receipt_ok && !quiet_ok && !deadline_reached {
        return CaptureVerdict::Waiting;
    }
    let incomplete = (deadline_reached && !receipt_ok && !quiet_ok) || e.dropped_trace_count > 0
        || e.receipt_rejected_spans > 0 || e.has_unattributed_traces;
    if incomplete {
        CaptureVerdict::Snapshot(RunCaptureStatus::Incomplete)
    } else {
        CaptureVerdict::Snapshot(RunCaptureStatus::Complete)
    }
}

/// The barrier never waits past the deadline, and a capture is complete
/// only when evidence, not the deadline, closed it and nothing was lost.
pub proof fn law_capture_barrier(e: CaptureEvidence)
    ensures
        e.now >= e.deadline ==> capture_verdict_spec(e) != CaptureVerdict::Waiting,
        capture_verdict_spec(e) == CaptureVerdict::Snapshot(RunCaptureStatus::Complete) ==> {
            &&& receipt_ready(e) || quiet_ready(e)
            &&& e.dropped_trace_count <= 0
            &&& e.receipt_rejected_spans <= 0
            &&& !e.has_unattributed_traces
        },
{
}

/// What an attempt to advance a run's capture did.
#[derive(Debug, Clone, Copy, PartialEq, Eq)]
pub enum CaptureAdvanceResult {
    /// The barrier is still waiting for evidence.
    Waiting,
    /// A snapshot was taken and this many evaluation jobs were created.
    SnapshotCreated { jobs_created: usize },
    /// The run's capture had already closed.
    AlreadyClosed,
}

/// Where a run's capture stands before the barrier is consulted.
#[derive(Debug, Clone, Copy, PartialEq, Eq, Structural)]
pub enum CaptureStart {
    /// The capture already closed.
    Closed,
    /// The capture is waiting on a finalized run with a deadline.
    Open { finalized_at: i64, deadline: i64 },
}

/// A run's capture is open when it is `waiting`; a waiting capture must
/// have the run's finalization and a deadline.
pub fn capture_start(capture_status: &str, finalized_at: Option<i64>, deadline: Option<i64>) -> (r:
    Result<CaptureStart, StorageError>)
    ensures
        capture_status@ != "waiting"@ ==> r == Ok::<CaptureStart, StorageError>(CaptureStart::Closed),
        capture_status@ == "waiting"@ && finalized_at is None ==> (r matches Err(e) && is_internal(
            e,
            "waiting capture has no finalization"@,
        )),
        capture_status@ == "waiting"@ && finalized_at is Some && deadline is None ==> (r matches Err(
            e,
        ) && is_internal(e, "waiting capture has no deadline"@)),
        capture_status@ == "waiting"@ && finalized_at is Some && deadline is Some ==> r == Ok::<
            CaptureStart,
            StorageError,
        >(CaptureStart::Open { finalized_at: finalized_at->0, deadline: deadline->0 }),
{
    if !same_text(capture_status, "waiting") {
        return Ok(CaptureStart::Closed);
    }
    let finalized_at = match finalized_at {
        Some(t) => t,
        None => return Err(internal("waiting capture has no finalization")),
    };
    match deadline {
        Some(d) => Ok(CaptureStart::Open { finalized_at, deadline: d }),
        None => Err(internal("waiting capture has no deadline")),
    }
}

/// The name is one of the requested ones.
pub open spec fn is_requested(req: Seq<String>, p: String) -> bool {
    exists|j: int| 0 <= j < req.len() && (#[trigger] req[j])@ == p@
}

/// The participants among `ps` that were requested, in order.
pub open spec fn requested_among(ps: Seq<String>, req: Seq<String>) -> Seq<String>
    decreases ps.len(),
{
    if ps.len() == 0 {
        Seq::empty()
    } else {
        let rest = requested_among(ps.drop_last(), req);
        if is_requested(req, ps.last()) {
            rest.push(ps.last())
        } else {
            rest
        }
    }
}

/// Participants that a (re-)evaluation covers: all of them, or those
/// among them that a re-evaluation asked for, in order.
pub open spec fn selected_participants(participants: Seq<String>, requested: Option<Seq<String>>) -> Seq<
    String,
> {
    match requested {
        None => participants,
        Some(req) => requested_among(participants, req),
    }
}

pub(crate) fn text_in(values: &Vec<String>, v: &String) -> (r: bool)
    ensures
        r == exists|j: int| 0 <= j < values@.len() && (#[trigger] values@[j])@ == v@,
{
    let mut j: usize = 0;
    while j < values.len()
        invariant
            j <= values.len(),
            forall|k: int| 0 <= k < j ==> (#[trigger] values@[k])@ != v@,
        decreases values.len() - j,
    {
        if values[j] == *v {
            return true;
        }
        j = j + 1;
    }
    false
}

/// The participants an evaluation covers.
pub fn evaluation_participants(participants: &Vec<String>, requested: &Option<Vec<String>>) -> (r:
    Vec<String>)
    ensures
        r@ == selected_participants(
            participants@,
            match requested {
                None => None,
                Some(v) => Some(v@),
            },
        ),
{
    match requested {
        None => participants.clone(),
        Some(req) => {
            let mut out: Vec<String> = Vec::new();
            let mut i: usize = 0;
            while i < participants.len()
                invariant
                    i <= participants.len(),
                    out@ == requested_among(participants@.take(i as int), req@),
                decreases participants.len() - i,
            {
                let p = &participants[i];
                proof {
                    let s = participants@.take(i + 1);
                    assert(s.drop_last() =~= participants@.take(i as int));
                    assert(s.last() == *p);
                }
                if text_in(req, p) {
                    out.push(p.clone());
                }
                i = i + 1;
            }
            assert(participants@.take(participants.len() as int) =~= participants@);
            out
        },
    }
}

/// A snapshot's jobs start completed when the agent has no policies to
/// evaluate, queued otherwise.
pub fn initial_job_status(manifest_is_empty: bool) -> (r: &'static str)
    ensures
        manifest_is_empty ==> r@ == "completed"@,
        !manifest_is_empty ==> r@ == "queued"@,
{
    if manifest_is_empty {
        "completed"
    } else {
        "queued"
    }
}

/// A run's duration: from start to end, never negative, zero while it
/// has not ended.
pub fn run_duration_ms(started_at: i64, ended_at: Option<i64>) -> (r: i64)
    requires
        ended_at matches Some(e) ==> i64::MIN <= e - started_at <= i64::MAX,
    ensures
        r == match ended_at {
            None => 0,
            Some(e) => if e - started_at > 0 {
                e - started_at
            } else {
                0
            },
        },
{
    match ended_at {
        None => 0,
        Some(e) => {
            let d = e - started_at;
            if d > 0 {
                d
            } else {
                0
            }
        },
    }
}

/// How many waiting captures one pass looks at: the requested limit,
/// kept between 1 and 100.
pub fn capture_batch_limit(limit: i64) -> (r: i64)
    ensures
        r == if limit < 1 {
            1
        } else if limit > 100 {
            100
        } else {
            limit
        },
{
    if limit < 1 {
        1
    } else if limit > 100 {
        100
    } else {
        limit
    }
}

// ---------------------------------------------------------------------------
// Job leases and retries
// ---------------------------------------------------------------------------

/// What a worker holds of a job lease.
#[derive(Debug, Clone, PartialEq, Eq)]
pub struct JobLease {
    pub status: String,
    pub lease_owner: Option<String>,
    pub attempts: i32,
    pub lease_expires_at: Option<i64>,
}

/// A worker still holds the lease: the job runs under its name, at its
/// attempt, and the lease has not run out.
pub open spec fn lease_held(lease: JobLease, owner: Seq<char>, attempt: i32, now: i64) -> bool {
    &&& lease.status@ == "running"@
    &&& (lease.lease_owner matches Some(o) && o@ == owner)
    &&& lease.attempts == attempt
    &&& (lease.lease_expires_at matches Some(t) && t > now)
}

/// A result is accepted only from the worker that holds the lease.
pub fn check_job_lease(lease: &JobLease, owner: &str, attempt: i32, now: i64) -> (r: Result<
    (),
    StorageError,
>)
    ensures
        r is Ok <==> lease_held(*lease, owner@, attempt, now),
        r is Err ==> r == Err::<(), StorageError>(StorageError::Conflict),
{
    if lease.status.as_str().to_owned() != "running".to_owned() {
        return Err(StorageError::Conflict);
    }
    match &lease.lease_owner {
        None => return Err(StorageError::Conflict),
        Some(o) => if *o != owner.to_owned() {
            return Err(StorageError::Conflict);
        },
    }
    if lease.attempts != attempt {
        return Err(StorageError::Conflict);
    }
    match lease.lease_expires_at {
        None => Err(StorageError::Conflict),
        Some(t) => if t <= now {
            Err(StorageError::Conflict)
        } else {
            Ok(())
        },
    }
}

/// A queued or running job as the claim step sees it.
#[derive(Debug, Clone, PartialEq, Eq)]
pub struct JobClaimState {
    pub status: String,
    pub attempts: i32,
    pub available_at: i64,
    pub lease_expires_at: Option<i64>,
}

/// The job's lease ran out before `now`.
pub open spec fn lease_lapsed(job: JobClaimState, now: i64) -> bool {
    job.lease_expires_at matches Some(t) && t < now
}

/// A running job whose lease lapsed after its last allowed attempt; it is
/// failed with an error instead of being claimed again.
pub open spec fn spec_lease_exhausted(job: JobClaimState, now: i64, max_attempts: i32) -> bool {
    job.status@ == "running"@ && job.attempts >= max_attempts && lease_lapsed(job, now)
}

/// A job a worker may claim: due, with attempts left, and either queued or
/// running under a lease that lapsed.
pub open spec fn spec_job_claimable(job: JobClaimState, now: i64, max_attempts: i32) -> bool {
    &&& job.available_at <= now
    &&& job.attempts < max_attempts
    &&& (job.status@ == "queued"@ || (job.status@ == "running"@ && lease_lapsed(job, now)))
}

fn lapsed(job: &JobClaimState, now: i64) -> (r: bool)
    ensures
        r == lease_lapsed(*job, now),
{
    match job.lease_expires_at {
        Some(t) => t < now,
        None => false,
    }
}

/// Whether a job's lease lapsed after its last allowed attempt.
pub fn lease_exhausted(job: &JobClaimState, now: i64, max_attempts: i32) -> (r: bool)
    ensures
        r == spec_lease_exhausted(*job, now, max_attempts),
{
    same_text(job.status.as_str(), "running") && job.attempts >= max_attempts && lapsed(job, now)
}

/// Whether a worker may claim a job.
pub fn job_claimable(job: &JobClaimState, now: i64, max_attempts: i32) -> (r: bool)
    ensures
        r == spec_job_claimable(*job, now, max_attempts),
{
    job.available_at <= now && job.attempts < max_attempts && (same_text(job.status.as_str(), "queued")
        || (same_text(job.status.as_str(), "running") && lapsed(job, now)))
}

/// The lease a worker takes on a claimable job: the job runs under the
/// worker's name at its next attempt until `now + lease_ms`.
pub fn claim_job(job: &JobClaimState, worker_id: &str, now: i64, lease_ms: i64, max_attempts: i32) -> (r:
    JobLease)
    requires
        spec_job_claimable(*job, now, max_attempts),
        i64::MIN <= now + lease_ms <= i64::MAX,
    ensures
        r.status@ == "running"@,
        r.lease_owner matches Some(o) && o@ == worker_id@,
        r.attempts == job.attempts + 1,
        r.lease_expires_at == Some((now + lease_ms) as i64),
{
    JobLease {
        status: "running".to_owned(),
        lease_owner: Some(worker_id.to_owned()),
        attempts: job.attempts + 1,
        lease_expires_at: Some(now + lease_ms),
    }
}

/// A job is never both claimable and failed for exhausting its attempts.
pub proof fn law_claimable_not_exhausted(job: JobClaimState, now: i64, max_attempts: i32)
    ensures
        !(spec_job_claimable(job, now, max_attempts) && spec_lease_exhausted(
            job,
            now,
            max_attempts,
        )),
{
}

/// The worker that claimed a job holds its lease, at the claimed attempt,
/// until the lease runs out, and no other worker does.
pub proof fn law_claim_grants_lease(
    lease: JobLease,
    job: JobClaimState,
    worker: Seq<char>,
    other: Seq<char>,
    now: i64,
    lease_ms: i64,
    at: i64,
)
    requires
        lease.status@ == "running"@,
        lease.lease_owner matches Some(o) && o@ == worker,
        lease.attempts == job.attempts + 1,
        lease.lease_expires_at == Some((now + lease_ms) as i64),
        i64::MIN <= now + lease_ms <= i64::MAX,
        job.attempts < i32::MAX,
        other != worker,
    ensures
        at < now + lease_ms ==> lease_held(lease, worker, (job.attempts + 1) as i32, at),
        at >= now + lease_ms ==> !lease_held(lease, worker, (job.attempts + 1) as i32, at),
        !lease_held(lease, other, (job.attempts + 1) as i32, at),
{
}

/// The job status a verdict settles on.
pub fn job_status_for_verdict(verdict: &str) -> (r: &'static str)
    ensures
        r@ == if verdict@ == "passed"@ {
            "completed"@
        } else if verdict@ == "failed"@ {
            "failed"@
        } else if verdict@ == "inconclusive"@ {
            "inconclusive"@
        } else {
            "error"@
        },
{
    if same_text(verdict, "passed") {
        "completed"
    } else if same_text(verdict, "failed") {
        "failed"
    } else if same_text(verdict, "inconclusive") {
        "inconclusive"
    } else {
        "error"
    }
}

/// 2 to the power `n`.
pub open spec fn pow2(n: nat) -> int
    decreases n,
{
    if n == 0 {
        1
    } else {
        2 * pow2((n - 1) as nat)
    }
}

/// The retry backoff in seconds: 2 to the power of the attempt, capped at
/// 64 seconds from the sixth attempt on.
pub fn retry_delay_seconds(attempt: i32) -> (r: i64)
    requires
        attempt >= 0,
    ensures
        r == pow2(if attempt < 6 {
            attempt as nat
        } else {
            6
        }),
{
    proof {
        reveal_with_fuel(pow2, 7);
    }
    if attempt <= 0 {
        1
    } else if attempt == 1 {
        2
    } else if attempt == 2 {
        4
    } else if attempt == 3 {
        8
    } else if attempt == 4 {
        16
    } else if attempt == 5 {
        32
    } else {
        64
    }
}

/// A retried job goes back to the queue, or errors for good once it has
/// used its attempts.
pub fn retry_status(attempt: i32, max_attempts: i32) -> (r: &'static str)
    ensures
        attempt >= max_attempts ==> r@ == "error"@,
        attempt < max_attempts ==> r@ == "queued"@,
{
    if attempt >= max_attempts {
        "error"
    } else {
        "queued"
    }
}

/// The first `n` characters of `s`.
pub fn truncate_chars(s: &str, n: usize) -> (r: String)
    ensures
        r@ == if s@.len() <= n {
            s@
        } else {
            s@.take(n as int)
        },
{
    let v = chars_of(s);
    if v.len() <= n {
        return string_of(&v);
    }
    let mut out: Vec<char> = Vec::new();
    let mut i: usize = 0;
    while i < n
        invariant
            i <= n < v.len(),
            out@ == v@.take(i as int),
        decreases n - i,
    {
        out.push(v[i]);
        i = i + 1;
    }
    string_of(&out)
}

// ---------------------------------------------------------------------------
// Re-evaluation
// ---------------------------------------------------------------------------

/// A run can be re-evaluated once finalized and not while it waits for
/// capture.
pub fn check_reevaluation(finalized: bool, capture_waiting: bool) -> (r: Result<(), StorageError>)
    ensures
        r is Ok <==> finalized && !capture_waiting,
        r is Err ==> r == Err::<(), StorageError>(StorageError::Conflict),
{
    if !finalized || capture_waiting {
        Err(StorageError::Conflict)
    } else {
        Ok(())
    }
}

/// Some participant has the name.
pub open spec fn has_name(participants: Seq<String>, name: Seq<char>) -> bool {
    exists|j: int| 0 <= j < participants.len() && (#[trigger] participants[j])@ == name
}

/// Every requested agent is a participant.
pub open spec fn all_participants(req: Seq<String>, participants: Seq<String>) -> bool {
    forall|i: int| 0 <= i < req.len() ==> has_name(participants, (#[trigger] req[i])@)
}

fn all_present(req: &Vec<String>, participants: &Vec<String>) -> (r: bool)
    ensures
        r == all_participants(req@, participants@),
{
    let mut i: usize = 0;
    while i < req.len()
        invariant
            i <= req.len(),
            forall|k: int| 0 <= k < i ==> has_name(participants@, (#[trigger] req@[k])@),
        decreases req.len() - i,
    {
        if !text_in(participants, &req[i]) {
            return false;
        }
        i = i + 1;
    }
    true
}

/// Requested agents must be a non-empty list of the run's participants.
pub fn check_requested_agents(requested: &Option<Vec<String>>, participants: &Vec<String>) -> (r:
    Result<(), StorageError>)
    ensures
        requested.is_none() ==> r is Ok,
        requested matches Some(req) ==> (r is Ok <==> req@.len() > 0 && all_participants(
            req@,
            participants@,
        )),
        r is Err ==> r == Err::<(), StorageError>(StorageError::NotFound),
{
    match requested {
        None => Ok(()),
        Some(req) => {
            if req.len() == 0 || !all_present(req, participants) {
                Err(StorageError::NotFound)
            } else {
                Ok(())
            }
        },
    }
}

/// Default capture wait when no enabled profile sets one.
pub const DEFAULT_CAPTURE_WAIT_MS: i64 = 30_000;

/// How long a re-evaluation waits for capture: the longest wait among the
/// enabled profiles, or the default, kept between one second and an hour.
pub fn reevaluation_wait_ms(max_profile_wait_ms: Option<i64>) -> (r: i64)
    ensures
        ({
            let w = match max_profile_wait_ms {
                Some(v) => v,
                None => DEFAULT_CAPTURE_WAIT_MS,
            };
            r == if w < 1_000 {
                1_000
            } else if w > 3_600_000 {
                3_600_000
            } else {
                w
            }
        }),
{
    let w = match max_profile_wait_ms {
        Some(v) => v,
        None => DEFAULT_CAPTURE_WAIT_MS,
    };
    if w < 1_000 {
        1_000
    } else if w > 3_600_000 {
        3_600_000
    } else {
        w
    }
}

/// A snapshot keeps its payload's content only when the agent captures
/// redacted content and the payload carries a redaction report saying
/// the redaction was applied to the input, the proposed output and the
/// context.
pub fn redaction_verified(
    content_mode: Option<&str>,
    redaction_status: Option<&str>,
    input_redacted: Option<bool>,
    proposed_output_redacted: Option<bool>,
    context_redacted: Option<bool>,
) -> (r: bool)
    ensures
        r == ((content_mode matches Some(m) && m@ == "redacted"@) && (redaction_status matches Some(
            s,
        ) && s@ == "applied"@) && input_redacted == Some(true) && proposed_output_redacted == Some(
            true,
        ) && context_redacted == Some(true)),
{
    let mode_ok = match content_mode {
        Some(m) => same_text(m, "redacted"),
        None => false,
    };
    let status_ok = match redaction_status {
        Some(s) => same_text(s, "applied"),
        None => false,
    };
    mode_ok && status_ok && input_redacted == Some(true) && proposed_output_redacted == Some(true)
        && context_redacted == Some(true)
}

// ---------------------------------------------------------------------------
// Frozen evaluation manifest
// ---------------------------------------------------------------------------

/// An assigned policy must be of the evaluation family to enter a run's
/// manifest.
pub fn check_evaluation_family(policy_id: &str, is_evaluation: bool) -> (r: Result<(), StorageError>)
    ensures
        is_evaluation ==> r is Ok,
        !is_evaluation ==> (r matches Err(e) && is_internal(
            e,
            "assigned policy `"@ + policy_id@ + "` is not evaluation family"@,
        )),
{
    if is_evaluation {
        Ok(())
    } else {
        Err(internal_around("assigned policy `", policy_id, "` is not evaluation family"))
    }
}

/// What a policy-replay grader's source policy turned out to be.
#[derive(Debug, Clone, Copy, PartialEq, Eq, Structural)]
pub enum ReplaySourceKind {
    /// A content policy whose matchers are literal or regular expressions.
    DeterministicContent,
    /// A content policy with a semantic matcher.
    SemanticContent,
    /// An evaluation-family policy.
    Evaluation,
    /// A policy of another family.
    OtherFamily,
}

/// A policy-replay grader may only replay deterministic content policies.
pub fn check_replay_source(policy_id: &str, kind: ReplaySourceKind) -> (r: Result<(), StorageError>)
    ensures
        kind == ReplaySourceKind::DeterministicContent ==> r is Ok,
        kind == ReplaySourceKind::SemanticContent ==> (r matches Err(e) && is_internal(
            e,
            "policy_replay source `"@ + policy_id@
                + "` must use deterministic literal or regex matchers"@,
        )),
        kind == ReplaySourceKind::Evaluation ==> (r matches Err(e) && is_internal(
            e,
            "policy_replay source `"@ + policy_id@ + "` must not reference an evaluation policy"@,
        )),
        kind == ReplaySourceKind::OtherFamily ==> (r matches Err(e) && is_internal(
            e,
            "policy_replay source `"@ + policy_id@ + "` must be a deterministic content policy"@,
        )),
{
    match kind {
        ReplaySourceKind::DeterministicContent => Ok(()),
        ReplaySourceKind::SemanticContent => Err(
            internal_around(
                "policy_replay source `",
                policy_id,
                "` must use deterministic literal or regex matchers",
            ),
        ),
        ReplaySourceKind::Evaluation => Err(
            internal_around(
                "policy_replay source `",
                policy_id,
                "` must not reference an evaluation policy",
            ),
        ),
        ReplaySourceKind::OtherFamily => Err(
            internal_around("policy_replay source `", policy_id, "` must be a deterministic content policy"),
        ),
    }
}

/// One policy of a run's frozen evaluation manifest.
#[derive(Debug, PartialEq)]
pub struct NewManifestEntry {
    pub workspace_id: String,
    pub environment_id: String,
    pub run_id: u128,
    pub agent_id: String,
    pub policy_id: String,
    pub policy_family: String,
    pub policy_version: i32,
    pub policy_hash: String,
    pub policy_yaml: String,
    pub weight: i32,
    pub critical: bool,
    pub evidence_requirements: JsonValue,
}

/// The manifest entry that freezes an assigned evaluation policy for a
/// run's participant: the policy's text at the resolved version, with its
/// content hash, and the assignment's weight and criticality.
pub fn manifest_entry(
    workspace_id: &str,
    environment_id: &str,
    run_id: u128,
    agent_id: &str,
    assignment: &AgentEvaluationPolicyAssignment,
    policy_version: i32,
    policy_yaml: String,
    evidence_requirements: JsonValue,
) -> (r: NewManifestEntry)
    ensures
        r.workspace_id@ == workspace_id@,
        r.environment_id@ == environment_id@,
        r.run_id == run_id,
        r.agent_id@ == agent_id@,
        r.policy_id@ == assignment.policy_id@,
        r.policy_family@ == "evaluation"@,
        r.policy_version == policy_version,
        r.policy_hash@ == "sha256:v1:"@ + hex(spec_sha256(vstd::utf8::encode_utf8(policy_yaml@))),
        r.policy_yaml == policy_yaml,
        r.weight == assignment.weight,
        r.critical == assignment.critical,
        r.evidence_requirements == evidence_requirements,
{
    let policy_hash = hash_text(policy_yaml.as_str());
    NewManifestEntry {
        workspace_id: workspace_id.to_owned(),
        environment_id: environment_id.to_owned(),
        run_id,
        agent_id: agent_id.to_owned(),
        policy_id: assignment.policy_id.clone(),
        policy_family: "evaluation".to_owned(),
        policy_version,
        policy_hash,
        policy_yaml,
        weight: assignment.weight,
        critical: assignment.critical,
        evidence_requirements,
    }
}

} // verus!
