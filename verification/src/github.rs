//! GitHub integration: the encodings of installation, connection and job
//! states, the guard on job transitions, and how a transition's fields
//! merge with the stored job.

use vstd::prelude::*;
use crate::error::{StorageError, is_internal, internal_with};
use crate::text::same_text;

verus! {

/// Where a GitHub integration job stands.
#[derive(Debug, Clone, Copy, PartialEq, Eq, Structural)]
pub enum GitHubIntegrationJobStatus {
    Queued,
    Analyzing,
    AwaitingApproval,
    Applying,
    DraftPrOpen,
    AwaitingVerification,
    Verified,
    ClosedUnmerged,
    Error,
    Cancelled,
}

/// The stored text of a job status.
pub open spec fn job_status_spec(s: GitHubIntegrationJobStatus) -> Seq<char> {
    match s {
        GitHubIntegrationJobStatus::Queued => "queued"@,
        GitHubIntegrationJobStatus::Analyzing => "analyzing"@,
        GitHubIntegrationJobStatus::AwaitingApproval => "awaiting_approval"@,
        GitHubIntegrationJobStatus::Applying => "applying"@,
        GitHubIntegrationJobStatus::DraftPrOpen => "draft_pr_open"@,
        GitHubIntegrationJobStatus::AwaitingVerification => "awaiting_verification"@,
        GitHubIntegrationJobStatus::Verified => "verified"@,
        GitHubIntegrationJobStatus::ClosedUnmerged => "closed_unmerged"@,
        GitHubIntegrationJobStatus::Error => "error"@,
        GitHubIntegrationJobStatus::Cancelled => "cancelled"@,
    }
}

/// The job status stored as `s`, if any.
pub open spec fn job_status_from_spec(s: Seq<char>) -> Option<GitHubIntegrationJobStatus> {
    if s == "queued"@ {
        Some(GitHubIntegrationJobStatus::Queued)
    } else if s == "analyzing"@ {
        Some(GitHubIntegrationJobStatus::Analyzing)
    } else if s == "awaiting_approval"@ {
        Some(GitHubIntegrationJobStatus::AwaitingApproval)
    } else if s == "applying"@ {
        Some(GitHubIntegrationJobStatus::Applying)
    } else if s == "draft_pr_open"@ {
        Some(GitHubIntegrationJobStatus::DraftPrOpen)
    } else if s == "awaiting_verification"@ {
        Some(GitHubIntegrationJobStatus::AwaitingVerification)
    } else if s == "verified"@ {
        Some(GitHubIntegrationJobStatus::Verified)
    } else if s == "closed_unmerged"@ {
        Some(GitHubIntegrationJobStatus::ClosedUnmerged)
    } else if s == "error"@ {
        Some(GitHubIntegrationJobStatus::Error)
    } else if s == "cancelled"@ {
        Some(GitHubIntegrationJobStatus::Cancelled)
    } else {
        None
    }
}

/// The stored text of a job status.
pub fn job_status_text(status: GitHubIntegrationJobStatus) -> (r: &'static str)
    ensures
        r@ == job_status_spec(status),
{
    match status {
        GitHubIntegrationJobStatus::Queued => "queued",
        GitHubIntegrationJobStatus::Analyzing => "analyzing",
        GitHubIntegrationJobStatus::AwaitingApproval => "awaiting_approval",
        GitHubIntegrationJobStatus::Applying => "applying",
        GitHubIntegrationJobStatus::DraftPrOpen => "draft_pr_open",
        GitHubIntegrationJobStatus::AwaitingVerification => "awaiting_verification",
        GitHubIntegrationJobStatus::Verified => "verified",
        GitHubIntegrationJobStatus::ClosedUnmerged => "closed_unmerged",
        GitHubIntegrationJobStatus::Error => "error",
        GitHubIntegrationJobStatus::Cancelled => "cancelled",
    }
}

/// Parses a stored job status; unknown text is an internal error.
pub fn parse_job_status(value: &str) -> (r: Result<GitHubIntegrationJobStatus, StorageError>)
    ensures
        match job_status_from_spec(value@) {
            Some(s) => r == Ok::<GitHubIntegrationJobStatus, StorageError>(s),
            None => r matches Err(e) && is_internal(e, "unknown github job status: "@ + value@),
        },
{
    if same_text(value, "queued") {
        Ok(GitHubIntegrationJobStatus::Queued)
    } else if same_text(value, "analyzing") {
        Ok(GitHubIntegrationJobStatus::Analyzing)
    } else if same_text(value, "awaiting_approval") {
        Ok(GitHubIntegrationJobStatus::AwaitingApproval)
    } else if same_text(value, "applying") {
        Ok(GitHubIntegrationJobStatus::Applying)
    } else if same_text(value, "draft_pr_open") {
        Ok(GitHubIntegrationJobStatus::DraftPrOpen)
    } else if same_text(value, "awaiting_verification") {
        Ok(GitHubIntegrationJobStatus::AwaitingVerification)
    } else if same_text(value, "verified") {
        Ok(GitHubIntegrationJobStatus::Verified)
    } else if same_text(value, "closed_unmerged") {
        Ok(GitHubIntegrationJobStatus::ClosedUnmerged)
    } else if same_text(value, "error") {
        Ok(GitHubIntegrationJobStatus::Error)
    } else if same_text(value, "cancelled") {
        Ok(GitHubIntegrationJobStatus::Cancelled)
    } else {
        Err(internal_with("unknown github job status: ", value))
    }
}

/// Every job status reads back from its stored text.
pub proof fn law_job_status_roundtrip(s: GitHubIntegrationJobStatus)
    ensures
        job_status_from_spec(job_status_spec(s)) == Some(s),
{
    reveal_strlit("queued");
    reveal_strlit("analyzing");
    reveal_strlit("awaiting_approval");
    reveal_strlit("applying");
    reveal_strlit("draft_pr_open");
    reveal_strlit("awaiting_verification");
    reveal_strlit("verified");
    reveal_strlit("closed_unmerged");
    reveal_strlit("error");
    reveal_strlit("cancelled");
    assert("queued"@[0] == 'q');
    assert("analyzing"@[1] == 'n');
    assert("awaiting_approval"@[9] == 'a');
    assert("awaiting_verification"@[9] == 'v');
    assert("awaiting_approval"@[1] == 'w');
    assert("applying"@[1] == 'p');
    assert("draft_pr_open"@[0] == 'd');
    assert("verified"@[0] == 'v');
    assert("closed_unmerged"@[1] == 'l');
    assert("cancelled"@[1] == 'a');
    assert("error"@[0] == 'e');
}

/// Whether an installation is usable.
#[derive(Debug, Clone, Copy, PartialEq, Eq, Structural)]
pub enum GitHubInstallationStatus {
    Active,
    Suspended,
    Removed,
}

/// The stored text of an installation status.
pub fn installation_status_text(status: GitHubInstallationStatus) -> (r: &'static str)
    ensures
        r@ == match status {
            GitHubInstallationStatus::Active => "active"@,
            GitHubInstallationStatus::Suspended => "suspended"@,
            GitHubInstallationStatus::Removed => "removed"@,
        },
{
    match status {
        GitHubInstallationStatus::Active => "active",
        GitHubInstallationStatus::Suspended => "suspended",
        GitHubInstallationStatus::Removed => "removed",
    }
}

/// Reads a stored installation status; anything unrecognised reads as
/// active.
pub fn parse_installation_status(value: &str) -> (r: GitHubInstallationStatus)
    ensures
        r == if value@ == "suspended"@ {
            GitHubInstallationStatus::Suspended
        } else if value@ == "removed"@ {
            GitHubInstallationStatus::Removed
        } else {
            GitHubInstallationStatus::Active
        },
{
    if same_text(value, "suspended") {
        GitHubInstallationStatus::Suspended
    } else if same_text(value, "removed") {
        GitHubInstallationStatus::Removed
    } else {
        GitHubInstallationStatus::Active
    }
}

/// Whether a repository connection is usable.
#[derive(Debug, Clone, Copy, PartialEq, Eq, Structural)]
pub enum GitHubConnectionStatus {
    Active,
    AccessRemoved,
    Disconnected,
}

/// The stored text of a connection status.
pub fn connection_status_text(status: GitHubConnectionStatus) -> (r: &'static str)
    ensures
        r@ == match status {
            GitHubConnectionStatus::Active => "active"@,
            GitHubConnectionStatus::AccessRemoved => "access_removed"@,
            GitHubConnectionStatus::Disconnected => "disconnected"@,
        },
{
    match status {
        GitHubConnectionStatus::Active => "active",
        GitHubConnectionStatus::AccessRemoved => "access_removed",
        GitHubConnectionStatus::Disconnected => "disconnected",
    }
}

/// Reads a stored connection status; anything unrecognised reads as
/// active.
pub fn parse_connection_status(value: &str) -> (r: GitHubConnectionStatus)
    ensures
        r == if value@ == "access_removed"@ {
            GitHubConnectionStatus::AccessRemoved
        } else if value@ == "disconnected"@ {
            GitHubConnectionStatus::Disconnected
        } else {
            GitHubConnectionStatus::Active
        },
{
    if same_text(value, "access_removed") {
        GitHubConnectionStatus::AccessRemoved
    } else if same_text(value, "disconnected") {
        GitHubConnectionStatus::Disconnected
    } else {
        GitHubConnectionStatus::Active
    }
}

/// Which repositories an installation covers.
#[derive(Debug, Clone, Copy, PartialEq, Eq, Structural)]
pub enum GitHubRepositorySelection {
    Selected,
    All,
}

/// The stored text of a repository selection.
pub fn selection_text(selection: GitHubRepositorySelection) -> (r: &'static str)
    ensures
        r@ == match selection {
            GitHubRepositorySelection::Selected => "selected"@,
            GitHubRepositorySelection::All => "all"@,
        },
{
    match selection {
        GitHubRepositorySelection::Selected => "selected",
        GitHubRepositorySelection::All => "all",
    }
}

/// Reads a stored repository selection; anything but `all` reads as
/// selected.
pub fn parse_selection(value: &str) -> (r: GitHubRepositorySelection)
    ensures
        r == if value@ == "all"@ {
            GitHubRepositorySelection::All
        } else {
            GitHubRepositorySelection::Selected
        },
{
    if same_text(value, "all") {
        GitHubRepositorySelection::All
    } else {
        GitHubRepositorySelection::Selected
    }
}

/// When a draft pull request closes, a merged one awaits verification and
/// an unmerged one is closed.
pub fn pull_request_closed_status(merged: bool) -> (r: GitHubIntegrationJobStatus)
    ensures
        merged ==> r == GitHubIntegrationJobStatus::AwaitingVerification,
        !merged ==> r == GitHubIntegrationJobStatus::ClosedUnmerged,
{
    if merged {
        GitHubIntegrationJobStatus::AwaitingVerification
    } else {
        GitHubIntegrationJobStatus::ClosedUnmerged
    }
}

/// The stored status is one of the expected ones.
pub open spec fn status_expected(expected: Seq<GitHubIntegrationJobStatus>, current: Seq<char>) -> bool {
    exists|i: int| 0 <= i < expected.len() && job_status_spec(#[trigger] expected[i]) == current
}

/// A transition applies only to a job in one of the expected states.
pub fn check_expected_status(expected: &Vec<GitHubIntegrationJobStatus>, current: &str) -> (r: Result<
    (),
    StorageError,
>)
    ensures
        r is Ok <==> status_expected(expected@, current@),
        r is Err ==> r == Err::<(), StorageError>(StorageError::Conflict),
{
    let mut i: usize = 0;
    while i < expected.len()
        invariant
            i <= expected.len(),
            forall|k: int| 0 <= k < i ==> job_status_spec(#[trigger] expected@[k]) != current@,
        decreases expected.len() - i,
    {
        if same_text(job_status_text(expected[i]), current) {
            return Ok(());
        }
        i = i + 1;
    }
    Err(StorageError::Conflict)
}

/// The scalar fields a job transition may set; unset ones keep their
/// stored values. Instants are plain integers on one clock.
#[derive(Debug, Clone, PartialEq, Eq)]
pub struct JobFieldValues {
    pub base_sha: Option<String>,
    pub branch_name: Option<String>,
    pub commit_sha: Option<String>,
    pub pull_request_number: Option<i64>,
    pub pull_request_url: Option<String>,
    pub error_code: Option<String>,
    pub error_message: Option<String>,
    pub analysis_completed_at: Option<i64>,
    pub pr_opened_at: Option<i64>,
    pub pr_merged_at: Option<i64>,
    pub first_verified_trace_at: Option<i64>,
}

/// `a` if set, else `b`.
pub open spec fn or_else<T>(a: Option<T>, b: Option<T>) -> Option<T> {
    match a {
        Some(v) => Some(v),
        None => b,
    }
}

/// Every field of the update that is set, over the stored job.
pub open spec fn merged_fields(update: JobFieldValues, current: JobFieldValues) -> JobFieldValues {
    JobFieldValues {
        base_sha: or_else(update.base_sha, current.base_sha),
        branch_name: or_else(update.branch_name, current.branch_name),
        commit_sha: or_else(update.commit_sha, current.commit_sha),
        pull_request_number: or_else(update.pull_request_number, current.pull_request_number),
        pull_request_url: or_else(update.pull_request_url, current.pull_request_url),
        error_code: or_else(update.error_code, current.error_code),
        error_message: or_else(update.error_message, current.error_message),
        analysis_completed_at: or_else(update.analysis_completed_at, current.analysis_completed_at),
        pr_opened_at: or_else(update.pr_opened_at, current.pr_opened_at),
        pr_merged_at: or_else(update.pr_merged_at, current.pr_merged_at),
        first_verified_trace_at: or_else(
            update.first_verified_trace_at,
            current.first_verified_trace_at,
        ),
    }
}

fn or_text(a: Option<String>, b: Option<String>) -> (r: Option<String>)
    ensures
        r == or_else(a, b),
{
    match a {
        Some(v) => Some(v),
        None => b,
    }
}

fn or_int(a: Option<i64>, b: Option<i64>) -> (r: Option<i64>)
    ensures
        r == or_else(a, b),
{
    match a {
        Some(v) => Some(v),
        None => b,
    }
}

/// The fields a job has after a transition.
pub fn merge_job_fields(update: JobFieldValues, current: JobFieldValues) -> (r: JobFieldValues)
    ensures
        r == merged_fields(update, current),
{
    JobFieldValues {
        base_sha: or_text(update.base_sha, current.base_sha),
        branch_name: or_text(update.branch_name, current.branch_name),
        commit_sha: or_text(update.commit_sha, current.commit_sha),
        pull_request_number: or_int(update.pull_request_number, current.pull_request_number),
        pull_request_url: or_text(update.pull_request_url, current.pull_request_url),
        error_code: or_text(update.error_code, current.error_code),
        error_message: or_text(update.error_message, current.error_message),
        analysis_completed_at: or_int(update.analysis_completed_at, current.analysis_completed_at),
        pr_opened_at: or_int(update.pr_opened_at, current.pr_opened_at),
        pr_merged_at: or_int(update.pr_merged_at, current.pr_merged_at),
        first_verified_trace_at: or_int(
            update.first_verified_trace_at,
            current.first_verified_trace_at,
        ),
    }
}

/// A transition that sets nothing keeps the stored fields, and applying
/// the same update twice is the same as applying it once.
pub proof fn law_merge_job_fields(update: JobFieldValues, current: JobFieldValues)
    ensures
        merged_fields(
            JobFieldValues {
                base_sha: None,
                branch_name: None,
                commit_sha: None,
                pull_request_number: None,
                pull_request_url: None,
                error_code: None,
                error_message: None,
                analysis_completed_at: None,
                pr_opened_at: None,
                pr_merged_at: None,
                first_verified_trace_at: None,
            },
            current,
        ) == current,
        merged_fields(update, merged_fields(update, current)) == merged_fields(update, current),
{
}

} // verus!
