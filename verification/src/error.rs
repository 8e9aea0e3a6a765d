//! The storage layer's error, and how database failures map onto it.

use vstd::prelude::*;
use vstd::string::StringExecFns;

verus! {

/// The storage layer's error: a missing row, a conflicting write, or an
/// internal failure with a message.
#[derive(Debug, Clone, PartialEq, Eq)]
pub enum StorageError {
    NotFound,
    Conflict,
    Internal(String),
}

/// `e` is an internal failure whose message reads `msg`.
pub open spec fn is_internal(e: StorageError, msg: Seq<char>) -> bool {
    e matches StorageError::Internal(m) && m@ == msg
}

/// An internal failure with message `msg`.
pub fn internal(msg: &str) -> (e: StorageError)
    ensures
        is_internal(e, msg@),
{
    StorageError::Internal(msg.to_owned())
}

/// An internal failure whose message is `prefix` followed by `detail`.
pub fn internal_with(prefix: &str, detail: &str) -> (e: StorageError)
    ensures
        is_internal(e, prefix@ + detail@),
{
    let mut m = prefix.to_owned();
    m.append(detail);
    StorageError::Internal(m)
}

/// An internal failure whose message is `prefix`, then `detail`, then
/// `suffix`.
pub fn internal_around(prefix: &str, detail: &str, suffix: &str) -> (e: StorageError)
    ensures
        is_internal(e, prefix@ + detail@ + suffix@),
{
    let mut m = prefix.to_owned();
    m.append(detail);
    m.append(suffix);
    StorageError::Internal(m)
}

/// What a database failure amounts to for the storage layer: no row, a
/// unique-key violation, or another failure with its message.
#[derive(Debug, Clone, PartialEq, Eq)]
pub enum DbFailure {
    NoRow,
    UniqueViolation,
    Other(String),
}

/// Maps a database failure to a storage error: a missing row is not
/// found, a unique violation a conflict, anything else internal with the
/// failure's message.
pub fn storage_error_from_db(failure: DbFailure) -> (e: StorageError)
    ensures
        failure == DbFailure::NoRow ==> e == StorageError::NotFound,
        failure == DbFailure::UniqueViolation ==> e == StorageError::Conflict,
        failure matches DbFailure::Other(m) ==> is_internal(e, m@),
{
    match failure {
        DbFailure::NoRow => StorageError::NotFound,
        DbFailure::UniqueViolation => StorageError::Conflict,
        DbFailure::Other(m) => StorageError::Internal(m),
    }
}

} // verus!
