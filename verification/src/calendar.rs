//! Instants in milliseconds since the Unix epoch: reading them from
//! RFC 3339 text, the UTC date of an instant, and the start of its day and
//! of its month.

use vstd::prelude::*;
use crate::error::{StorageError, internal_around, is_internal};

verus! {

/// Milliseconds in a UTC day.
pub const MILLIS_PER_DAY: i64 = 86_400_000;

/// The instants this module accepts: about ±250,000 years around the epoch,
/// inside the range of dates the calendar can represent.
pub const MAX_INSTANT_MILLIS: i64 = 8_000_000_000_000_000;

/// Midnight UTC of the day of `now`: the latest multiple of a day not after
/// `now`.
pub open spec fn day_start(now: int) -> int {
    now - now % (MILLIS_PER_DAY as int)
}

/// The day of the month, from 1, of the UTC date at `now`.
pub uninterp spec fn spec_utc_day_of_month(now: i64) -> u32;

/// `chrono::DateTime::<Utc>::from_timestamp_millis` followed by
/// `chrono::Datelike::day`: the day of the month of the UTC date at `now`,
/// which chrono documents as ranging from 1 to 31.
#[verifier::external_body]
fn utc_day_of_month(now: i64) -> (r: u32)
    requires
        -MAX_INSTANT_MILLIS <= now <= MAX_INSTANT_MILLIS,
    ensures
        r == spec_utc_day_of_month(now),
        1 <= r <= 31,
{
    match chrono::DateTime::from_timestamp_millis(now) {
        Some(at) => chrono::Datelike::day(&at),
        None => 1,
    }
}

/// Midnight UTC of the day of `now`.
pub fn start_of_day_millis(now: i64) -> (r: i64)
    requires
        -MAX_INSTANT_MILLIS <= now <= MAX_INSTANT_MILLIS,
    ensures
        r == day_start(now as int),
        r <= now < r + MILLIS_PER_DAY,
        (r as int) % (MILLIS_PER_DAY as int) == 0,
{
    if now >= 0 {
        let rem: i64 = now % MILLIS_PER_DAY;
        now - rem
    } else {
        let back: i64 = -now;
        let rem: i64 = back % MILLIS_PER_DAY;
        assert((now as int) % (MILLIS_PER_DAY as int) == if rem == 0 {
            0
        } else {
            MILLIS_PER_DAY - rem
        }) by (nonlinear_arith)
            requires
                back == -now,
                rem == back % MILLIS_PER_DAY,
                back > 0,
        ;
        if rem == 0 {
            now
        } else {
            now - (MILLIS_PER_DAY - rem)
        }
    }
}

/// Midnight UTC of the first day of the month of `now`: the start of its
/// day, less one day for each day of the month before it.
pub fn start_of_month_millis(now: i64) -> (r: i64)
    requires
        -MAX_INSTANT_MILLIS <= now <= MAX_INSTANT_MILLIS,
    ensures
        r == day_start(now as int) - (spec_utc_day_of_month(now) - 1) * MILLIS_PER_DAY,
        r <= now,
        (r as int) % (MILLIS_PER_DAY as int) == 0,
{
    let day_start_at = start_of_day_millis(now);
    let day = utc_day_of_month(now);
    let earlier: i64 = (day as i64 - 1) * MILLIS_PER_DAY;
    assert((day_start_at - earlier) % (MILLIS_PER_DAY as int) == 0) by (nonlinear_arith)
        requires
            (day_start_at as int) % (MILLIS_PER_DAY as int) == 0,
            earlier == (day - 1) * MILLIS_PER_DAY,
    ;
    day_start_at - earlier
}

/// What reading `text` as an RFC 3339 timestamp gives: its instant in
/// milliseconds since the epoch, or the parser's description of why the
/// text is not one.
pub uninterp spec fn spec_rfc3339_millis(text: Seq<char>) -> Result<i64, Seq<char>>;

/// `chrono::DateTime::parse_from_rfc3339` followed by `timestamp_millis`:
/// the instant of an RFC 3339 timestamp, or the text of chrono's parse
/// error.
#[verifier::external_body]
fn rfc3339_millis(text: &str) -> (r: Result<i64, String>)
    ensures
        match spec_rfc3339_millis(text@) {
            Ok(v) => r == Ok::<i64, String>(v),
            Err(m) => r matches Err(s) && s@ == m,
        },
{
    match chrono::DateTime::parse_from_rfc3339(text) {
        Ok(at) => Ok(at.timestamp_millis()),
        Err(e) => Err(e.to_string()),
    }
}

/// Reads a request timestamp; text that is not RFC 3339 conflicts with the
/// request.
pub fn parse_time(value: &str) -> (r: Result<i64, StorageError>)
    ensures
        match spec_rfc3339_millis(value@) {
            Ok(v) => r == Ok::<i64, StorageError>(v),
            Err(_) => r == Err::<i64, StorageError>(StorageError::Conflict),
        },
{
    match rfc3339_millis(value) {
        Ok(v) => Ok(v),
        Err(_) => Err(StorageError::Conflict),
    }
}

/// Reads an optional request timestamp (see [`parse_time`]).
pub fn parse_optional_time(value: Option<&str>) -> (r: Result<Option<i64>, StorageError>)
    ensures
        match value {
            None => r == Ok::<Option<i64>, StorageError>(None),
            Some(t) => match spec_rfc3339_millis(t@) {
                Ok(v) => r == Ok::<Option<i64>, StorageError>(Some(v)),
                Err(_) => r == Err::<Option<i64>, StorageError>(StorageError::Conflict),
            },
        },
{
    match value {
        None => Ok(None),
        Some(t) => match parse_time(t) {
            Ok(v) => Ok(Some(v)),
            Err(e) => Err(e),
        },
    }
}

/// Reads the timestamp field `name`; text that is not RFC 3339 is an
/// internal failure naming the field and the parse error.
pub fn parse_rfc3339(name: &str, value: &str) -> (r: Result<i64, StorageError>)
    ensures
        match spec_rfc3339_millis(value@) {
            Ok(v) => r == Ok::<i64, StorageError>(v),
            Err(m) => r matches Err(e) && is_internal(e, name@ + ": "@ + m),
        },
{
    match rfc3339_millis(value) {
        Ok(v) => Ok(v),
        Err(m) => Err(internal_around(name, ": ", m.as_str())),
    }
}

/// The UTC calendar date of `millis`, as `YYYY-MM-DD`.
pub uninterp spec fn spec_utc_date_text(millis: i64) -> Seq<char>;

/// `chrono::DateTime::<Utc>::from_timestamp_millis`, then `date_naive` and
/// its `Display`: the UTC date of the instant.
#[verifier::external_body]
pub(crate) fn utc_date_text(millis: i64) -> (r: String)
    requires
        -MAX_INSTANT_MILLIS <= millis <= MAX_INSTANT_MILLIS,
    ensures
        r@ == spec_utc_date_text(millis),
{
    match chrono::DateTime::from_timestamp_millis(millis) {
        Some(at) => at.date_naive().to_string(),
        None => String::new(),
    }
}

} // verus!
