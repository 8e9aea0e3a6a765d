//! UUID identifiers as 128-bit integers: parsing them from text, rendering
//! them, and how each store reports an identifier that does not parse.

use vstd::prelude::*;
use vstd::string::StringExecFns;
use crate::error::{StorageError, is_internal};
use crate::text::{trim, trim_chars, chars_of, string_of};
use crate::crypto::hex;
use vstd::arithmetic::power2::pow2;

verus! {

/// What `uuid::Uuid::parse_str` makes of a text: the UUID's 128-bit value
/// when it parses (simple, hyphenated, URN or braced forms), else the text
/// of its parse error.
pub uninterp spec fn spec_uuid_parse_result(text: Seq<char>) -> Result<u128, Seq<char>>;

/// The UUID a text denotes, if it parses.
pub open spec fn spec_uuid_parse(text: Seq<char>) -> Option<u128> {
    match spec_uuid_parse_result(text) {
        Ok(v) => Some(v),
        Err(_) => None,
    }
}

/// The text of the error a text that does not parse as a UUID gives.
pub open spec fn spec_uuid_error(text: Seq<char>) -> Seq<char> {
    match spec_uuid_parse_result(text) {
        Ok(_) => Seq::empty(),
        Err(m) => m,
    }
}

/// The sixteen bytes of a UUID, most significant first.
pub open spec fn uuid_bytes(value: u128) -> Seq<u8> {
    Seq::new(16, |i: int| ((value as int / pow2((8 * (15 - i)) as nat) as int) % 256) as u8)
}

/// The hyphenated lower-case text of a UUID (`Uuid`'s `Display`): the
/// lower-case hex of its bytes, in groups of 8, 4, 4, 4 and 12 digits
/// joined by `-`.
pub open spec fn spec_uuid_text(value: u128) -> Seq<char> {
    let h = hex(uuid_bytes(value));
    h.subrange(0, 8) + seq!['-'] + h.subrange(8, 12) + seq!['-'] + h.subrange(12, 16) + seq!['-']
        + h.subrange(16, 20) + seq!['-'] + h.subrange(20, 32)
}

/// `uuid::Uuid::parse_str`: the UUID's 128-bit value, or the text of the
/// parse error (its `Display`).
#[verifier::external_body]
fn parse_uuid_text(text: &str) -> (r: Result<u128, String>)
    ensures
        match spec_uuid_parse_result(text@) {
            Ok(v) => r == Ok::<u128, String>(v),
            Err(m) => r matches Err(s) && s@ == m,
        },
{
    match uuid::Uuid::parse_str(text) {
        Ok(u) => Ok(u.as_u128()),
        Err(e) => Err(e.to_string()),
    }
}

/// `uuid::Uuid::from_u128(value).to_string()`: the hyphenated text of a
/// UUID.
#[verifier::external_body]
pub(crate) fn uuid_text(value: u128) -> (r: String)
    ensures
        r@ == spec_uuid_text(value),
{
    uuid::Uuid::from_u128(value).to_string()
}

/// A version 7 UUID: its version nibble is 7 and its variant bits are `10`.
pub open spec fn is_v7_uuid(value: u128) -> bool {
    &&& (value as int / pow2(76) as int) % 16 == 7
    &&& (value as int / pow2(62) as int) % 4 == 2
}

/// `uuid::Uuid::now_v7`: a fresh version 7 UUID made from the clock and
/// random bits. Nothing but its version and variant is promised of it.
#[verifier::external_body]
fn now_v7_value() -> (r: u128)
    ensures
        is_v7_uuid(r),
{
    uuid::Uuid::now_v7().as_u128()
}

/// A fresh time-ordered identifier for a new record, as its canonical text.
pub fn new_id() -> (r: (u128, String))
    ensures
        is_v7_uuid(r.0),
        r.1@ == spec_uuid_text(r.0),
{
    let v = now_v7_value();
    (v, uuid_text(v))
}

/// The canonical text of an identifier that parses: the same UUID written
/// hyphenated in lower case.
pub fn canonical_uuid(text: &str) -> (r: Option<String>)
    ensures
        match spec_uuid_parse(text@) {
            Some(v) => r matches Some(s) && s@ == spec_uuid_text(v),
            None => r is None,
        },
{
    match parse_uuid_text(text) {
        Ok(v) => Some(uuid_text(v)),
        Err(_) => None,
    }
}

/// A financial action id; one that does not parse is the internal error
/// `invalid financial action uuid: ` followed by the parse error.
pub fn parse_action_uuid(value: &str) -> (r: Result<u128, StorageError>)
    ensures
        match spec_uuid_parse(value@) {
            Some(v) => r == Ok::<u128, StorageError>(v),
            None => r matches Err(e) && is_internal(
                e,
                "invalid financial action uuid: "@ + spec_uuid_error(value@),
            ),
        },
{
    match parse_uuid_text(value) {
        Ok(v) => Ok(v),
        Err(detail) => {
            let mut m = "invalid financial action uuid: ".to_owned();
            m.append(detail.as_str());
            Err(StorageError::Internal(m))
        },
    }
}

/// An id in a labelled field; one that does not parse is the internal
/// error of the label, ` parse: ` and the parse error.
pub fn parse_labelled_uuid(label: &str, value: &str) -> (r: Result<u128, StorageError>)
    ensures
        match spec_uuid_parse(value@) {
            Some(v) => r == Ok::<u128, StorageError>(v),
            None => r matches Err(e) && is_internal(e, label@ + " parse: "@ + spec_uuid_error(value@)),
        },
{
    match parse_uuid_text(value) {
        Ok(v) => Ok(v),
        Err(detail) => {
            let mut m = label.to_owned();
            m.append(" parse: ");
            m.append(detail.as_str());
            Err(StorageError::Internal(m))
        },
    }
}

/// An id whose failure to parse means the request conflicts with what is
/// stored (authorization records).
pub fn parse_uuid_or_conflict(value: &str) -> (r: Result<u128, StorageError>)
    ensures
        match spec_uuid_parse(value@) {
            Some(v) => r == Ok::<u128, StorageError>(v),
            None => r == Err::<u128, StorageError>(StorageError::Conflict),
        },
{
    match parse_uuid_text(value) {
        Ok(v) => Ok(v),
        Err(_) => Err(StorageError::Conflict),
    }
}

/// An id in a path that names a row; one that does not parse names no row
/// (benchmark runs, GitHub jobs).
pub fn parse_uuid_or_not_found(value: &str) -> (r: Result<u128, StorageError>)
    ensures
        match spec_uuid_parse(value@) {
            Some(v) => r == Ok::<u128, StorageError>(v),
            None => r == Err::<u128, StorageError>(StorageError::NotFound),
        },
{
    match parse_uuid_text(value) {
        Ok(v) => Ok(v),
        Err(_) => Err(StorageError::NotFound),
    }
}

/// A budget alert config id, trimmed first; one that does not parse names
/// no config.
pub fn parse_config_id(config_id: &str) -> (r: Result<u128, StorageError>)
    ensures
        match spec_uuid_parse(trim(config_id@)) {
            Some(v) => r == Ok::<u128, StorageError>(v),
            None => r == Err::<u128, StorageError>(StorageError::NotFound),
        },
{
    let t = string_of(&trim_chars(&chars_of(config_id)));
    parse_uuid_or_not_found(t.as_str())
}

/// A notification delivery id; one that does not parse is the internal
/// error `invalid UUID`.
pub fn parse_delivery_uuid(value: &str) -> (r: Result<u128, StorageError>)
    ensures
        match spec_uuid_parse(value@) {
            Some(v) => r == Ok::<u128, StorageError>(v),
            None => r matches Err(e) && is_internal(e, "invalid UUID"@),
        },
{
    match parse_uuid_text(value) {
        Ok(v) => Ok(v),
        Err(_) => Err(crate::error::internal("invalid UUID")),
    }
}

} // verus!
