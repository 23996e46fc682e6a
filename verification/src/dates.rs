//! Reading the dates of an offering.
//!
//! Dates come as RFC 3339 text (such as `2022-01-22T11:20:55+08:00`) and are
//! kept as signed nanosecond counts since the Unix epoch.

use vstd::prelude::*;

verus! {

/// What reading a date gave.
#[derive(Debug, PartialEq, Eq, Structural, Clone, Copy)]
pub enum ParsedDate {
    /// The text is not an RFC 3339 date.
    Malformed,
    /// The date cannot be counted in nanoseconds within a signed 64-bit integer.
    OutOfRange,
    /// Nanoseconds since 1970-01-01T00:00:00Z, leap seconds not counted.
    Nanos(i64),
}

/// What chrono makes of the text: `None` where its RFC 3339 parser refuses
/// it, else the parsed instant's nanosecond count since the Unix epoch when a
/// signed 64-bit integer can hold it (`Some(None)` where it cannot).
pub uninterp spec fn rfc3339_timestamp_nanos(text: Seq<char>) -> Option<Option<i64>>;

/// The reading of a date that a result of chrono stands for.
pub open spec fn parsed_date_of(r: Option<Option<i64>>) -> ParsedDate {
    match r {
        None => ParsedDate::Malformed,
        Some(None) => ParsedDate::OutOfRange,
        Some(Some(nanos)) => ParsedDate::Nanos(nanos),
    }
}

/// Reads an RFC 3339 date with `chrono::DateTime::parse_from_rfc3339`, then
/// counts it in nanoseconds with `DateTime::timestamp_nanos_opt`.
///
/// Trusted: the result is taken to be the reading of
/// `rfc3339_timestamp_nanos(text)`, a name for what these two chrono
/// functions compute from the text alone; nothing more is claimed of them.
#[verifier::external_body]
pub(crate) fn read_rfc3339(text: &str) -> (r: ParsedDate)
    ensures
        r == parsed_date_of(rfc3339_timestamp_nanos(text@)),
{
    match chrono::DateTime::parse_from_rfc3339(text) {
        Err(_) => ParsedDate::Malformed,
        Ok(datetime) => match datetime.timestamp_nanos_opt() {
            Some(nanos) => ParsedDate::Nanos(nanos),
            None => ParsedDate::OutOfRange,
        },
    }
}

/// Reads an optional date; an absent date stays absent.
pub(crate) fn read_optional_date(text: &Option<String>) -> (r: Option<ParsedDate>)
    ensures
        r == match text {
            Some(t) => Some(parsed_date_of(rfc3339_timestamp_nanos(t@))),
            None => None,
        },
{
    match text {
        Some(t) => Some(read_rfc3339(t.as_str())),
        None => None,
    }
}

} // verus!
