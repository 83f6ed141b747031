//! Civil date and time of a block, read with a fixed format.

use chrono::{Datelike, NaiveDateTime, Timelike};
use vstd::prelude::*;

verus! {

/// The format of the time stamp that opens a block: `MM/DD/YYYY HH:MM:SS`.
pub const DATE_FORMAT: &'static str = "%m/%d/%Y %H:%M:%S";

/// A date and a time of day without a zone: the fields as they were written
/// in the log.
#[derive(Clone, Copy, Debug, PartialEq, Eq, Structural)]
pub struct Timestamp {
    pub year: i32,
    pub month: u32,
    pub day: u32,
    pub hour: u32,
    pub minute: u32,
    pub second: u32,
    /// Nanoseconds past the whole second; a thousand million or more only
    /// within a leap second.
    pub nanosecond: u32,
}

/// `chrono::ParseError`, why a text is no date and time.
#[verifier::external_type_specification]
#[verifier::external_body]
pub struct ExParseError(chrono::ParseError);

/// The date and time that `NaiveDateTime::parse_from_str` reads from `text`
/// under `format`; `None` where it reports an error.
pub uninterp spec fn parsed_datetime(text: Seq<char>, format: Seq<char>) -> Option<Timestamp>;

/// Calls `NaiveDateTime::parse_from_str` and copies the fields of what it
/// read. Trusted: the outcome depends on the text and the format alone.
#[verifier::external_body]
pub(crate) fn parse_datetime(text: &str, format: &str) -> (r: Result<Timestamp, chrono::ParseError>)
    ensures
        r is Ok <==> parsed_datetime(text@, format@) is Some,
        r matches Ok(t) ==> parsed_datetime(text@, format@) == Some(t),
{
    let t = NaiveDateTime::parse_from_str(text, format)?;
    Ok(Timestamp {
        year: t.year(),
        month: t.month(),
        day: t.day(),
        hour: t.hour(),
        minute: t.minute(),
        second: t.second(),
        nanosecond: t.nanosecond(),
    })
}

} // verus!
