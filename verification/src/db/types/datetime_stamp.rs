//! Timestamps as they are stored in the database: RFC 3339 text in UTC.
use vstd::prelude::*;
use vstd::string::*;

use crate::text::opt_chars;

verus! {

/// What `chrono` makes of `text`: `None` where `DateTime::parse_from_rfc3339` rejects it,
/// else the RFC 3339 rendering (`DateTime::<Utc>::to_rfc3339`) of the parsed instant in UTC.
pub uninterp spec fn spec_rfc3339_in_utc(text: Seq<char>) -> Option<Seq<char>>;

/// Calls `chrono::DateTime::parse_from_rfc3339` on `text`; a parsed instant is moved to UTC
/// (`with_timezone(&Utc)`) and rendered with `to_rfc3339`. The contract only ties the result
/// to `spec_rfc3339_in_utc` of the argument: which texts parse, and how they render, is
/// chrono's and is not stated here.
#[verifier::external_body]
fn rfc3339_in_utc(text: &str) -> (r: Option<String>)
    ensures
        opt_chars(r) == spec_rfc3339_in_utc(text@),
{
    chrono::DateTime::parse_from_rfc3339(text).ok().map(|dt| dt.with_timezone(&chrono::Utc).to_rfc3339())
}

/// Why a column could not be read as a timestamp.
#[derive(Debug, Clone, Copy, PartialEq, Eq, Structural)]
pub enum TimestampError {
    /// The column is not text, or the text is not an RFC 3339 date and time.
    InvalidType,
}

/// A point in time, held as its RFC 3339 rendering in UTC, the form in which it is written
/// to and read from the database.
#[derive(Debug)]
pub struct DateTimeStamp {
    utc_text: String,
}

impl View for DateTimeStamp {
    type V = Seq<char>;

    closed spec fn view(&self) -> Seq<char> {
        self.utc_text@
    }
}

impl DateTimeStamp {
    /// Reads a column value: `value` is the column's text, `None` where the column does not
    /// hold text. The text may carry any UTC offset; the stamp holds the same instant in UTC.
    pub fn column_result(value: Option<&str>) -> (r: Result<DateTimeStamp, TimestampError>)
        ensures
            match value {
                None => r == Err::<DateTimeStamp, TimestampError>(TimestampError::InvalidType),
                Some(text) => match spec_rfc3339_in_utc(text@) {
                    None => r == Err::<DateTimeStamp, TimestampError>(TimestampError::InvalidType),
                    Some(utc) => r matches Ok(stamp) && stamp@ == utc,
                },
            },
    {
        match value {
            None => Err(TimestampError::InvalidType),
            Some(text) => match rfc3339_in_utc(text) {
                None => Err(TimestampError::InvalidType),
                Some(utc_text) => Ok(DateTimeStamp { utc_text }),
            },
        }
    }

    /// The text written to the database for this stamp.
    pub fn to_sql(&self) -> (r: String)
        ensures
            r@ == self@,
    {
        self.utc_text.clone()
    }

    /// The stamp as it is displayed: its RFC 3339 text in UTC.
    pub fn to_string(&self) -> (r: String)
        ensures
            r@ == self@,
    {
        self.utc_text.clone()
    }
}

impl Clone for DateTimeStamp {
    /// The same instant.
    fn clone(&self) -> (r: DateTimeStamp)
        ensures
            r@ == self@,
    {
        DateTimeStamp { utc_text: self.utc_text.clone() }
    }
}

} // verus!
