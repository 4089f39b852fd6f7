//! Calendar dates, and the reading of creation timestamps.

use vstd::prelude::*;
use chrono::{Datelike, NaiveDate, ParseError};

verus! {

/// A day of the calendar.
#[derive(Clone, Copy, Debug, PartialEq, Eq, Structural)]
pub struct Date {
    pub year: i32,
    pub month: u32,
    pub day: u32,
}

impl Date {
    /// The month and the day lie in the ranges that a calendar has.
    pub open spec fn in_calendar(self) -> bool {
        1 <= self.month <= 12 && 1 <= self.day <= 31
    }
}

/// The failure of `chrono` to read a date.
#[verifier::external_type_specification]
#[verifier::external_body]
pub struct ExParseError(ParseError);

/// Year, month and day of the date that `chrono` reads from `text` under
/// the pattern `format`; `None` where it reads none.
pub uninterp spec fn parsed_date(text: Seq<char>, format: Seq<char>) -> Option<(i32, u32, u32)>;

/// The date that a timestamp denotes under a pattern, if it denotes one.
pub open spec fn date_of(text: Seq<char>, format: Seq<char>) -> Option<Date> {
    match parsed_date(text, format) {
        Some((year, month, day)) => Some(Date { year, month, day }),
        None => None,
    }
}

/// Calls `chrono::NaiveDate::parse_from_str` and takes the date apart with
/// `Datelike::year`, `month` and `day`.
///
/// Trusted: the outcome is a function of the two strings alone, and the date
/// that comes out has a month from 1 to 12 and a day from 1 to 31.
#[verifier::external_body]
fn parse_naive_date(text: &str, format: &str) -> (r: Result<Date, ParseError>)
    ensures
        r is Ok <==> parsed_date(text@, format@) is Some,
        r matches Ok(date) ==> parsed_date(text@, format@) == Some((date.year, date.month, date.day))
            && date.in_calendar(),
{
    let date = NaiveDate::parse_from_str(text, format)?;
    Ok(Date { year: date.year(), month: date.month(), day: date.day() })
}

/// The pattern of the creation timestamps of the export: day of the month,
/// abbreviated month name and two-digit year, then hour, minute and AM or
/// PM, as in `5/Jan/23 09:00 AM`.
pub const CREATED_FORMAT: &'static str = "%-d/%b/%y %I:%M %p";

/// Reads the calendar date of a timestamp under a pattern; the time of day
/// is dropped.
pub fn parse_date(text: &str, format: &str) -> (date: Option<Date>)
    ensures
        date == date_of(text@, format@),
        date matches Some(d) ==> d.in_calendar(),
{
    match parse_naive_date(text, format) {
        Ok(date) => Some(date),
        Err(_) => None,
    }
}

/// Reads the calendar date of a creation timestamp.
pub fn parse_created(text: &str) -> (date: Option<Date>)
    ensures
        date == date_of(text@, CREATED_FORMAT@),
        date matches Some(d) ==> d.in_calendar(),
{
    parse_date(text, CREATED_FORMAT)
}

} // verus!
