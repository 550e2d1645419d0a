use vstd::prelude::*;
use std::fmt::Write;

verus! {

/// The form in which a request writes an expiration date.
pub const EXPIRATION_FORMAT: &'static str = "%y/%m/%d %H:%M:%S";

/// The form in which a notice shows a date.
pub const DISPLAY_FORMAT: &'static str = "%Y-%m-%d %H:%M:%S";

/// The second since the epoch that `NaiveDateTime::parse_from_str` reads
/// from `text` under a strftime `format`, taken as UTC; `None` where the
/// text does not fit the format.
pub uninterp spec fn chrono_parse(text: Seq<char>, format: Seq<char>) -> Option<i64>;

/// The text that chrono writes for a second since the epoch, taken as UTC,
/// under a strftime `format`; `None` where the second lies outside the years
/// chrono can hold, or the format is not one it accepts.
pub uninterp spec fn chrono_format(timestamp: i64, format: Seq<char>) -> Option<Seq<char>>;

pub open spec fn view_text(text: Option<String>) -> Option<Seq<char>> {
    match text {
        Some(t) => Some(t@),
        None => None,
    }
}

/// Calls `NaiveDateTime::parse_from_str` and reads the result as seconds
/// since the epoch.
#[verifier::external_body]
fn parse_datetime(text: &str, format: &str) -> (timestamp: Option<i64>)
    ensures
        timestamp == chrono_parse(text@, format@),
{
    let parsed = chrono::NaiveDateTime::parse_from_str(text, format).ok()?;
    Some(parsed.and_utc().timestamp())
}

/// Calls `DateTime::from_timestamp` and writes what `format` makes of it.
/// Writing through `write!` turns a refused format into `None`.
#[verifier::external_body]
fn format_datetime(timestamp: i64, format: &str) -> (text: Option<String>)
    ensures
        view_text(text) == chrono_format(timestamp, format@),
{
    let moment = chrono::DateTime::from_timestamp(timestamp, 0)?;
    let mut text = String::new();
    write!(text, "{}", moment.format(format)).ok()?;
    Some(text)
}

/// Reads an expiration date as a request writes it.
pub fn parse_expiration(text: &str) -> (timestamp: Option<i64>)
    ensures
        timestamp == chrono_parse(text@, EXPIRATION_FORMAT@),
{
    parse_datetime(text, EXPIRATION_FORMAT)
}

/// Writes a date as a notice shows it.
pub fn display_date(timestamp: i64) -> (text: Option<String>)
    ensures
        view_text(text) == chrono_format(timestamp, DISPLAY_FORMAT@),
{
    format_datetime(timestamp, DISPLAY_FORMAT)
}

} // verus!
