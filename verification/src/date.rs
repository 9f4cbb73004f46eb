//! Days of the calendar.

use vstd::prelude::*;
use vstd::string::*;
use std::fmt::Write;
use crate::text::opt_text;

verus! {

/// A moment in universal time, written by a pattern of the `chrono` crate;
/// nothing where the calendar does not reach the moment or the pattern
/// cannot be written.
pub uninterp spec fn utc_text(secs: int, pattern: Seq<char>) -> Option<Seq<char>>;

/// Writes a moment with `chrono::DateTime::from_timestamp` and
/// `chrono::DateTime::format`.
///
/// Trusted: the result is what those give for this number of seconds since
/// 1970 and this pattern, and nothing where the first gives no moment or
/// the second cannot be written. It depends on the two arguments alone.
#[verifier::external_body]
fn format_utc(secs: i64, pattern: &str) -> (r: Option<String>)
    ensures
        opt_text(r) == utc_text(secs as int, pattern@),
{
    let moment = chrono::DateTime::from_timestamp(secs, 0)?;
    let mut text = String::new();
    match write!(text, "{}", moment.format(pattern)) {
        Ok(()) => Some(text),
        Err(_) => None,
    }
}

/// The pattern of a day: year, month and day with `-` between them.
pub open spec fn day_pattern() -> Seq<char> {
    "%Y-%m-%d"@
}

/// The day of a moment in universal time, where the calendar reaches that
/// far.
pub open spec fn utc_date(secs: int) -> Option<Seq<char>> {
    utc_text(secs, day_pattern())
}

/// The day of a moment in universal time, as `2024-05-17`; nothing where
/// the calendar does not reach that far.
pub fn utc_day(secs: i64) -> (r: Option<String>)
    ensures
        opt_text(r) == utc_date(secs as int),
{
    format_utc(secs, "%Y-%m-%d")
}

} // verus!
