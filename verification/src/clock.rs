//! The time of day in reports.

use crate::json::text_of;
use vstd::prelude::*;

verus! {

/// What `chrono` writes for the moment so many seconds after the epoch, in universal time, with
/// a format pattern: nothing if the moment is outside its calendar.
pub uninterp spec fn utc_text(seconds: i64, pattern: Seq<char>) -> Option<Seq<char>>;

/// The pattern of all times in reports.
pub open spec fn stamp_pattern() -> Seq<char> {
    "%Y-%m-%d %H:%M:%S UTC"@
}

/// `chrono::DateTime::from_timestamp` and `DateTime::format`: the moment in universal time, as
/// the pattern says. The text of a pattern that `chrono` cannot read cannot be made; the pattern
/// of the reports is one that it can.
#[verifier::external_body]
fn format_utc(seconds: i64, pattern: &str) -> (r: Option<String>)
    requires
        pattern@ == stamp_pattern(),
    ensures
        text_of(r) == utc_text(seconds, pattern@),
{
    match chrono::DateTime::from_timestamp(seconds, 0) {
        Some(moment) => Some(moment.format(pattern).to_string()),
        None => None,
    }
}

/// The moment so many seconds after the epoch, as reports show it.
pub fn utc_stamp(seconds: i64) -> (r: Option<String>)
    ensures
        text_of(r) == utc_text(seconds, stamp_pattern()),
{
    format_utc(seconds, "%Y-%m-%d %H:%M:%S UTC")
}

} // verus!
