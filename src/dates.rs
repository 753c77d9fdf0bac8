use vstd::prelude::*;

use chrono::Datelike;

verus! {

/// The calendar date that `s` spells in the form `year-month-day`, if it spells one.
pub uninterp spec fn ymd_of(s: Seq<char>) -> Option<(i32, u32, u32)>;

/// The date `year-month-day` written as in an RSS feed (`Mon, 06 Aug 2018 00:00:00 UTC`),
/// if it is a calendar date.
pub uninterp spec fn rfc822_of(year: i32, month: u32, day: u32) -> Option<Seq<char>>;

/// Relies on chrono's `NaiveDate::parse_from_str` with the format `%Y-%m-%d`: it yields
/// a calendar date or fails, and its result depends on the text alone.
#[verifier::external_body]
pub(crate) fn parse_ymd(s: &str) -> (r: Option<(i32, u32, u32)>)
    ensures
        r == ymd_of(s@),
        r matches Some(d) ==> 1 <= d.1 <= 12 && 1 <= d.2 <= 31,
{
    match chrono::NaiveDate::parse_from_str(s, "%Y-%m-%d") {
        Ok(d) => Some((d.year(), d.month(), d.day())),
        Err(_) => None,
    }
}

/// Relies on chrono's `NaiveDate::from_ymd_opt` and its `format` with
/// `%a, %d %b %Y 00:00:00 UTC`: `None` for a day that is not a calendar date.
#[verifier::external_body]
pub(crate) fn format_rfc822(year: i32, month: u32, day: u32) -> (r: Option<String>)
    ensures
        r matches Some(t) ==> rfc822_of(year, month, day) == Some(t@),
        r is None ==> rfc822_of(year, month, day) is None,
{
    match chrono::NaiveDate::from_ymd_opt(year, month, day) {
        Some(d) => Some(d.format("%a, %d %b %Y 00:00:00 UTC").to_string()),
        None => None,
    }
}

/// Relies on chrono's `Local::now`: the year of the local date at the time of the call.
#[verifier::external_body]
pub(crate) fn current_year() -> (r: i32) {
    chrono::Local::now().year()
}

/// Whether the date `a` comes before the date `b`.
pub open spec fn date_before(a: (i32, u32, u32), b: (i32, u32, u32)) -> bool {
    a.0 < b.0 || (a.0 == b.0 && (a.1 < b.1 || (a.1 == b.1 && a.2 < b.2)))
}

pub fn date_before_exec(a: (i32, u32, u32), b: (i32, u32, u32)) -> (r: bool)
    ensures
        r == date_before(a, b),
{
    a.0 < b.0 || (a.0 == b.0 && (a.1 < b.1 || (a.1 == b.1 && a.2 < b.2)))
}

} // verus!
