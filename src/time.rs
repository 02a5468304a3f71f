//! Instants as seconds since the Unix epoch, and the license-category rule
//! that depends on them.
use vstd::prelude::*;

verus! {

/// Seconds since the Unix epoch of a `YYYY-MM-DDTHH:MM:SSZ` text, or `None`
/// where the text is not such a time.
pub uninterp spec fn utc_seconds_of(s: Seq<char>) -> Option<i64>;

/// Relies on chrono's `NaiveDateTime::parse_from_str` with the format
/// `%Y-%m-%dT%H:%M:%SZ`, and on `and_utc().timestamp()` to count the seconds
/// since the epoch: the result depends on the text alone.
#[verifier::external_body]
fn parse_utc_seconds(s: &str) -> (r: Option<i64>)
    ensures
        r == utc_seconds_of(s@),
{
    match chrono::NaiveDateTime::parse_from_str(s, "%Y-%m-%dT%H:%M:%SZ") {
        Ok(d) => Some(d.and_utc().timestamp()),
        Err(_) => None,
    }
}

/// The year of a `YYYY-MM-DD` date, and the seconds since the epoch of its
/// first instant in UTC; `None` where the text is not such a date.
pub uninterp spec fn join_date_of(s: Seq<char>) -> Option<(i32, i64)>;

/// Relies on chrono's `NaiveDate::parse_from_str` with the format `%Y-%m-%d`,
/// on `Datelike::year`, and on `and_time(NaiveTime::MIN).and_utc().timestamp()`
/// for the date's midnight in UTC: the result depends on the text alone.
#[verifier::external_body]
fn parse_join_date(s: &str) -> (r: Option<(i32, i64)>)
    ensures
        r == join_date_of(s@),
{
    match chrono::NaiveDate::parse_from_str(s, "%Y-%m-%d") {
        Ok(d) => Some((chrono::Datelike::year(&d), d.and_time(chrono::NaiveTime::MIN).and_utc().timestamp())),
        Err(_) => None,
    }
}

/// The year a driver joined and the instant of that day's start, from the
/// `member_since` date upstream gives.
pub fn join_date(s: &str) -> (r: Option<(i32, i64)>)
    ensures
        r == join_date_of(s@),
{
    parse_join_date(s)
}

/// 2020-11-08T00:00:00Z: from this instant on, upstream reports a
/// subsession's license category through its track.
pub const CATEGORY_CUTOVER: i64 = 1604793600;

/// The license category of a subsession: its own field before the cutover,
/// the track's field at or after it.
pub open spec fn corrected_category(start_time: i64, subsession_category: i64, track_category: i64) -> i64 {
    if start_time < CATEGORY_CUTOVER {
        subsession_category
    } else {
        track_category
    }
}

pub fn corrected_license_category(start_time: i64, subsession_category: i64, track_category: i64) -> (r: i64)
    ensures
        r == corrected_category(start_time, subsession_category, track_category),
{
    if start_time < CATEGORY_CUTOVER {
        subsession_category
    } else {
        track_category
    }
}


/// Seconds since the epoch of an upstream start time, or `None` where the
/// text is not one.
pub fn start_time_seconds(s: &str) -> (r: Option<i64>)
    ensures
        r == utc_seconds_of(s@),
{
    parse_utc_seconds(s)
}

/// The corrected license category of a subsession whose start time is given
/// as upstream writes it; `None` where the start time does not parse.
pub fn category_at(start_time: &str, subsession_category: i64, track_category: i64) -> (r: Option<i64>)
    ensures
        r == match utc_seconds_of(start_time@) {
            Some(t) => Some(corrected_category(t, subsession_category, track_category)),
            None => None::<i64>,
        },
{
    match parse_utc_seconds(start_time) {
        Some(t) => Some(corrected_license_category(t, subsession_category, track_category)),
        None => None,
    }
}

} // verus!
