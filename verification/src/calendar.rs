//! Calendar dates of points in time, from the `chrono` crate.

use vstd::prelude::*;

verus! {

/// The first second of the first day of the calendar, January 1 of the year -262143, in seconds
/// since the Unix epoch.
pub const FIRST_SECOND: i64 = -8_334_601_228_800;

/// The last second of the last day of the calendar, December 31 of the year 262142.
pub const LAST_SECOND: i64 = 8_210_266_876_799;

/// Whether there is a UTC date and time for that many seconds since the Unix epoch and
/// nanoseconds. The nanoseconds of a leap second go on from one billion, in the last second of a
/// minute.
pub open spec fn has_date(secs: i64, nanos: u32) -> bool {
    &&& FIRST_SECOND <= secs <= LAST_SECOND
    &&& nanos < 1_000_000_000 || (nanos < 2_000_000_000 && secs as int % 60 == 59)
}

/// The RFC 3339 text of a point in time, in UTC, with as many digits of the second's fraction
/// as it needs.
pub uninterp spec fn rfc3339(secs: i64, nanos: u32) -> Seq<char>;

/// `chrono::DateTime::from_timestamp` gives a date and time exactly where there is one: the day
/// is one of the calendar's, and the nanoseconds are below a second, or below two in the last
/// second of a minute.
#[verifier::external_body]
pub(crate) fn in_calendar(secs: i64, nanos: u32) -> (r: bool)
    ensures
        r == has_date(secs, nanos),
{
    chrono::DateTime::from_timestamp(secs, nanos).is_some()
}

/// `chrono::DateTime::to_rfc3339_opts`, for the point in time in UTC, with automatic precision
/// and `Z` for the offset. There is a date, so the conversion before it does not fail.
#[verifier::external_body]
pub(crate) fn format_time(secs: i64, nanos: u32) -> (r: String)
    requires
        has_date(secs, nanos),
    ensures
        r@ == rfc3339(secs, nanos),
{
    chrono::DateTime::from_timestamp(secs, nanos)
        .unwrap()
        .to_rfc3339_opts(chrono::SecondsFormat::AutoSi, true)
}

/// The date and time of a point in time, in UTC, in compact form with milliseconds.
pub uninterp spec fn compact_stamp(secs: i64, nanos: u32) -> Seq<char>;

/// `chrono::DateTime::format`, for the point in time in UTC, with the pattern
/// `%Y%m%dT%H%M%S%.3f`. There is a date, so the conversion before it does not fail.
#[verifier::external_body]
pub(crate) fn format_stamp(secs: i64, nanos: u32) -> (r: String)
    requires
        has_date(secs, nanos),
    ensures
        r@ == compact_stamp(secs, nanos),
{
    chrono::DateTime::from_timestamp(secs, nanos).unwrap().format("%Y%m%dT%H%M%S%.3f").to_string()
}

} // verus!
