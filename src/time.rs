//! Formatting of commit timestamps.
use vstd::prelude::*;
use chrono::{DateTime, FixedOffset, NaiveDateTime};

verus! {

/// A point in time as seconds since the Unix epoch, with the UTC offset in
/// minutes of the place where it was recorded.
#[derive(PartialEq, Eq, Structural, Clone, Copy, Debug)]
pub struct Time {
    pub seconds: i64,
    pub offset_minutes: i32,
}

/// Why a timestamp could not be formatted.
#[derive(PartialEq, Eq, Structural, Clone, Copy, Debug)]
pub enum TimeError {
    /// The seconds lie outside the range of calendar dates.
    SecondsOutOfRange,
    /// The offset is not strictly within one day of UTC.
    OffsetOutOfRange,
}

/// The first second of the calendar's range: January 1 of year -262143, UTC.
pub const MIN_TIMESTAMP: i64 = -8_334_601_228_800;

/// The last second of the calendar's range: December 31 of year 262142, 23:59:59 UTC.
pub const MAX_TIMESTAMP: i64 = 8_210_266_876_799;

/// Whether seconds since the epoch fall within the calendar's range.
pub open spec fn timestamp_in_range(secs: int) -> bool {
    MIN_TIMESTAMP <= secs <= MAX_TIMESTAMP
}

/// The compact rendering (`YYYY-MM-DD HH:MM`, in UTC) of a timestamp.
pub uninterp spec fn short_form(secs: int) -> Seq<char>;

/// The long rendering (`Mon, 2024 Jan 5 14:03:22 +0000`) of a timestamp,
/// in the given offset from UTC in seconds.
pub uninterp spec fn long_form(secs: int, offset_secs: int) -> Seq<char>;

/// Relies on `NaiveDateTime::from_timestamp_opt` and `FixedOffset::east_opt`
/// to build a `DateTime` with `DateTime::from_naive_utc_and_offset`, and on
/// its `format`: the long rendering, or `None` where the seconds are out of
/// range (the source of `from_timestamp_opt` returns exactly when
/// `DateTime::from_timestamp` does) or the offset is not strictly within one
/// day.
#[verifier::external_body]
fn format_long(secs: i64, offset_secs: i32) -> (r: Option<String>)
    ensures
        r is Some <==> (timestamp_in_range(secs as int) && -86_400 < offset_secs < 86_400),
        r matches Some(s) ==> s@ == long_form(secs as int, offset_secs as int),
{
    #[allow(deprecated)]
    let utc = NaiveDateTime::from_timestamp_opt(secs, 0);
    match (utc, FixedOffset::east_opt(offset_secs)) {
        (Some(u), Some(o)) => Some(
            DateTime::<FixedOffset>::from_naive_utc_and_offset(u, o)
                .format("%a, %Y %b %-d %H:%M:%S %z")
                .to_string(),
        ),
        _ => None,
    }
}

/// Relies on `DateTime::from_timestamp` and its `format`: the compact
/// rendering, or `None` where the seconds are out of range.
#[verifier::external_body]
fn format_short(secs: i64) -> (r: Option<String>)
    ensures
        r is Some <==> timestamp_in_range(secs as int),
        r matches Some(s) ==> s@ == short_form(secs as int),
{
    match DateTime::from_timestamp(secs, 0) {
        Some(dt) => Some(dt.format("%Y-%m-%d %H:%M").to_string()),
        None => None,
    }
}

/// Whether an offset in minutes is strictly within one day.
pub open spec fn offset_in_range(minutes: int) -> bool {
    -1440 < minutes < 1440
}

/// Why the long form of a timestamp cannot be had, if it cannot.
pub open spec fn long_form_error(t: Time) -> Option<TimeError> {
    if !offset_in_range(t.offset_minutes as int) {
        Some(TimeError::OffsetOutOfRange)
    } else if !timestamp_in_range(t.seconds as int) {
        Some(TimeError::SecondsOutOfRange)
    } else {
        None
    }
}

/// The long form of a timestamp, in its own offset.
pub fn print_time(intime: Time) -> (r: Result<String, TimeError>)
    ensures
        long_form_error(intime) is None <==> r is Ok,
        long_form_error(intime) matches Some(e) ==> r == Err::<String, TimeError>(e),
        r matches Ok(s) ==> s@ == long_form(intime.seconds as int, intime.offset_minutes * 60),
{
    let secs: i64 = intime.offset_minutes as i64 * 60;
    if secs <= -86_400 || secs >= 86_400 {
        return Err(TimeError::OffsetOutOfRange);
    }
    match format_long(intime.seconds, secs as i32) {
        Some(s) => Ok(s),
        None => Err(TimeError::SecondsOutOfRange),
    }
}

/// The compact form of a timestamp, in UTC.
pub fn print_time_short(intime: Time) -> (r: Result<String, TimeError>)
    ensures
        timestamp_in_range(intime.seconds as int) <==> r is Ok,
        r matches Ok(s) ==> s@ == short_form(intime.seconds as int),
        r is Err ==> r == Err::<String, TimeError>(TimeError::SecondsOutOfRange),
{
    match format_short(intime.seconds) {
        Some(s) => Ok(s),
        None => Err(TimeError::SecondsOutOfRange),
    }
}

} // verus!
