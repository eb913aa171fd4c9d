//! The civil calendar, as the `chrono` crate computes it.
//!
//! Instants are carried through the library as plain numbers: a UNIX
//! timestamp in whole seconds and a fixed offset from UTC in seconds. This
//! module states, over those numbers, what `chrono` answers. The functions
//! marked `external_body` are not proved: their contracts are claims about
//! `chrono`, and everything the library proves about dates rests on them.

use chrono::DateTime;
use chrono::Datelike;
use chrono::FixedOffset;
use chrono::NaiveTime;
use chrono::Timelike;
use vstd::prelude::*;

use crate::weekday::Weekday;

verus! {

/// Seconds in a civil day.
pub const SECONDS_PER_DAY: i64 = 86_400;

/// Seconds in a minute.
pub const SECONDS_PER_MINUTE: i64 = 60;

/// 0001-01-01 00:00:00 UTC, the earliest instant the library represents.
pub const MIN_TIMESTAMP: i64 = -62_135_596_800;

/// 9999-12-31 23:59:59 UTC, the latest instant the library represents.
pub const MAX_TIMESTAMP: i64 = 253_402_300_799;

/// The failure that `chrono` reports when a text does not match a format.
#[verifier::external_type_specification]
#[verifier::external_body]
pub struct ExParseError(chrono::ParseError);

/// What `chrono::NaiveTime::parse_from_str` makes of `text` under `format`:
/// the seconds since midnight of the time it reads, or `None` where it
/// reports an error.
pub uninterp spec fn naive_time_parsed(text: Seq<char>, format: Seq<char>) -> Option<int>;

/// What `chrono::DateTime::parse_from_str` makes of `text` under `format`:
/// the UNIX timestamp and the offset from UTC, both in seconds, of the
/// date-time it reads, or `None` where it reports an error.
pub uninterp spec fn date_time_parsed(text: Seq<char>, format: Seq<char>) -> Option<(int, int)>;

/// The text that `chrono::DateTime::format` renders for the instant
/// `timestamp`, seen at `offset` seconds east of UTC, under `format`.
pub uninterp spec fn date_time_formatted(timestamp: int, offset: int, format: Seq<char>) -> Seq<char>;

/// Whether a timestamp lies in the years 1 to 9999.
pub open spec fn representable(timestamp: int) -> bool {
    MIN_TIMESTAMP <= timestamp <= MAX_TIMESTAMP
}

/// Whether an offset from UTC is less than a day in either direction.
pub open spec fn valid_offset(offset: int) -> bool {
    -SECONDS_PER_DAY < offset < SECONDS_PER_DAY
}

/// Seconds since 1970-01-01 00:00:00 on the wall clock at `offset`.
pub open spec fn local_seconds(timestamp: int, offset: int) -> int {
    timestamp + offset
}

/// Days since 1970-01-01 of the civil day that the wall clock at `offset`
/// shows at `timestamp`. Negative before 1970.
pub open spec fn local_day(timestamp: int, offset: int) -> int {
    local_seconds(timestamp, offset) / (SECONDS_PER_DAY as int)
}

/// Seconds since midnight that the wall clock at `offset` shows at
/// `timestamp`.
pub open spec fn second_of_day(timestamp: int, offset: int) -> int {
    local_seconds(timestamp, offset) % (SECONDS_PER_DAY as int)
}

/// The timestamp at which the wall clock at `offset` shows `seconds` after
/// midnight on the civil day it shows at `timestamp`.
pub open spec fn same_day_at(timestamp: int, offset: int, seconds: int) -> int {
    local_day(timestamp, offset) * SECONDS_PER_DAY + seconds - offset
}

/// The format in which commit dates are read and written: date, time of day
/// to the second, and numeric offset from UTC.
pub open spec fn commit_date_format() -> Seq<char> {
    "%Y-%m-%d %H:%M:%S %z"@
}

/// Calls `chrono::Datelike::weekday` on the `DateTime<FixedOffset>` that
/// stands for `timestamp` at `offset`. Claims that it is the weekday of the
/// local civil day, counted on from Thursday 1970-01-01.
#[verifier::external_body]
pub(crate) fn weekday_at(timestamp: i64, offset: i32) -> (day: Weekday)
    requires
        representable(timestamp as int),
        valid_offset(offset as int),
    ensures
        day == Weekday::of_epoch_day(local_day(timestamp as int, offset as int)),
{
    let zone = FixedOffset::east_opt(offset).unwrap();
    let moment = DateTime::from_timestamp(timestamp, 0).unwrap().with_timezone(&zone);
    match moment.weekday() {
        chrono::Weekday::Mon => Weekday::Monday,
        chrono::Weekday::Tue => Weekday::Tuesday,
        chrono::Weekday::Wed => Weekday::Wednesday,
        chrono::Weekday::Thu => Weekday::Thursday,
        chrono::Weekday::Fri => Weekday::Friday,
        chrono::Weekday::Sat => Weekday::Saturday,
        chrono::Weekday::Sun => Weekday::Sunday,
    }
}

/// Calls `chrono::DateTime::time` on the `DateTime<FixedOffset>` that stands
/// for `timestamp` at `offset`. Claims that the local time of day is the
/// local seconds since the epoch, reduced modulo one day.
#[verifier::external_body]
pub(crate) fn second_of_day_at(timestamp: i64, offset: i32) -> (seconds: u32)
    requires
        representable(timestamp as int),
        valid_offset(offset as int),
    ensures
        seconds == second_of_day(timestamp as int, offset as int),
{
    let zone = FixedOffset::east_opt(offset).unwrap();
    let moment = DateTime::from_timestamp(timestamp, 0).unwrap().with_timezone(&zone);
    moment.time().num_seconds_from_midnight()
}

/// Calls `chrono::DateTime::with_time` on the `DateTime<FixedOffset>` that
/// stands for `timestamp` at `offset`. Claims that the result keeps the local
/// civil day and shows `seconds` after midnight on it.
#[verifier::external_body]
pub(crate) fn same_day_at_time(timestamp: i64, offset: i32, seconds: u32) -> (moved: i64)
    requires
        representable(timestamp as int),
        valid_offset(offset as int),
        seconds < SECONDS_PER_DAY,
    ensures
        moved == same_day_at(timestamp as int, offset as int, seconds as int),
{
    let zone = FixedOffset::east_opt(offset).unwrap();
    let moment = DateTime::from_timestamp(timestamp, 0).unwrap().with_timezone(&zone);
    let time = NaiveTime::from_num_seconds_from_midnight_opt(seconds, 0).unwrap();
    moment.with_time(time).unwrap().timestamp()
}

/// Calls `chrono::NaiveTime::parse_from_str`. The result is named, not
/// described: `Ok` carries the seconds since midnight of the time read.
#[verifier::external_body]
pub(crate) fn parse_naive_time(
    text: &str,
    format: &str,
) -> (parsed: Result<u32, chrono::ParseError>)
    ensures
        parsed matches Ok(seconds) ==> naive_time_parsed(text@, format@) == Some(seconds as int),
        parsed is Err ==> naive_time_parsed(text@, format@) is None,
{
    match NaiveTime::parse_from_str(text, format) {
        Ok(time) => Ok(time.num_seconds_from_midnight()),
        Err(error) => Err(error),
    }
}

/// Calls `chrono::DateTime::parse_from_str`. The result is named, not
/// described: `Ok` carries the UNIX timestamp of the date-time read and its
/// offset from UTC in seconds.
#[verifier::external_body]
pub(crate) fn parse_date_time(
    text: &str,
    format: &str,
) -> (parsed: Result<(i64, i32), chrono::ParseError>)
    ensures
        parsed matches Ok(found) ==> date_time_parsed(text@, format@) == Some(
            (found.0 as int, found.1 as int),
        ),
        parsed is Err ==> date_time_parsed(text@, format@) is None,
{
    match DateTime::parse_from_str(text, format) {
        Ok(moment) => Ok((moment.timestamp(), moment.offset().local_minus_utc())),
        Err(error) => Err(error),
    }
}

/// Calls `chrono::DateTime::format` on the `DateTime<FixedOffset>` that
/// stands for `timestamp` at `offset`, and renders it. The result is named,
/// not described. Only the commit date format is admitted: rendering panics
/// on a format that `chrono` does not know.
#[verifier::external_body]
pub(crate) fn format_date_time(timestamp: i64, offset: i32, format: &str) -> (text: String)
    requires
        representable(timestamp as int),
        valid_offset(offset as int),
        format@ == commit_date_format(),
    ensures
        text@ == date_time_formatted(timestamp as int, offset as int, format@),
{
    let zone = FixedOffset::east_opt(offset).unwrap();
    let moment = DateTime::from_timestamp(timestamp, 0).unwrap().with_timezone(&zone);
    moment.format(format).to_string()
}

} // verus!
