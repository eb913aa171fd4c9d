//! Times of day, time windows, offsets from UTC and zoned instants.

use vstd::arithmetic::div_mod::lemma_fundamental_div_mod_converse;
use vstd::prelude::*;

use crate::calendar::commit_date_format;
use crate::calendar::date_time_formatted;
use crate::calendar::date_time_parsed;
use crate::calendar::format_date_time;
use crate::calendar::local_day;
use crate::calendar::parse_date_time;
use crate::calendar::representable;
use crate::calendar::same_day_at;
use crate::calendar::same_day_at_time;
use crate::calendar::second_of_day;
use crate::calendar::second_of_day_at;
use crate::calendar::valid_offset;
use crate::calendar::weekday_at;
use crate::calendar::MAX_TIMESTAMP;
use crate::calendar::MIN_TIMESTAMP;
use crate::calendar::SECONDS_PER_DAY;
use crate::error::ConfigError;
use crate::error::InstantError;
use crate::text::without_line_breaks;
use crate::text::without_char;
use crate::weekday::Weekday;

verus! {

/// Seconds since midnight of the wall-clock time `hour:minute:second`.
pub open spec fn clock_seconds(hour: int, minute: int, second: int) -> int {
    hour * 3600 + minute * 60 + second
}

/// Whether a number of seconds since midnight names a time of day.
pub open spec fn within_day(seconds: int) -> bool {
    0 <= seconds < SECONDS_PER_DAY
}

/// A wall-clock time to the second, without date or offset. Its view is the
/// number of seconds since midnight, by which times of day are ordered.
#[derive(Clone, Copy, Debug, PartialEq, Eq, PartialOrd, Ord, Hash, Structural)]
pub struct TimeOfDay {
    seconds: u32,
}

impl View for TimeOfDay {
    type V = int;

    closed spec fn view(&self) -> int {
        self.seconds as int
    }
}

impl TimeOfDay {
    /// Holds of every time of day: it lies within one day.
    #[verifier::type_invariant]
    pub open spec fn well_formed(self) -> bool {
        within_day(self@)
    }

    /// The time `hour:minute:second`; `None` unless `hour < 24`,
    /// `minute < 60` and `second < 60`.
    pub fn new(hour: u32, minute: u32, second: u32) -> (time: Option<TimeOfDay>)
        ensures
            hour < 24 && minute < 60 && second < 60 ==> (time matches Some(t) && t@ == clock_seconds(
                hour as int,
                minute as int,
                second as int,
            )),
            !(hour < 24 && minute < 60 && second < 60) ==> time is None,
    {
        if hour < 24 && minute < 60 && second < 60 {
            Some(TimeOfDay { seconds: hour * 3600 + minute * 60 + second })
        } else {
            None
        }
    }

    /// The time `seconds` after midnight; `None` from a full day on.
    pub fn from_seconds(seconds: u32) -> (time: Option<TimeOfDay>)
        ensures
            within_day(seconds as int) ==> (time matches Some(t) && t@ == seconds),
            !within_day(seconds as int) ==> time is None,
    {
        if seconds < 86_400 {
            Some(TimeOfDay { seconds })
        } else {
            None
        }
    }

    /// Seconds since midnight.
    pub fn seconds_from_midnight(&self) -> (seconds: u32)
        ensures
            seconds == self@,
            within_day(self@),
    {
        proof {
            use_type_invariant(self);
        }
        self.seconds
    }

    /// The hour, `0..=23`.
    pub fn hour(&self) -> (hour: u32)
        ensures
            hour == self@ / 3600,
            hour < 24,
    {
        proof {
            use_type_invariant(self);
        }
        self.seconds / 3600
    }

    /// The minute of the hour, `0..=59`.
    pub fn minute(&self) -> (minute: u32)
        ensures
            minute == (self@ / 60) % 60,
            minute < 60,
    {
        (self.seconds / 60) % 60
    }

    /// The second of the minute, `0..=59`.
    pub fn second(&self) -> (second: u32)
        ensures
            second == self@ % 60,
            second < 60,
    {
        self.seconds % 60
    }

    /// Whether this time is `other` or earlier in the day.
    pub fn is_at_or_before(&self, other: &TimeOfDay) -> (answer: bool)
        ensures
            answer == (self@ <= other@),
    {
        self.seconds <= other.seconds
    }
}

/// Times of day are ordered by hour, then minute, then second: comparing the
/// seconds since midnight compares the three fields in that order.
pub proof fn lemma_time_of_day_order(h1: int, m1: int, s1: int, h2: int, m2: int, s2: int)
    requires
        0 <= h1 < 24 && 0 <= m1 < 60 && 0 <= s1 < 60,
        0 <= h2 < 24 && 0 <= m2 < 60 && 0 <= s2 < 60,
    ensures
        within_day(clock_seconds(h1, m1, s1)),
        clock_seconds(h1, m1, s1) < clock_seconds(h2, m2, s2) <==> (h1 < h2 || (h1 == h2 && (m1 < m2
            || (m1 == m2 && s1 < s2)))),
        clock_seconds(h1, m1, s1) == clock_seconds(h2, m2, s2) <==> (h1 == h2 && m1 == m2 && s1
            == s2),
{
}

/// The fields of a time of day are recovered from its seconds since
/// midnight.
pub proof fn lemma_clock_fields(hour: int, minute: int, second: int)
    requires
        0 <= hour < 24 && 0 <= minute < 60 && 0 <= second < 60,
    ensures
        clock_seconds(hour, minute, second) / 3600 == hour,
        (clock_seconds(hour, minute, second) / 60) % 60 == minute,
        clock_seconds(hour, minute, second) % 60 == second,
{
    let total = clock_seconds(hour, minute, second);
    lemma_fundamental_div_mod_converse(total, 3600, hour, minute * 60 + second);
    lemma_fundamental_div_mod_converse(total, 60, hour * 60 + minute, second);
    lemma_fundamental_div_mod_converse(hour * 60 + minute, 60, hour, minute);
}

/// A window as contracts see it: its two ends in seconds since midnight.
pub struct WindowView {
    pub start: int,
    pub end: int,
}

impl WindowView {
    /// Both ends are times of day and the window does not end before it
    /// starts.
    pub open spec fn wf(self) -> bool {
        0 <= self.start <= self.end < SECONDS_PER_DAY
    }

    /// Whether the time `seconds` after midnight lies in the window, ends
    /// included.
    pub open spec fn contains(self, seconds: int) -> bool {
        self.start <= seconds <= self.end
    }
}

/// A permitted interval of the day, both ends included. A window never spans
/// midnight: it does not end before it starts.
#[derive(Clone, Copy, Debug, PartialEq, Eq, Structural)]
pub struct TimeWindow {
    start: TimeOfDay,
    end: TimeOfDay,
}

impl View for TimeWindow {
    type V = WindowView;

    closed spec fn view(&self) -> WindowView {
        WindowView { start: self.start@, end: self.end@ }
    }
}

impl TimeWindow {
    /// Holds of every window: its view is well formed.
    #[verifier::type_invariant]
    pub open spec fn well_formed(self) -> bool {
        self@.wf()
    }

    /// The window from `start` to `end`; `None` where `end` precedes
    /// `start`.
    pub fn new(start: TimeOfDay, end: TimeOfDay) -> (window: Option<TimeWindow>)
        ensures
            start@ <= end@ ==> (window matches Some(w) && w@ == WindowView {
                start: start@,
                end: end@,
            } && w@.wf()),
            start@ > end@ ==> window is None,
    {
        proof {
            use_type_invariant(&start);
            use_type_invariant(&end);
        }
        if start.is_at_or_before(&end) {
            Some(TimeWindow { start, end })
        } else {
            None
        }
    }

    /// The first instant of the window.
    pub fn start(&self) -> (time: TimeOfDay)
        ensures
            time@ == self@.start,
            self@.wf(),
    {
        proof {
            use_type_invariant(self);
        }
        self.start
    }

    /// The last instant of the window.
    pub fn end(&self) -> (time: TimeOfDay)
        ensures
            time@ == self@.end,
            self@.wf(),
    {
        proof {
            use_type_invariant(self);
        }
        self.end
    }

    /// Whether `time` lies in the window, ends included.
    pub fn contains(&self, time: &TimeOfDay) -> (answer: bool)
        ensures
            answer == self@.contains(time@),
    {
        self.start.is_at_or_before(time) && time.is_at_or_before(&self.end)
    }
}

/// What was read of a date-time, as contracts see it: the timestamp and the
/// offset read, as mathematical integers.
pub open spec fn parsed_view(parsed: Option<(i64, i32)>) -> Option<(int, int)> {
    match parsed {
        Some(found) => Some((found.0 as int, found.1 as int)),
        None => None,
    }
}

/// The date and time with which a timezone reference is read: any instant
/// would do, since only the offset is kept.
pub open spec fn timezone_probe_prefix() -> Seq<char> {
    "1970-01-01 00:00:00 "@
}

/// The offset that a read commit date yields as timezone reference.
pub open spec fn timezone_of(parsed: Option<(int, int)>) -> Result<int, ConfigError> {
    match parsed {
        Some(found) => if valid_offset(found.1) {
            Ok(found.1)
        } else {
            Err(ConfigError::InvalidTimezone)
        },
        None => Err(ConfigError::InvalidTimezone),
    }
}

/// A fixed offset from UTC, the timezone reference of a scheduling run. Its
/// view is the offset in seconds, positive east of Greenwich.
#[derive(Clone, Copy, Debug, PartialEq, Eq, Structural)]
pub struct UtcOffset {
    seconds: i32,
}

impl View for UtcOffset {
    type V = int;

    closed spec fn view(&self) -> int {
        self.seconds as int
    }
}

impl UtcOffset {
    /// Holds of every offset: it is less than a day in either direction.
    #[verifier::type_invariant]
    pub open spec fn well_formed(self) -> bool {
        valid_offset(self@)
    }

    /// The offset of `seconds` east of UTC; `None` from a full day on, in
    /// either direction.
    pub fn new(seconds: i32) -> (offset: Option<UtcOffset>)
        ensures
            valid_offset(seconds as int) ==> (offset matches Some(o) && o@ == seconds),
            !valid_offset(seconds as int) ==> offset is None,
    {
        if -86_400 < seconds && seconds < 86_400 {
            Some(UtcOffset { seconds })
        } else {
            None
        }
    }

    /// UTC itself.
    pub fn utc() -> (offset: UtcOffset)
        ensures
            offset@ == 0,
    {
        UtcOffset { seconds: 0 }
    }

    /// Seconds east of UTC.
    pub fn seconds(&self) -> (seconds: i32)
        ensures
            seconds == self@,
            valid_offset(self@),
    {
        proof {
            use_type_invariant(self);
        }
        self.seconds
    }

    /// Turns what was read of a timezone probe into the timezone reference:
    /// the offset read, where something was read.
    pub fn from_parsed(parsed: Option<(i64, i32)>) -> (offset: Result<UtcOffset, ConfigError>)
        ensures
            match timezone_of(parsed_view(parsed)) {
                Ok(seconds) => offset matches Ok(o) && o@ == seconds,
                Err(error) => offset == Err::<UtcOffset, ConfigError>(error),
            },
    {
        match parsed {
            Some(found) => match UtcOffset::new(found.1) {
                Some(offset) => Ok(offset),
                None => Err(ConfigError::InvalidTimezone),
            },
            None => Err(ConfigError::InvalidTimezone),
        }
    }

    /// Reads a timezone reference such as `+02:00`. The text is read as the
    /// offset of a commit date; a missing reference and one that cannot be
    /// read are told apart.
    pub fn parse(text: Option<&str>) -> (offset: Result<UtcOffset, ConfigError>)
        ensures
            text is None ==> offset == Err::<UtcOffset, ConfigError>(ConfigError::MissingTimezone),
            text matches Some(t) ==> match timezone_of(
                date_time_parsed(timezone_probe_prefix() + t@, commit_date_format()),
            ) {
                Ok(seconds) => offset matches Ok(o) && o@ == seconds,
                Err(error) => offset == Err::<UtcOffset, ConfigError>(error),
            },
    {
        match text {
            None => Err(ConfigError::MissingTimezone),
            Some(reference) => {
                let mut probe = String::from_str("1970-01-01 00:00:00 ");
                probe.append(reference);
                match parse_date_time(probe.as_str(), "%Y-%m-%d %H:%M:%S %z") {
                    Ok(found) => UtcOffset::from_parsed(Some(found)),
                    Err(_) => UtcOffset::from_parsed(None),
                }
            },
        }
    }
}

/// An instant as contracts see it: the UNIX timestamp in seconds and the
/// offset, in seconds east of UTC, of the wall clock it is read on.
pub struct InstantView {
    pub timestamp: int,
    pub offset: int,
}

impl InstantView {
    /// The instant lies in the years 1 to 9999 and the offset is less than a
    /// day.
    pub open spec fn wf(self) -> bool {
        representable(self.timestamp) && valid_offset(self.offset)
    }

    /// Days since 1970-01-01 of the civil day the wall clock shows.
    pub open spec fn local_day(self) -> int {
        local_day(self.timestamp, self.offset)
    }

    /// Seconds since midnight that the wall clock shows.
    pub open spec fn second_of_day(self) -> int {
        second_of_day(self.timestamp, self.offset)
    }

    /// The weekday that the wall clock shows.
    pub open spec fn weekday(self) -> Weekday {
        Weekday::of_epoch_day(self.local_day())
    }

    /// The instant at which the wall clock shows `seconds` after midnight on
    /// the same civil day.
    pub open spec fn at_time(self, seconds: int) -> InstantView {
        InstantView {
            timestamp: same_day_at(self.timestamp, self.offset, seconds),
            offset: self.offset,
        }
    }

    /// The instant `seconds` later, on the same wall clock.
    pub open spec fn plus_seconds(self, seconds: int) -> InstantView {
        InstantView { timestamp: self.timestamp + seconds, offset: self.offset }
    }

    /// The same instant, read on the wall clock at `offset`.
    pub open spec fn in_offset(self, offset: int) -> InstantView {
        InstantView { timestamp: self.timestamp, offset: offset }
    }
}

/// The instant that a read commit date stands for, seen from `reference`.
pub open spec fn instant_of(parsed: Option<(int, int)>, reference: int) -> Result<
    InstantView,
    InstantError,
> {
    match parsed {
        None => Err(InstantError::Unreadable),
        Some(found) => if representable(found.0) {
            Ok(InstantView { timestamp: found.0, offset: reference })
        } else {
            Err(InstantError::OutOfRange)
        },
    }
}

/// An absolute instant, to the second, together with the fixed offset from
/// UTC in which its day and time of day are read. `is_before` and `is_after`
/// go by the place in time alone; two instants are equal where they agree in
/// time and in offset.
#[derive(Clone, Copy, Debug, PartialEq, Eq, Structural)]
pub struct ZonedInstant {
    timestamp: i64,
    offset: UtcOffset,
}

impl View for ZonedInstant {
    type V = InstantView;

    closed spec fn view(&self) -> InstantView {
        InstantView { timestamp: self.timestamp as int, offset: self.offset@ }
    }
}

impl ZonedInstant {
    /// Holds of every instant: its view is well formed.
    #[verifier::type_invariant]
    pub open spec fn well_formed(self) -> bool {
        self@.wf()
    }

    /// The instant `timestamp` seconds after 1970-01-01 00:00:00 UTC, read at
    /// `offset`; `None` outside the years 1 to 9999.
    pub fn new(timestamp: i64, offset: UtcOffset) -> (instant: Option<ZonedInstant>)
        ensures
            representable(timestamp as int) ==> (instant matches Some(i) && i@ == InstantView {
                timestamp: timestamp as int,
                offset: offset@,
            } && i@.wf()),
            !representable(timestamp as int) ==> instant is None,
    {
        proof {
            use_type_invariant(&offset);
        }
        if MIN_TIMESTAMP <= timestamp && timestamp <= MAX_TIMESTAMP {
            Some(ZonedInstant { timestamp, offset })
        } else {
            None
        }
    }

    /// The instant `timestamp`, read at `offset`, where the caller knows
    /// that it lies in the years 1 to 9999.
    pub(crate) fn from_parts(timestamp: i64, offset: UtcOffset) -> (instant: ZonedInstant)
        requires
            representable(timestamp as int),
        ensures
            instant@ == (InstantView { timestamp: timestamp as int, offset: offset@ }),
    {
        proof {
            use_type_invariant(&offset);
        }
        ZonedInstant { timestamp, offset }
    }

    /// Seconds since 1970-01-01 00:00:00 UTC.
    pub fn timestamp(&self) -> (timestamp: i64)
        ensures
            timestamp == self@.timestamp,
            self@.wf(),
    {
        proof {
            use_type_invariant(self);
        }
        self.timestamp
    }

    /// The offset in which the instant is read.
    pub fn offset(&self) -> (offset: UtcOffset)
        ensures
            offset@ == self@.offset,
            self@.wf(),
    {
        proof {
            use_type_invariant(self);
        }
        self.offset
    }

    /// The weekday that the wall clock shows at this instant.
    pub fn weekday(&self) -> (day: Weekday)
        ensures
            day == self@.weekday(),
    {
        proof {
            use_type_invariant(self);
        }
        weekday_at(self.timestamp, self.offset.seconds())
    }

    /// The time of day that the wall clock shows at this instant.
    pub fn time_of_day(&self) -> (time: TimeOfDay)
        ensures
            time@ == self@.second_of_day(),
    {
        proof {
            use_type_invariant(self);
        }
        let seconds = second_of_day_at(self.timestamp, self.offset.seconds());
        TimeOfDay { seconds }
    }

    /// The instant at which the wall clock shows `time` on the same civil
    /// day; `None` where that falls outside the years 1 to 9999.
    pub fn at_time(&self, time: TimeOfDay) -> (instant: Option<ZonedInstant>)
        ensures
            self@.at_time(time@).wf() ==> (instant matches Some(i) && i@ == self@.at_time(time@)),
            !self@.at_time(time@).wf() ==> instant is None,
    {
        proof {
            use_type_invariant(self);
        }
        let moved = same_day_at_time(
            self.timestamp,
            self.offset.seconds(),
            time.seconds_from_midnight(),
        );
        ZonedInstant::new(moved, self.offset)
    }

    /// The instant `seconds` later, or earlier where `seconds` is negative;
    /// `None` where that falls outside the years 1 to 9999.
    pub fn plus_seconds(&self, seconds: i64) -> (instant: Option<ZonedInstant>)
        ensures
            self@.plus_seconds(seconds as int).wf() ==> (instant matches Some(i) && i@
                == self@.plus_seconds(seconds as int)),
            !self@.plus_seconds(seconds as int).wf() ==> instant is None,
    {
        proof {
            use_type_invariant(self);
        }
        match self.timestamp.checked_add(seconds) {
            Some(moved) => ZonedInstant::new(moved, self.offset),
            None => None,
        }
    }

    /// The same instant, read on the wall clock at `offset`.
    pub fn in_offset(&self, offset: UtcOffset) -> (instant: ZonedInstant)
        ensures
            instant@ == self@.in_offset(offset@),
    {
        proof {
            use_type_invariant(self);
            use_type_invariant(&offset);
        }
        ZonedInstant { timestamp: self.timestamp, offset }
    }

    /// Whether this instant comes strictly before `other`.
    pub fn is_before(&self, other: &ZonedInstant) -> (answer: bool)
        ensures
            answer == (self@.timestamp < other@.timestamp),
    {
        self.timestamp < other.timestamp
    }

    /// Whether this instant comes strictly after `other`.
    pub fn is_after(&self, other: &ZonedInstant) -> (answer: bool)
        ensures
            answer == (self@.timestamp > other@.timestamp),
    {
        self.timestamp > other.timestamp
    }

    /// Turns what was read of a commit date into an instant seen from
    /// `reference`.
    pub fn from_parsed(parsed: Option<(i64, i32)>, reference: UtcOffset) -> (instant: Result<
        ZonedInstant,
        InstantError,
    >)
        ensures
            match instant_of(parsed_view(parsed), reference@) {
                Ok(view) => instant matches Ok(i) && i@ == view,
                Err(error) => instant == Err::<ZonedInstant, InstantError>(error),
            },
    {
        match parsed {
            None => Err(InstantError::Unreadable),
            Some(found) => match ZonedInstant::new(found.0, reference) {
                Some(instant) => Ok(instant),
                None => Err(InstantError::OutOfRange),
            },
        }
    }

    /// Reads a commit date, such as `2024-01-01 10:00:00 +0200`, and sees it
    /// from `reference`. Line breaks in the text are ignored.
    pub fn parse(text: &str, reference: UtcOffset) -> (instant: Result<ZonedInstant, InstantError>)
        ensures
            match instant_of(
                date_time_parsed(without_char(text@, '\n'), commit_date_format()),
                reference@,
            ) {
                Ok(view) => instant matches Ok(i) && i@ == view,
                Err(error) => instant == Err::<ZonedInstant, InstantError>(error),
            },
    {
        let line = without_line_breaks(text);
        match parse_date_time(line.as_str(), "%Y-%m-%d %H:%M:%S %z") {
            Ok(found) => ZonedInstant::from_parsed(Some(found), reference),
            Err(_) => ZonedInstant::from_parsed(None, reference),
        }
    }

    /// Writes the instant as a commit date, as the wall clock at its offset
    /// shows it.
    pub fn to_commit_date(&self) -> (text: String)
        ensures
            text@ == date_time_formatted(self@.timestamp, self@.offset, commit_date_format()),
    {
        proof {
            use_type_invariant(self);
        }
        format_date_time(self.timestamp, self.offset.seconds(), "%Y-%m-%d %H:%M:%S %z")
    }
}

/// A time of day is known by its view.
pub proof fn lemma_same_time_of_day(one: TimeOfDay, other: TimeOfDay)
    ensures
        one@ == other@ <==> one == other,
{
}

/// A window is known by its view.
pub proof fn lemma_same_window(one: TimeWindow, other: TimeWindow)
    ensures
        one@ == other@ <==> one == other,
{
}

/// An offset is known by its view.
pub proof fn lemma_same_offset(one: UtcOffset, other: UtcOffset)
    ensures
        one@ == other@ <==> one == other,
{
}

/// An instant is known by its view.
pub proof fn lemma_same_instant(one: ZonedInstant, other: ZonedInstant)
    ensures
        one@ == other@ <==> one == other,
{
}

} // verus!
