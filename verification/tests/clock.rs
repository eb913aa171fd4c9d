use chrono::Datelike;
use chrono::NaiveDate;
use chrono::TimeZone;
use chrono::Timelike;
use commit_scheduler::calendar::MAX_TIMESTAMP;
use commit_scheduler::calendar::MIN_TIMESTAMP;
use commit_scheduler::calendar::SECONDS_PER_DAY;
use commit_scheduler::calendar::SECONDS_PER_MINUTE;
use commit_scheduler::clock::TimeOfDay;
use commit_scheduler::clock::TimeWindow;
use commit_scheduler::clock::UtcOffset;
use commit_scheduler::clock::ZonedInstant;
use commit_scheduler::error::ConfigError;
use commit_scheduler::error::InstantError;
use commit_scheduler::weekday::Weekday;

/// 2024-01-01 00:00:00 UTC, a Monday.
const MONDAY: i64 = 1_704_067_200;

fn utc(timestamp: i64) -> ZonedInstant {
    ZonedInstant::new(timestamp, UtcOffset::utc()).unwrap()
}

fn offset(seconds: i32) -> UtcOffset {
    UtcOffset::new(seconds).unwrap()
}

#[test]
fn time_of_day_counts_seconds_from_midnight() {
    let time = TimeOfDay::new(13, 7, 5).unwrap();
    assert_eq!(time.seconds_from_midnight(), 47_225);
    assert_eq!((time.hour(), time.minute(), time.second()), (13, 7, 5));
    assert_eq!(TimeOfDay::new(0, 0, 0).unwrap().seconds_from_midnight(), 0);
    assert_eq!(TimeOfDay::new(23, 59, 59).unwrap().seconds_from_midnight(), 86_399);
}

#[test]
fn time_of_day_rejects_fields_out_of_range() {
    assert_eq!(TimeOfDay::new(24, 0, 0), None);
    assert_eq!(TimeOfDay::new(0, 60, 0), None);
    assert_eq!(TimeOfDay::new(0, 0, 60), None);
    assert_eq!(TimeOfDay::from_seconds(86_400), None);
    assert_eq!(TimeOfDay::from_seconds(u32::MAX), None);
}

#[test]
fn time_of_day_from_seconds_agrees_with_fields() {
    assert_eq!(TimeOfDay::from_seconds(47_225), TimeOfDay::new(13, 7, 5));
    assert_eq!(TimeOfDay::from_seconds(86_399), TimeOfDay::new(23, 59, 59));
}

#[test]
fn times_of_day_are_ordered_by_hour_then_minute_then_second() {
    let times = [
        TimeOfDay::new(0, 0, 0).unwrap(),
        TimeOfDay::new(0, 0, 59).unwrap(),
        TimeOfDay::new(0, 1, 0).unwrap(),
        TimeOfDay::new(0, 59, 59).unwrap(),
        TimeOfDay::new(1, 0, 0).unwrap(),
        TimeOfDay::new(23, 59, 59).unwrap(),
    ];
    for (i, earlier) in times.iter().enumerate() {
        for (j, later) in times.iter().enumerate() {
            assert_eq!(earlier.is_at_or_before(later), i <= j);
        }
    }
}

#[test]
fn window_needs_its_end_at_or_after_its_start() {
    let nine = TimeOfDay::new(9, 0, 0).unwrap();
    let five = TimeOfDay::new(17, 0, 0).unwrap();
    let window = TimeWindow::new(nine, five).unwrap();
    assert_eq!(window.start(), nine);
    assert_eq!(window.end(), five);
    assert_eq!(TimeWindow::new(five, nine), None);
    assert!(TimeWindow::new(nine, nine).is_some());
}

#[test]
fn window_contains_its_ends() {
    let window =
        TimeWindow::new(TimeOfDay::new(9, 0, 0).unwrap(), TimeOfDay::new(17, 0, 0).unwrap())
            .unwrap();
    assert!(window.contains(&TimeOfDay::new(9, 0, 0).unwrap()));
    assert!(window.contains(&TimeOfDay::new(12, 30, 0).unwrap()));
    assert!(window.contains(&TimeOfDay::new(17, 0, 0).unwrap()));
    assert!(!window.contains(&TimeOfDay::new(8, 59, 59).unwrap()));
    assert!(!window.contains(&TimeOfDay::new(17, 0, 1).unwrap()));
}

#[test]
fn offset_is_less_than_a_day() {
    assert_eq!(UtcOffset::new(7_200).unwrap().seconds(), 7_200);
    assert_eq!(UtcOffset::new(-86_399).unwrap().seconds(), -86_399);
    assert_eq!(UtcOffset::new(86_399).unwrap().seconds(), 86_399);
    assert_eq!(UtcOffset::new(86_400), None);
    assert_eq!(UtcOffset::new(-86_400), None);
    assert_eq!(UtcOffset::utc().seconds(), 0);
}

#[test]
fn constants_of_the_calendar() {
    assert_eq!(SECONDS_PER_DAY, 86_400);
    assert_eq!(SECONDS_PER_MINUTE, 60);
    let first = NaiveDate::from_ymd_opt(1, 1, 1).unwrap().and_hms_opt(0, 0, 0).unwrap();
    let last = NaiveDate::from_ymd_opt(9999, 12, 31).unwrap().and_hms_opt(23, 59, 59).unwrap();
    assert_eq!(MIN_TIMESTAMP, first.and_utc().timestamp());
    assert_eq!(MAX_TIMESTAMP, last.and_utc().timestamp());
    assert_eq!(MIN_TIMESTAMP, -62_135_596_800);
    assert_eq!(MAX_TIMESTAMP, 253_402_300_799);
}

#[test]
fn timezone_reference_is_read_as_numeric_offset() {
    assert_eq!(UtcOffset::parse(Some("+02:00")), Ok(offset(7_200)));
    assert_eq!(UtcOffset::parse(Some("+0200")), Ok(offset(7_200)));
    assert_eq!(UtcOffset::parse(Some("-05:30")), Ok(offset(-19_800)));
    assert_eq!(UtcOffset::parse(Some("+00:00")), Ok(UtcOffset::utc()));
}

#[test]
fn missing_timezone_reference_is_reported() {
    assert_eq!(UtcOffset::parse(None), Err(ConfigError::MissingTimezone));
}

#[test]
fn unreadable_timezone_reference_is_reported() {
    assert_eq!(UtcOffset::parse(Some("")), Err(ConfigError::InvalidTimezone));
    assert_eq!(UtcOffset::parse(Some("Europe/Paris")), Err(ConfigError::InvalidTimezone));
    assert_eq!(UtcOffset::parse(Some("+02:00 or so")), Err(ConfigError::InvalidTimezone));
}

#[test]
fn timezone_reference_from_what_was_read() {
    assert_eq!(UtcOffset::from_parsed(Some((0, 7_200))), Ok(offset(7_200)));
    assert_eq!(UtcOffset::from_parsed(Some((1_704_067_200, -3_600))), Ok(offset(-3_600)));
    assert_eq!(UtcOffset::from_parsed(Some((0, 86_400))), Err(ConfigError::InvalidTimezone));
    assert_eq!(UtcOffset::from_parsed(None), Err(ConfigError::InvalidTimezone));
}

#[test]
fn instant_lies_in_the_years_one_to_9999() {
    assert_eq!(utc(MIN_TIMESTAMP).timestamp(), MIN_TIMESTAMP);
    assert_eq!(utc(MAX_TIMESTAMP).timestamp(), MAX_TIMESTAMP);
    assert_eq!(ZonedInstant::new(MIN_TIMESTAMP - 1, UtcOffset::utc()), None);
    assert_eq!(ZonedInstant::new(MAX_TIMESTAMP + 1, UtcOffset::utc()), None);
    assert_eq!(ZonedInstant::new(i64::MAX, UtcOffset::utc()), None);
    assert_eq!(ZonedInstant::new(i64::MIN, UtcOffset::utc()), None);
}

#[test]
fn instant_keeps_its_parts() {
    let instant = ZonedInstant::new(MONDAY, offset(3_600)).unwrap();
    assert_eq!(instant.timestamp(), MONDAY);
    assert_eq!(instant.offset(), offset(3_600));
}

#[test]
fn weekday_is_that_of_the_local_day() {
    assert_eq!(utc(0).weekday(), Weekday::Thursday);
    assert_eq!(utc(-1).weekday(), Weekday::Wednesday);
    assert_eq!(utc(MONDAY).weekday(), Weekday::Monday);
    assert_eq!(utc(MONDAY - 1).weekday(), Weekday::Sunday);
    assert_eq!(utc(951_825_600).weekday(), Weekday::Tuesday);
    assert_eq!(utc(-2_203_891_200).weekday(), Weekday::Thursday);
    // One second before Monday in UTC is already Monday one hour east, and
    // the first hours of Monday are still Sunday five hours west.
    assert_eq!(ZonedInstant::new(MONDAY - 1, offset(3_600)).unwrap().weekday(), Weekday::Monday);
    assert_eq!(
        ZonedInstant::new(MONDAY + 3_600, offset(-5 * 3_600)).unwrap().weekday(),
        Weekday::Sunday
    );
}

#[test]
fn weekday_counts_on_from_thursday_the_first_of_january_1970() {
    let names = [
        Weekday::Monday,
        Weekday::Tuesday,
        Weekday::Wednesday,
        Weekday::Thursday,
        Weekday::Friday,
        Weekday::Saturday,
        Weekday::Sunday,
    ];
    for zone in [-86_399, -3_600, 0, 19_800, 86_399] {
        let stamps =
            [MIN_TIMESTAMP, -86_401, -1, 0, 86_399, MONDAY, MONDAY + 500_000, MAX_TIMESTAMP];
        for timestamp in stamps {
            let day = (timestamp + zone as i64).div_euclid(86_400);
            let expected = names[(day + 3).rem_euclid(7) as usize];
            assert_eq!(ZonedInstant::new(timestamp, offset(zone)).unwrap().weekday(), expected);
        }
    }
}

#[test]
fn time_of_day_is_that_of_the_local_clock() {
    assert_eq!(utc(MONDAY).time_of_day(), TimeOfDay::new(0, 0, 0).unwrap());
    assert_eq!(utc(MONDAY + 47_225).time_of_day(), TimeOfDay::new(13, 7, 5).unwrap());
    assert_eq!(utc(-1).time_of_day(), TimeOfDay::new(23, 59, 59).unwrap());
    assert_eq!(
        ZonedInstant::new(MONDAY, offset(19_800)).unwrap().time_of_day(),
        TimeOfDay::new(5, 30, 0).unwrap()
    );
    assert_eq!(
        ZonedInstant::new(MONDAY, offset(-3_600)).unwrap().time_of_day(),
        TimeOfDay::new(23, 0, 0).unwrap()
    );
    for zone in [-86_399, 0, 86_399] {
        for timestamp in [MIN_TIMESTAMP, -86_401, -1, 0, MONDAY + 12_345, MAX_TIMESTAMP] {
            let expected = (timestamp + zone as i64).rem_euclid(86_400) as u32;
            let shown = ZonedInstant::new(timestamp, offset(zone)).unwrap().time_of_day();
            assert_eq!(shown.seconds_from_midnight(), expected);
        }
    }
}

#[test]
fn at_time_keeps_the_local_day() {
    let noon = TimeOfDay::new(12, 0, 0).unwrap();
    assert_eq!(utc(MONDAY + 5).at_time(noon), Some(utc(MONDAY + 43_200)));
    assert_eq!(utc(MONDAY + 86_399).at_time(noon), Some(utc(MONDAY + 43_200)));
    assert_eq!(utc(-1).at_time(noon), Some(utc(-43_200)));
    // 23:30 UTC on Sunday is Monday 00:30 one hour east; noon of that
    // Monday is 11:00 UTC.
    let east = offset(3_600);
    let late = ZonedInstant::new(MONDAY - 1_800, east).unwrap();
    assert_eq!(late.at_time(noon), Some(ZonedInstant::new(MONDAY + 39_600, east).unwrap()));
    for zone in [-86_399, -3_600, 0, 86_399] {
        for timestamp in [-86_401, -1, 0, MONDAY + 12_345] {
            let day = (timestamp + zone as i64).div_euclid(86_400);
            let expected = day * 86_400 + 43_200 - zone as i64;
            let moved = ZonedInstant::new(timestamp, offset(zone)).unwrap().at_time(noon).unwrap();
            assert_eq!(moved.timestamp(), expected);
            assert_eq!(moved.offset(), offset(zone));
        }
    }
}

#[test]
fn at_time_outside_the_range_is_refused() {
    let midnight = TimeOfDay::new(0, 0, 0).unwrap();
    // The local day of the first instant, seen from the east, began before
    // the first instant.
    let first = ZonedInstant::new(MIN_TIMESTAMP, offset(3_600)).unwrap();
    assert_eq!(first.at_time(midnight), None);
    let last = ZonedInstant::new(MAX_TIMESTAMP, offset(-3_600)).unwrap();
    assert_eq!(last.at_time(TimeOfDay::new(23, 59, 59).unwrap()), None);
    assert!(utc(MIN_TIMESTAMP).at_time(midnight).is_some());
}

#[test]
fn plus_seconds_moves_the_instant() {
    assert_eq!(utc(MONDAY).plus_seconds(60), Some(utc(MONDAY + 60)));
    assert_eq!(utc(MONDAY).plus_seconds(-86_400), Some(utc(MONDAY - 86_400)));
    assert_eq!(utc(MAX_TIMESTAMP).plus_seconds(1), None);
    assert_eq!(utc(MIN_TIMESTAMP).plus_seconds(-1), None);
    assert_eq!(utc(MONDAY).plus_seconds(i64::MAX), None);
    assert_eq!(utc(-5).plus_seconds(i64::MIN), None);
}

#[test]
fn in_offset_keeps_the_timestamp() {
    let moved = utc(MONDAY).in_offset(offset(7_200));
    assert_eq!(moved.timestamp(), MONDAY);
    assert_eq!(moved.offset(), offset(7_200));
    assert_eq!(moved.time_of_day(), TimeOfDay::new(2, 0, 0).unwrap());
}

#[test]
fn instants_are_ordered_by_their_place_in_time() {
    let early = ZonedInstant::new(MONDAY, offset(7_200)).unwrap();
    let late = ZonedInstant::new(MONDAY + 1, offset(-7_200)).unwrap();
    assert!(early.is_before(&late));
    assert!(late.is_after(&early));
    assert!(!late.is_before(&early));
    assert!(!early.is_after(&late));
    assert!(!early.is_before(&early));
    assert!(!early.is_after(&early));
}

#[test]
fn commit_date_is_read_and_seen_from_the_reference() {
    let reference = offset(3_600);
    let read = ZonedInstant::parse("2024-01-01 10:00:00 +0200", reference).unwrap();
    assert_eq!(read.timestamp(), 1_704_096_000);
    assert_eq!(read.offset(), reference);
    assert_eq!(read.time_of_day(), TimeOfDay::new(9, 0, 0).unwrap());
}

#[test]
fn line_breaks_in_a_commit_date_are_ignored() {
    let read = ZonedInstant::parse("2024-01-01 10:00:00 +0200\n", UtcOffset::utc());
    assert_eq!(read, Ok(utc(1_704_096_000)));
    let read = ZonedInstant::parse("\n2024-01-01 10:\n00:00 +0200\n\n", UtcOffset::utc());
    assert_eq!(read, Ok(utc(1_704_096_000)));
}

#[test]
fn unreadable_commit_date_is_reported() {
    assert_eq!(ZonedInstant::parse("", UtcOffset::utc()), Err(InstantError::Unreadable));
    assert_eq!(ZonedInstant::parse("yesterday", UtcOffset::utc()), Err(InstantError::Unreadable));
    assert_eq!(
        ZonedInstant::parse("2024-01-01 10:00:00", UtcOffset::utc()),
        Err(InstantError::Unreadable)
    );
    assert_eq!(
        ZonedInstant::parse("2024-02-30 10:00:00 +0000", UtcOffset::utc()),
        Err(InstantError::Unreadable)
    );
}

#[test]
fn commit_date_outside_the_range_is_reported() {
    assert_eq!(
        ZonedInstant::parse("+10000-01-01 00:00:00 +0000", UtcOffset::utc()),
        Err(InstantError::OutOfRange)
    );
}

#[test]
fn instant_from_what_was_read() {
    let reference = offset(-3_600);
    assert_eq!(
        ZonedInstant::from_parsed(Some((MONDAY, 7_200)), reference),
        Ok(ZonedInstant::new(MONDAY, reference).unwrap())
    );
    assert_eq!(ZonedInstant::from_parsed(None, reference), Err(InstantError::Unreadable));
    assert_eq!(
        ZonedInstant::from_parsed(Some((MAX_TIMESTAMP + 1, 0)), reference),
        Err(InstantError::OutOfRange)
    );
    assert_eq!(
        ZonedInstant::from_parsed(Some((MIN_TIMESTAMP - 1, 0)), reference),
        Err(InstantError::OutOfRange)
    );
}

#[test]
fn commit_date_is_written_as_the_local_clock_shows_it() {
    assert_eq!(utc(MONDAY).to_commit_date(), "2024-01-01 00:00:00 +0000");
    let east = ZonedInstant::new(1_704_096_000, offset(7_200)).unwrap();
    assert_eq!(east.to_commit_date(), "2024-01-01 10:00:00 +0200");
    let west = ZonedInstant::new(MONDAY, offset(-19_800)).unwrap();
    assert_eq!(west.to_commit_date(), "2023-12-31 18:30:00 -0530");
    assert_eq!(utc(MIN_TIMESTAMP).to_commit_date(), "0001-01-01 00:00:00 +0000");
    assert_eq!(utc(MAX_TIMESTAMP).to_commit_date(), "9999-12-31 23:59:59 +0000");
}

#[test]
fn written_commit_date_is_read_back() {
    for zone in [-19_800, 0, 7_200] {
        for timestamp in [MIN_TIMESTAMP + 86_400, -1, 0, MONDAY + 47_225, MAX_TIMESTAMP - 86_400] {
            let instant = ZonedInstant::new(timestamp, offset(zone)).unwrap();
            let text = instant.to_commit_date();
            assert_eq!(ZonedInstant::parse(&text, offset(zone)), Ok(instant));
        }
    }
}

#[test]
fn library_and_chrono_agree_on_the_local_clock() {
    for zone in [-19_800, 0, 7_200] {
        for timestamp in [-86_401, 0, MONDAY + 47_225, 951_825_600] {
            let instant = ZonedInstant::new(timestamp, offset(zone)).unwrap();
            let zoned = chrono::FixedOffset::east_opt(zone).unwrap();
            let moment = zoned.timestamp_opt(timestamp, 0).unwrap();
            assert_eq!(
                instant.weekday().days_from_monday() as u32,
                moment.weekday().num_days_from_monday()
            );
            let shown = instant.time_of_day();
            assert_eq!(
                (shown.hour(), shown.minute(), shown.second()),
                (moment.hour(), moment.minute(), moment.second())
            );
        }
    }
}

#[test]
fn times_of_day_compare_by_the_clock() {
    let morning = TimeOfDay::new(9, 0, 0).unwrap();
    let noon = TimeOfDay::new(12, 0, 0).unwrap();
    assert!(morning < noon);
    assert!(noon > morning);
    assert!(morning <= morning);
    assert_eq!(morning.max(noon), noon);
    assert!(TimeOfDay::new(9, 0, 1).unwrap() > morning);
    assert!(TimeOfDay::new(8, 59, 59).unwrap() < morning);
}
