use commit_scheduler::clock::TimeOfDay;
use commit_scheduler::clock::TimeWindow;
use commit_scheduler::clock::UtcOffset;
use commit_scheduler::clock::ZonedInstant;
use commit_scheduler::error::ConfigError;
use commit_scheduler::schedule::WeeklySchedule;
use commit_scheduler::scheduler::schedule;
use commit_scheduler::scheduler::SchedulingContext;
use commit_scheduler::scheduler::SchedulingDecision;
use commit_scheduler::scheduler::DEFAULT_HORIZON_DAYS;
use commit_scheduler::weekday::Weekday;

/// 2024-01-01 00:00:00 UTC, a Monday.
const MONDAY: i64 = 1_704_067_200;

const DAY: i64 = 86_400;

fn utc(timestamp: i64) -> ZonedInstant {
    ZonedInstant::new(timestamp, UtcOffset::utc()).unwrap()
}

/// The instant `hour:minute` UTC on the day `day` days after the Monday.
fn at(day: i64, hour: i64, minute: i64) -> ZonedInstant {
    utc(MONDAY + day * DAY + hour * 3_600 + minute * 60)
}

fn time(hour: u32, minute: u32, second: u32) -> TimeOfDay {
    TimeOfDay::new(hour, minute, second).unwrap()
}

fn window(from: (u32, u32), to: (u32, u32)) -> TimeWindow {
    TimeWindow::new(time(from.0, from.1, 0), time(to.0, to.1, 0)).unwrap()
}

fn monday_office_hours() -> WeeklySchedule {
    WeeklySchedule::from_windows(&vec![(Weekday::Monday, window((9, 0), (17, 0)))])
}

fn decide(
    now: ZonedInstant,
    previous: ZonedInstant,
    weekly: WeeklySchedule,
    horizon_days: u32,
) -> SchedulingDecision {
    schedule(&SchedulingContext::new(now, previous, weekly, horizon_days).unwrap())
}

#[test]
fn now_inside_window_is_kept() {
    let decision = decide(at(0, 10, 0), at(0, 8, 0), monday_office_hours(), 33);
    assert_eq!(decision, SchedulingDecision::Scheduled(at(0, 10, 0)));
}

#[test]
fn one_minute_after_previous_commit_when_now_is_too_late() {
    let decision = decide(at(0, 18, 0), at(0, 16, 59), monday_office_hours(), 33);
    assert_eq!(decision, SchedulingDecision::Scheduled(at(0, 17, 0)));
}

#[test]
fn no_slot_on_tuesday_when_monday_is_out_of_reach() {
    // The previous commit sits on the end of Monday's window, so the window
    // is not skipped; but the scan starts on Tuesday, and five days on it
    // has only reached Sunday.
    let decision = decide(at(1, 8, 0), at(0, 17, 0), monday_office_hours(), 5);
    assert_eq!(decision, SchedulingDecision::NoSlotFound);
}

#[test]
fn next_monday_is_found_once_the_horizon_reaches_it() {
    let decision = decide(at(1, 8, 0), at(0, 17, 0), monday_office_hours(), 6);
    assert_eq!(decision, SchedulingDecision::Scheduled(at(7, 9, 0)));
    let decision = decide(at(1, 8, 0), at(0, 17, 0), monday_office_hours(), DEFAULT_HORIZON_DAYS);
    assert_eq!(decision, SchedulingDecision::Scheduled(at(7, 9, 0)));
}

#[test]
fn no_slot_on_tuesday_but_a_later_day_in_the_schedule_gives_one() {
    let weekly = WeeklySchedule::from_windows(&vec![
        (Weekday::Monday, window((9, 0), (17, 0))),
        (Weekday::Thursday, window((13, 0), (14, 0))),
    ]);
    let decision = decide(at(1, 8, 0), at(0, 17, 0), weekly, 5);
    assert_eq!(decision, SchedulingDecision::Scheduled(at(3, 13, 0)));
}

#[test]
fn empty_schedule_gives_no_slot() {
    let decision = decide(at(0, 10, 0), at(0, 8, 0), WeeklySchedule::empty(), 33);
    assert_eq!(decision, SchedulingDecision::NoSlotFound);
    let decision = decide(at(0, 10, 0), at(0, 8, 0), WeeklySchedule::from_windows(&vec![]), 33);
    assert_eq!(decision, SchedulingDecision::NoSlotFound);
}

#[test]
fn default_horizon_is_thirty_three_days() {
    assert_eq!(DEFAULT_HORIZON_DAYS, 33);
}

#[test]
fn now_wins_over_an_earlier_offer_of_another_window() {
    // The first window offers 08:01, which is earlier than "now"; "now"
    // fits the second window and is the answer all the same.
    let weekly = WeeklySchedule::from_windows(&vec![
        (Weekday::Monday, window((8, 0), (9, 0))),
        (Weekday::Monday, window((9, 30), (17, 0))),
    ]);
    let decision = decide(at(0, 10, 0), at(0, 8, 0), weekly, 33);
    assert_eq!(decision, SchedulingDecision::Scheduled(at(0, 10, 0)));
}

#[test]
fn now_on_the_edges_of_a_window_fits() {
    let opening = decide(at(0, 9, 0), at(0, 8, 0), monday_office_hours(), 33);
    assert_eq!(opening, SchedulingDecision::Scheduled(at(0, 9, 0)));
    let closing = decide(at(0, 17, 0), at(0, 8, 0), monday_office_hours(), 33);
    assert_eq!(closing, SchedulingDecision::Scheduled(at(0, 17, 0)));
}

#[test]
fn one_second_past_the_window_does_not_fit() {
    // "Now" is not the answer; the window offers its start, which is later
    // than a minute after the previous commit.
    let now = utc(MONDAY + 17 * 3_600 + 1);
    let decision = decide(now, at(0, 8, 0), monday_office_hours(), 33);
    assert_eq!(decision, SchedulingDecision::Scheduled(at(0, 9, 0)));
}

#[test]
fn window_that_closed_before_previous_commit_is_skipped() {
    // The previous commit is one second past the end of today's window:
    // today is skipped, and next Monday opens after it.
    let previous = utc(MONDAY + 17 * 3_600 + 1);
    let decision = decide(at(0, 10, 0), previous, monday_office_hours(), 33);
    assert_eq!(decision, SchedulingDecision::Scheduled(at(7, 9, 0)));
}

#[test]
fn previous_commit_on_the_end_of_the_window_does_not_skip_it() {
    // Not skipped, so "now" still fits; the answer is "now".
    let decision = decide(at(0, 10, 0), at(0, 17, 0), monday_office_hours(), 33);
    assert_eq!(decision, SchedulingDecision::Scheduled(at(0, 10, 0)));
}

#[test]
fn offer_past_the_end_of_the_window_is_refused() {
    // One minute after the previous commit is 17:00:30, past the end; the
    // next Monday opens later than that and offers its start.
    let previous = utc(MONDAY + 16 * 3_600 + 59 * 60 + 30);
    let decision = decide(at(0, 18, 0), previous, monday_office_hours(), 33);
    assert_eq!(decision, SchedulingDecision::Scheduled(at(7, 9, 0)));
}

#[test]
fn offer_is_the_later_of_window_start_and_a_minute_after_previous_commit() {
    // Thirty seconds before the window opens: a minute later is half a
    // minute into the window.
    let previous = utc(MONDAY + 9 * 3_600 - 30);
    let decision = decide(at(0, 8, 0), previous, monday_office_hours(), 33);
    assert_eq!(decision, SchedulingDecision::Scheduled(utc(MONDAY + 9 * 3_600 + 30)));
    // Two minutes before: the window's start is later.
    let decision = decide(at(0, 8, 0), at(0, 8, 58), monday_office_hours(), 33);
    assert_eq!(decision, SchedulingDecision::Scheduled(at(0, 9, 0)));
}

#[test]
fn earliest_offer_of_the_day_is_chosen() {
    let weekly = WeeklySchedule::from_windows(&vec![
        (Weekday::Monday, window((14, 0), (15, 0))),
        (Weekday::Monday, window((11, 0), (12, 0))),
        (Weekday::Monday, window((16, 0), (17, 0))),
    ]);
    let decision = decide(at(0, 8, 0), at(0, 7, 0), weekly, 33);
    assert_eq!(decision, SchedulingDecision::Scheduled(at(0, 11, 0)));
}

#[test]
fn overlapping_windows_do_no_harm() {
    let weekly = WeeklySchedule::from_windows(&vec![
        (Weekday::Monday, window((9, 0), (12, 0))),
        (Weekday::Monday, window((9, 0), (12, 0))),
        (Weekday::Monday, window((10, 0), (11, 0))),
    ]);
    let decision = decide(at(0, 13, 0), at(0, 10, 30), weekly, 33);
    assert_eq!(decision, SchedulingDecision::Scheduled(at(0, 10, 31)));
}

#[test]
fn first_day_with_an_offer_ends_the_scan() {
    // Wednesday's window is reached before next Monday's, though Monday
    // stands first in the schedule.
    let weekly = WeeklySchedule::from_windows(&vec![
        (Weekday::Monday, window((9, 0), (10, 0))),
        (Weekday::Wednesday, window((20, 0), (21, 0))),
    ]);
    let decision = decide(at(0, 12, 0), at(0, 11, 0), weekly, 33);
    assert_eq!(decision, SchedulingDecision::Scheduled(at(2, 20, 0)));
}

#[test]
fn slot_on_the_last_day_of_the_horizon_is_found() {
    let sunday_only =
        || WeeklySchedule::from_windows(&vec![(Weekday::Sunday, window((9, 0), (10, 0)))]);
    let now = at(0, 12, 0);
    let previous = at(0, 11, 0);
    assert_eq!(decide(now, previous, sunday_only(), 6), SchedulingDecision::Scheduled(at(6, 9, 0)));
    assert_eq!(decide(now, previous, sunday_only(), 5), SchedulingDecision::NoSlotFound);
}

#[test]
fn all_windows_behind_the_previous_commit_give_no_slot() {
    // The previous commit lies beyond every window within the horizon.
    let decision = decide(at(0, 10, 0), at(40, 0, 0), monday_office_hours(), 33);
    assert_eq!(decision, SchedulingDecision::NoSlotFound);
}

#[test]
fn decision_does_not_precede_previous_commit() {
    let previous = at(0, 12, 34);
    for (now, expected) in [
        (at(0, 18, 0), at(0, 12, 35)),
        (at(0, 13, 0), at(0, 13, 0)),
        (at(1, 3, 0), at(7, 9, 0)),
    ] {
        match decide(now, previous, monday_office_hours(), 33) {
            SchedulingDecision::Scheduled(instant) => {
                assert_eq!(instant, expected);
                assert!(!instant.is_before(&previous));
            }
            SchedulingDecision::NoSlotFound => panic!("a slot was expected"),
        }
    }
}

#[test]
fn now_is_answered_even_when_previous_commit_lies_ahead() {
    // The previous commit carries a later time of the same window: the
    // window is not skipped, "now" fits, and the answer precedes it.
    let decision = decide(at(0, 10, 0), at(0, 16, 0), monday_office_hours(), 33);
    assert_eq!(decision, SchedulingDecision::Scheduled(at(0, 10, 0)));
}

#[test]
fn offer_is_held_against_the_window_by_its_time_of_day_alone() {
    // A minute after 23:59 is midnight of Tuesday. Its time of day, 00:00,
    // lies in Monday's window, and the offer is accepted as Monday's.
    let weekly = WeeklySchedule::from_windows(&vec![(Weekday::Monday, window((0, 0), (23, 59)))]);
    let now = utc(MONDAY + 23 * 3_600 + 59 * 60 + 30);
    let decision = decide(now, at(0, 23, 59), weekly, 33);
    assert_eq!(decision, SchedulingDecision::Scheduled(at(1, 0, 0)));
}

#[test]
fn offer_after_midnight_is_refused_by_a_window_that_opens_later() {
    // As above, but the window opens at 00:01: the time of day 00:00 is not
    // in it, and next Monday's start is the answer.
    let weekly = WeeklySchedule::from_windows(&vec![(Weekday::Monday, window((0, 1), (23, 59)))]);
    let now = utc(MONDAY + 23 * 3_600 + 59 * 60 + 30);
    let decision = decide(now, at(0, 23, 59), weekly, 33);
    assert_eq!(decision, SchedulingDecision::Scheduled(at(7, 0, 1)));
}

#[test]
fn days_and_windows_are_read_in_the_timezone_reference() {
    // 2024-01-01 01:30 UTC is Sunday 20:30 at five hours west.
    let west = UtcOffset::new(-5 * 3_600).unwrap();
    let now = ZonedInstant::new(MONDAY + 3_600 + 1_800, west).unwrap();
    let previous = ZonedInstant::new(MONDAY - DAY, west).unwrap();
    let sunday_evening =
        WeeklySchedule::from_windows(&vec![(Weekday::Sunday, window((20, 0), (21, 0)))]);
    assert_eq!(decide(now, previous, sunday_evening, 33), SchedulingDecision::Scheduled(now));
    // Monday 09:00 at that offset is 14:00 UTC.
    let expected = ZonedInstant::new(MONDAY + 14 * 3_600, west).unwrap();
    assert_eq!(
        decide(now, previous, monday_office_hours(), 33),
        SchedulingDecision::Scheduled(expected)
    );
}

#[test]
fn previous_commit_is_seen_from_the_offset_of_now() {
    let east = UtcOffset::new(2 * 3_600).unwrap();
    let now = ZonedInstant::new(MONDAY + 12 * 3_600, east).unwrap();
    let previous = at(0, 9, 0);
    let context = SchedulingContext::new(now, previous, monday_office_hours(), 33).unwrap();
    assert_eq!(context.now(), now);
    assert_eq!(context.previous_commit_time(), previous.in_offset(east));
    assert_eq!(context.horizon_days(), 33);
    assert_eq!(context.schedule(), &monday_office_hours());
    // 12:00 UTC is 14:00 at two hours east, inside the window.
    assert_eq!(schedule(&context), SchedulingDecision::Scheduled(now));
}

#[test]
fn copy_of_a_context_gives_the_same_decision() {
    let context =
        SchedulingContext::new(at(0, 18, 0), at(0, 16, 59), monday_office_hours(), 33).unwrap();
    let copy = context.clone();
    assert_eq!(copy, context);
    assert_eq!(schedule(&copy), schedule(&context));
    assert_eq!(schedule(&context), schedule(&context));
}

#[test]
fn horizon_must_be_positive() {
    let context = SchedulingContext::new(at(0, 10, 0), at(0, 8, 0), monday_office_hours(), 0);
    assert_eq!(context, Err(ConfigError::InvalidHorizon));
}

#[test]
fn horizon_must_not_reach_past_the_last_instant() {
    let last: i64 = 253_402_300_799;
    let now = utc(last - 35 * DAY);
    let accepted = SchedulingContext::new(now, at(0, 8, 0), monday_office_hours(), 33);
    assert!(accepted.is_ok());
    let now = utc(last - 34 * DAY);
    let refused = SchedulingContext::new(now, at(0, 8, 0), monday_office_hours(), 33);
    assert_eq!(refused, Err(ConfigError::InvalidHorizon));
    // The bound is exact: 34 days and one minute of room are asked for.
    let edge = utc(last - 34 * DAY - 60);
    assert!(SchedulingContext::new(edge, at(0, 8, 0), monday_office_hours(), 33).is_ok());
    let over = utc(last - 34 * DAY - 59);
    assert!(SchedulingContext::new(over, at(0, 8, 0), monday_office_hours(), 33).is_err());
}

#[test]
fn scan_near_the_last_instant_stays_in_range() {
    let last: i64 = 253_402_300_799;
    let now = utc(last - 34 * DAY - 60);
    let every_day: Vec<(Weekday, TimeWindow)> = [
        Weekday::Monday,
        Weekday::Tuesday,
        Weekday::Wednesday,
        Weekday::Thursday,
        Weekday::Friday,
        Weekday::Saturday,
        Weekday::Sunday,
    ]
    .into_iter()
    .map(|day| (day, window((0, 0), (23, 59))))
    .collect();
    let previous = utc(last - DAY);
    let decision = decide(now, previous, WeeklySchedule::from_windows(&every_day), 33);
    // Every window within the horizon closed before the previous commit.
    assert_eq!(decision, SchedulingDecision::NoSlotFound);
}
