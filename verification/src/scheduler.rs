//! The commit-time scheduler: a day-by-day scan of the weekly schedule for
//! the earliest instant that the new commit may carry.
//!
//! The scan starts on the civil day of "now" and goes forward one day at a
//! time, up to the horizon. On each day it looks at that weekday's windows in
//! order. A window that ended before the previous commit is skipped. If "now"
//! lies in a window that is not skipped, "now" is the answer. Otherwise each
//! window offers the later of its start and one minute after the previous
//! commit, provided that the time of day of that instant lies in the window;
//! the earliest offer of the first day that has one is the answer.
//!
//! Only the time of day of an offer is held against the window, not its
//! date: an offer that falls one minute after a previous commit made in the
//! last minute of a day is accepted by a window that is open at midnight,
//! though it lies on the next civil day.

use vstd::prelude::*;

use crate::calendar::representable;
use crate::calendar::same_day_at_time;
use crate::calendar::second_of_day;
use crate::calendar::second_of_day_at;
use crate::calendar::weekday_at;
use crate::calendar::MAX_TIMESTAMP;
use crate::calendar::SECONDS_PER_DAY;
use crate::calendar::SECONDS_PER_MINUTE;
use crate::clock::InstantView;
use crate::clock::WindowView;
use crate::clock::ZonedInstant;
use crate::error::ConfigError;
use crate::schedule::timetable_wf;
use crate::schedule::WeeklySchedule;
use crate::sorting::window_views;
use crate::weekday::Weekday;

verus! {

/// The number of days that the scan looks ahead unless told otherwise.
pub const DEFAULT_HORIZON_DAYS: u32 = 33;

/// Whether a scan of `horizon_days` from `now` is possible: the horizon is
/// positive, and one minute past the last day scanned is still an instant
/// that can be represented.
pub open spec fn horizon_fits(now: InstantView, horizon_days: int) -> bool {
    1 <= horizon_days && now.timestamp + (horizon_days + 1) * SECONDS_PER_DAY + SECONDS_PER_MINUTE
        <= MAX_TIMESTAMP
}

/// The outcome of a scan as contracts see it.
pub enum DecisionView {
    Scheduled(InstantView),
    NoSlotFound,
}

/// The input of a scan as contracts see it.
pub struct ContextView {
    pub now: InstantView,
    pub previous_commit_time: InstantView,
    pub schedule: Map<Weekday, Seq<WindowView>>,
    pub horizon_days: int,
}

impl ContextView {
    /// Both instants are read in the same offset, the schedule is in order
    /// and the horizon fits.
    pub open spec fn wf(self) -> bool {
        &&& self.now.wf()
        &&& self.previous_commit_time.wf()
        &&& self.previous_commit_time.offset == self.now.offset
        &&& timetable_wf(self.schedule)
        &&& horizon_fits(self.now, self.horizon_days)
    }

    /// The day cursor after `day` steps: "now", that many days later.
    pub open spec fn cursor(self, day: int) -> InstantView {
        self.now.plus_seconds(day * SECONDS_PER_DAY)
    }

    /// The windows that the schedule holds for the weekday of the cursor.
    pub open spec fn windows(self, day: int) -> Seq<WindowView> {
        self.schedule[self.cursor(day).weekday()]
    }

    /// The instant at which `window` opens on the civil day of the cursor.
    pub open spec fn window_start(self, day: int, window: WindowView) -> int {
        self.cursor(day).at_time(window.start).timestamp
    }

    /// The instant at which `window` closes on the civil day of the cursor.
    pub open spec fn window_end(self, day: int, window: WindowView) -> int {
        self.cursor(day).at_time(window.end).timestamp
    }

    /// The window closed before the previous commit was made: nothing in it
    /// can follow that commit.
    pub open spec fn skips(self, day: int, window: WindowView) -> bool {
        self.previous_commit_time.timestamp > self.window_end(day, window)
    }

    /// The window is not skipped and "now" lies in it.
    pub open spec fn fits_now(self, day: int, window: WindowView) -> bool {
        &&& !self.skips(day, window)
        &&& self.window_start(day, window) <= self.now.timestamp <= self.window_end(day, window)
    }

    /// What the window offers where "now" does not fit: one minute after the
    /// previous commit, or the opening of the window where that is later.
    pub open spec fn candidate(self, day: int, window: WindowView) -> int {
        if self.previous_commit_time.timestamp + SECONDS_PER_MINUTE > self.window_start(
            day,
            window,
        ) {
            self.previous_commit_time.timestamp + SECONDS_PER_MINUTE
        } else {
            self.window_start(day, window)
        }
    }

    /// The window is not skipped and the time of day of its offer lies in
    /// it.
    pub open spec fn admits(self, day: int, window: WindowView) -> bool {
        &&& !self.skips(day, window)
        &&& window.contains(second_of_day(self.candidate(day, window), self.now.offset))
    }

    /// "Now" fits one of the windows of the day.
    pub open spec fn now_fits_on(self, day: int) -> bool {
        exists|i: int|
            0 <= i < self.windows(day).len() && self.fits_now(day, #[trigger] self.windows(day)[i])
    }

    /// The earliest offer among the first `count` windows of the day that
    /// admit theirs.
    pub open spec fn earliest_candidate(self, day: int, count: int) -> Option<int>
        decreases count,
    {
        if count <= 0 {
            None
        } else {
            let earlier = self.earliest_candidate(day, count - 1);
            let window = self.windows(day)[count - 1];
            if !self.admits(day, window) {
                earlier
            } else if earlier matches Some(best) && best <= self.candidate(day, window) {
                earlier
            } else {
                Some(self.candidate(day, window))
            }
        }
    }

    /// What the scan finds on one day: "now" where it fits a window, else
    /// the earliest offer, if there is one.
    pub open spec fn day_choice(self, day: int) -> Option<int> {
        if self.now_fits_on(day) {
            Some(self.now.timestamp)
        } else {
            self.earliest_candidate(day, self.windows(day).len() as int)
        }
    }

    /// What the scan finds from `day` on: the choice of the first day up to
    /// the horizon that has one.
    pub open spec fn choice_from(self, day: int) -> Option<int>
        decreases self.horizon_days + 1 - day,
    {
        if day > self.horizon_days {
            None
        } else if self.day_choice(day) is Some {
            self.day_choice(day)
        } else {
            self.choice_from(day + 1)
        }
    }

    /// The outcome of the scan.
    pub open spec fn decide(self) -> DecisionView {
        match self.choice_from(0) {
            Some(timestamp) => DecisionView::Scheduled(
                InstantView { timestamp, offset: self.now.offset },
            ),
            None => DecisionView::NoSlotFound,
        }
    }
}

/// A timestamp that may be absent, as contracts see it.
pub open spec fn choice_view(choice: Option<i64>) -> Option<int> {
    match choice {
        Some(timestamp) => Some(timestamp as int),
        None => None,
    }
}

/// The outcome of a scan: the timestamp for the commit, or the finding that
/// the schedule has no place for it within the horizon.
#[derive(Clone, Copy, Debug, PartialEq, Eq, Structural)]
pub enum SchedulingDecision {
    Scheduled(ZonedInstant),
    NoSlotFound,
}

impl View for SchedulingDecision {
    type V = DecisionView;

    open spec fn view(&self) -> DecisionView {
        match self {
            SchedulingDecision::Scheduled(instant) => DecisionView::Scheduled(instant@),
            SchedulingDecision::NoSlotFound => DecisionView::NoSlotFound,
        }
    }
}

/// The input of a scan: the current instant, the instant of the previous
/// commit, the weekly schedule and the number of days to look ahead.
#[derive(Debug, PartialEq, Eq)]
pub struct SchedulingContext {
    now: ZonedInstant,
    previous_commit_time: ZonedInstant,
    schedule: WeeklySchedule,
    horizon_days: u32,
}

impl View for SchedulingContext {
    type V = ContextView;

    closed spec fn view(&self) -> ContextView {
        ContextView {
            now: self.now@,
            previous_commit_time: self.previous_commit_time@,
            schedule: self.schedule@,
            horizon_days: self.horizon_days as int,
        }
    }
}

impl SchedulingContext {
    /// Holds of every context: its view is well formed.
    #[verifier::type_invariant]
    pub open spec fn well_formed(self) -> bool {
        self@.wf()
    }

    /// Sets up a scan. The offset of `now` is the timezone reference: the
    /// previous commit is seen from it. Rejected where the horizon is zero
    /// or reaches past the last instant that can be represented.
    pub fn new(
        now: ZonedInstant,
        previous_commit_time: ZonedInstant,
        schedule: WeeklySchedule,
        horizon_days: u32,
    ) -> (context: Result<SchedulingContext, ConfigError>)
        ensures
            horizon_fits(now@, horizon_days as int) ==> (context matches Ok(c) && c@ == ContextView {
                now: now@,
                previous_commit_time: previous_commit_time@.in_offset(now@.offset),
                schedule: schedule@,
                horizon_days: horizon_days as int,
            } && c@.wf()),
            !horizon_fits(now@, horizon_days as int) ==> (context matches Err(e) && e
                == ConfigError::InvalidHorizon),
    {
        proof {
            use_type_invariant(&now);
            use_type_invariant(&previous_commit_time);
            use_type_invariant(&schedule);
        }
        let reach = (horizon_days as i64 + 1) * SECONDS_PER_DAY + SECONDS_PER_MINUTE;
        if horizon_days >= 1 && now.timestamp() <= MAX_TIMESTAMP - reach {
            let previous_commit_time = previous_commit_time.in_offset(now.offset());
            Ok(SchedulingContext { now, previous_commit_time, schedule, horizon_days })
        } else {
            Err(ConfigError::InvalidHorizon)
        }
    }

    /// The current instant.
    pub fn now(&self) -> (now: ZonedInstant)
        ensures
            now@ == self@.now,
            self@.wf(),
    {
        proof {
            use_type_invariant(self);
        }
        self.now
    }

    /// The instant of the previous commit, seen from the timezone
    /// reference.
    pub fn previous_commit_time(&self) -> (previous: ZonedInstant)
        ensures
            previous@ == self@.previous_commit_time,
    {
        self.previous_commit_time
    }

    /// The weekly schedule.
    pub fn schedule(&self) -> (schedule: &WeeklySchedule)
        ensures
            schedule@ == self@.schedule,
    {
        &self.schedule
    }

    /// The number of days that the scan looks ahead.
    pub fn horizon_days(&self) -> (days: u32)
        ensures
            days == self@.horizon_days,
    {
        self.horizon_days
    }

    /// What the scan finds on the day `day` steps from "now".
    fn choose_on_day(&self, day: i64) -> (choice: Option<i64>)
        requires
            0 <= day <= self@.horizon_days,
        ensures
            choice_view(choice) == self@.day_choice(day as int),
            choice matches Some(timestamp) ==> representable(timestamp as int),
    {
        proof {
            use_type_invariant(self);
        }
        let now = self.now.timestamp();
        let offset = self.now.offset().seconds();
        let previous = self.previous_commit_time.timestamp();
        let cursor = now + day * SECONDS_PER_DAY;
        let weekday = weekday_at(cursor, offset);
        let windows = self.schedule.windows(weekday);
        let mut best: Option<i64> = None;
        let mut index: usize = 0;
        while index < windows.len()
            invariant
                self@.wf(),
                0 <= day <= self@.horizon_days,
                now == self@.now.timestamp,
                offset == self@.now.offset,
                previous == self@.previous_commit_time.timestamp,
                cursor == self@.cursor(day as int).timestamp,
                window_views(windows@) == self@.windows(day as int),
                index <= windows.len(),
                choice_view(best) == self@.earliest_candidate(day as int, index as int),
                best matches Some(timestamp) ==> representable(timestamp as int),
                forall|i: int|
                    0 <= i < index ==> !self@.fits_now(
                        day as int,
                        #[trigger] self@.windows(day as int)[i],
                    ),
            decreases windows.len() - index,
        {
            let window = windows[index];
            let ghost view = self@.windows(day as int)[index as int];
            proof {
                assert(window@ == window_views(windows@)[index as int]);
            }
            let opens = window.start().seconds_from_midnight();
            let closes = window.end().seconds_from_midnight();
            let start = same_day_at_time(cursor, offset, opens);
            let end = same_day_at_time(cursor, offset, closes);
            if previous <= end {
                if start <= now && now <= end {
                    proof {
                        assert(self@.fits_now(day as int, view));
                    }
                    return Some(now);
                }
                let candidate = if previous + SECONDS_PER_MINUTE > start {
                    previous + SECONDS_PER_MINUTE
                } else {
                    start
                };
                let shown = second_of_day_at(candidate, offset);
                if opens <= shown && shown <= closes {
                    best =
                    match best {
                        Some(earlier) => if earlier <= candidate {
                            Some(earlier)
                        } else {
                            Some(candidate)
                        },
                        None => Some(candidate),
                    };
                }
            }
            index = index + 1;
        }
        best
    }
}

impl Clone for SchedulingContext {
    /// A context with the same input.
    fn clone(&self) -> (copy: SchedulingContext)
        ensures
            copy@ == self@,
    {
        proof {
            use_type_invariant(self);
        }
        SchedulingContext {
            now: self.now,
            previous_commit_time: self.previous_commit_time,
            schedule: self.schedule.clone(),
            horizon_days: self.horizon_days,
        }
    }
}

/// Finds the timestamp for the current commit: the earliest instant that the
/// weekly schedule permits and that does not precede the previous commit, or
/// the finding that there is none within the horizon.
///
/// The outcome is that of the scan. In particular: "now" is the answer
/// wherever it lies in a window of its own weekday that is not skipped; the
/// answer does not precede the previous commit, unless "now" is the answer
/// and the previous commit lies in the future; and there is no answer where
/// every window up to the horizon closed before the previous commit.
pub fn schedule(context: &SchedulingContext) -> (decision: SchedulingDecision)
    ensures
        decision@ == context@.decide(),
        context@.now_fits_on(0) ==> decision@ == DecisionView::Scheduled(context@.now),
        decision@ matches DecisionView::Scheduled(instant) ==> {
            ||| instant.timestamp >= context@.previous_commit_time.timestamp
            ||| context@.now_fits_on(0) && context@.previous_commit_time.timestamp
                > context@.now.timestamp
        },
        (forall|day: int, i: int|
            0 <= day <= context@.horizon_days && 0 <= i < context@.windows(day).len()
                ==> context@.skips(day, #[trigger] context@.windows(day)[i])) ==> decision@
            == DecisionView::NoSlotFound,
{
    proof {
        use_type_invariant(context);
    }
    let zone = context.now.offset();
    let horizon = context.horizon_days as i64;
    let mut decision = SchedulingDecision::NoSlotFound;
    let mut day: i64 = 0;
    while day <= horizon
        invariant_except_break
            0 <= day <= horizon + 1,
            context@.choice_from(day as int) == context@.choice_from(0),
            decision == SchedulingDecision::NoSlotFound,
        invariant
            context@.wf(),
            horizon == context@.horizon_days,
            zone@ == context@.now.offset,
        ensures
            decision@ == context@.decide(),
        decreases horizon + 1 - day,
    {
        match context.choose_on_day(day) {
            Some(timestamp) => {
                decision = SchedulingDecision::Scheduled(ZonedInstant::from_parts(timestamp, zone));
                break ;
            },
            None => {},
        }
        day = day + 1;
    }
    proof {
        if context@.now_fits_on(0) {
            lemma_now_wins(context@);
        }
        if !(context@.now_fits_on(0) && context@.previous_commit_time.timestamp
            > context@.now.timestamp) {
            lemma_decision_follows_previous_commit(context@);
        }
        if forall|day: int, i: int|
            0 <= day <= context@.horizon_days && 0 <= i < context@.windows(day).len()
                ==> context@.skips(day, #[trigger] context@.windows(day)[i]) {
            lemma_no_slot_when_all_windows_skipped(context@);
        }
    }
    decision
}

/// The earliest offer of a day is the offer of one of its windows that
/// admit theirs, and no such window offers an earlier one; there is none
/// exactly where no window admits its offer.
pub proof fn lemma_earliest_candidate(context: ContextView, day: int, count: int)
    requires
        0 <= count <= context.windows(day).len(),
    ensures
        context.earliest_candidate(day, count) is None <==> (forall|i: int|
            0 <= i < count ==> !context.admits(day, #[trigger] context.windows(day)[i])),
        context.earliest_candidate(day, count) matches Some(best) ==> {
            &&& exists|i: int|
                0 <= i < count && context.admits(day, #[trigger] context.windows(day)[i])
                    && context.candidate(day, context.windows(day)[i]) == best
            &&& forall|i: int|
                0 <= i < count && context.admits(day, #[trigger] context.windows(day)[i]) ==> best
                    <= context.candidate(day, context.windows(day)[i])
        },
    decreases count,
{
    if count > 0 {
        lemma_earliest_candidate(context, day, count - 1);
        let window = context.windows(day)[count - 1];
        let earlier = context.earliest_candidate(day, count - 1);
        if let Some(best) = context.earliest_candidate(day, count) {
            if context.admits(day, window) && best == context.candidate(day, window) {
                assert(context.admits(day, context.windows(day)[count - 1]));
            } else {
                let i = choose|i: int|
                    0 <= i < count - 1 && context.admits(day, #[trigger] context.windows(day)[i])
                        && context.candidate(day, context.windows(day)[i]) == best;
                assert(context.admits(day, context.windows(day)[i]));
            }
        }
    }
}

/// The outcome of the scan is the choice of the first day, from "now" to the
/// horizon, that has one; no slot is found exactly where no day has one.
pub proof fn lemma_first_choice(context: ContextView, from: int)
    requires
        0 <= from,
    ensures
        context.choice_from(from) is None <==> (forall|day: int|
            from <= day <= context.horizon_days ==> (#[trigger] context.day_choice(day)) is None),
        context.choice_from(from) matches Some(timestamp) ==> exists|day: int|
            {
                &&& from <= day <= context.horizon_days
                &&& #[trigger] context.day_choice(day) == Some(timestamp)
                &&& forall|earlier: int|
                    from <= earlier < day ==> (#[trigger] context.day_choice(earlier)) is None
            },
    decreases context.horizon_days + 1 - from,
{
    if from <= context.horizon_days {
        if context.day_choice(from) is Some {
            assert(context.choice_from(from) == context.day_choice(from));
        } else {
            lemma_first_choice(context, from + 1);
            if let Some(timestamp) = context.choice_from(from) {
                let day = choose|day: int|
                    {
                        &&& from + 1 <= day <= context.horizon_days
                        &&& #[trigger] context.day_choice(day) == Some(timestamp)
                        &&& forall|earlier: int|
                            from + 1 <= earlier < day ==> (#[trigger] context.day_choice(
                                earlier,
                            )) is None
                    };
                assert(context.day_choice(day) == Some(timestamp));
            }
        }
    }
}

/// From the day after "now" on, every window opens after "now": "now" can
/// fit a window only on its own day.
pub proof fn lemma_now_fits_only_today(context: ContextView, day: int, window: WindowView)
    requires
        context.wf(),
        window.wf(),
        1 <= day,
    ensures
        context.window_start(day, window) > context.now.timestamp,
        !context.fits_now(day, window),
{
    let local = context.now.timestamp + context.now.offset;
    let today = local / (SECONDS_PER_DAY as int);
    let shown = local % (SECONDS_PER_DAY as int);
    vstd::arithmetic::div_mod::lemma_fundamental_div_mod(local, SECONDS_PER_DAY as int);
    vstd::arithmetic::div_mod::lemma_fundamental_div_mod_converse(
        local + day * SECONDS_PER_DAY,
        SECONDS_PER_DAY as int,
        today + day,
        shown,
    );
}

/// Where "now" lies in a window of its own weekday that is not skipped, the
/// scan answers "now", whatever the other windows offer.
pub proof fn lemma_now_wins(context: ContextView)
    requires
        context.wf(),
        context.now_fits_on(0),
    ensures
        context.decide() == DecisionView::Scheduled(context.now),
{
    assert(context.day_choice(0) == Some(context.now.timestamp));
    assert(context.choice_from(0) == Some(context.now.timestamp));
}

/// The timestamp that the scan answers does not precede the previous
/// commit. Left out is the one case in which it does: "now" fits a window of
/// its own weekday, so that "now" is the answer, while the previous commit
/// lies in the future. Where "now" does not fit, the answer follows the
/// previous commit by a minute or more.
pub proof fn lemma_decision_follows_previous_commit(context: ContextView)
    requires
        context.wf(),
        !(context.now_fits_on(0) && context.previous_commit_time.timestamp
            > context.now.timestamp),
    ensures
        context.decide() matches DecisionView::Scheduled(instant) ==> instant.timestamp
            >= context.previous_commit_time.timestamp,
        context.decide() matches DecisionView::Scheduled(instant) ==> context.now_fits_on(0)
            || instant.timestamp >= context.previous_commit_time.timestamp + SECONDS_PER_MINUTE,
{
    lemma_first_choice(context, 0);
    if let Some(timestamp) = context.choice_from(0) {
        let day = choose|day: int|
            0 <= day <= context.horizon_days && #[trigger] context.day_choice(day) == Some(
                timestamp,
            );
        if context.now_fits_on(day) {
            if day >= 1 {
                let i = choose|i: int|
                    0 <= i < context.windows(day).len() && context.fits_now(
                        day,
                        #[trigger] context.windows(day)[i],
                    );
                assert(context.schedule.dom().contains(context.cursor(day).weekday()));
                lemma_now_fits_only_today(context, day, context.windows(day)[i]);
            }
        } else {
            lemma_earliest_candidate(context, day, context.windows(day).len() as int);
        }
    }
}

/// Every answer of the scan is taken from a window that is not skipped, on a
/// day up to the horizon: it is "now", lying in that window on that day, or
/// it is the offer of that window, and its time of day lies in the window.
pub proof fn lemma_decision_is_taken_from_a_window(context: ContextView)
    requires
        context.wf(),
    ensures
        context.decide() matches DecisionView::Scheduled(instant) ==> exists|day: int, i: int|
            {
                &&& 0 <= day <= context.horizon_days
                &&& 0 <= i < context.windows(day).len()
                &&& !context.skips(day, #[trigger] context.windows(day)[i])
                &&& instant.offset == context.now.offset
                &&& {
                    ||| context.fits_now(day, context.windows(day)[i]) && instant == context.now
                    ||| context.windows(day)[i].contains(instant.second_of_day())
                        && instant.timestamp == context.candidate(day, context.windows(day)[i])
                }
            },
{
    lemma_first_choice(context, 0);
    if let Some(timestamp) = context.choice_from(0) {
        let day = choose|day: int|
            0 <= day <= context.horizon_days && #[trigger] context.day_choice(day) == Some(
                timestamp,
            );
        let instant = InstantView { timestamp, offset: context.now.offset };
        if context.now_fits_on(day) {
            let i = choose|i: int|
                0 <= i < context.windows(day).len() && context.fits_now(
                    day,
                    #[trigger] context.windows(day)[i],
                );
            assert(!context.skips(day, context.windows(day)[i]));
        } else {
            lemma_earliest_candidate(context, day, context.windows(day).len() as int);
            let i = choose|i: int|
                0 <= i < context.windows(day).len() && context.admits(
                    day,
                    #[trigger] context.windows(day)[i],
                ) && context.candidate(day, context.windows(day)[i]) == timestamp;
            assert(!context.skips(day, context.windows(day)[i]));
        }
    }
}

/// Where every window of every day up to the horizon closed before the
/// previous commit was made, the scan finds no slot.
pub proof fn lemma_no_slot_when_all_windows_skipped(context: ContextView)
    requires
        context.wf(),
        forall|day: int, i: int|
            0 <= day <= context.horizon_days && 0 <= i < context.windows(day).len()
                ==> context.skips(day, #[trigger] context.windows(day)[i]),
    ensures
        context.decide() == DecisionView::NoSlotFound,
{
    assert forall|day: int| 0 <= day <= context.horizon_days implies (#[trigger] context.day_choice(
        day,
    )) is None by {
        lemma_earliest_candidate(context, day, context.windows(day).len() as int);
    }
    lemma_first_choice(context, 0);
}

/// A schedule without windows gives no slot.
pub proof fn lemma_no_slot_in_empty_schedule(context: ContextView)
    requires
        context.wf(),
        forall|day: Weekday| (#[trigger] context.schedule[day]).len() == 0,
    ensures
        context.decide() == DecisionView::NoSlotFound,
{
    lemma_no_slot_when_all_windows_skipped(context);
}

} // verus!
