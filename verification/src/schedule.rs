//! The weekly schedule: for every weekday, its permitted windows in
//! ascending order of their start.

use vstd::prelude::*;

use crate::calendar::naive_time_parsed;
use crate::calendar::parse_naive_time;
use crate::clock::within_day;
use crate::clock::TimeOfDay;
use crate::clock::TimeWindow;
use crate::clock::WindowView;
use crate::declaration::declaration_views;
use crate::declaration::declarations_in_all;
use crate::declaration::read_declarations;
use crate::declaration::text_views;
use crate::declaration::DeclarationView;
use crate::declaration::WindowDeclaration;
use crate::error::ValidationError;
use crate::error::WindowBound;
use crate::sorting::all_well_formed;
use crate::sorting::insert_sorted;
use crate::sorting::inserted;
use crate::sorting::lemma_inserted;
use crate::sorting::lemma_sorted_stably;
use crate::sorting::lemma_sorted_stably_keeps_order;
use crate::sorting::sorted_by_start;
use crate::sorting::sorted_stably;
use crate::sorting::starting_at;
use crate::sorting::window_views;
use crate::weekday::lemma_ordinal_round_trip;
use crate::weekday::Weekday;

verus! {

/// A timetable holds a list of well-formed windows for every weekday, each
/// list in ascending order of start.
pub open spec fn timetable_wf(table: Map<Weekday, Seq<WindowView>>) -> bool {
    forall|day: Weekday|
        #![trigger table[day]]
        #![trigger table.dom().contains(day)]
        table.dom().contains(day) && sorted_by_start(table[day]) && all_well_formed(table[day])
}

/// A list of windows, each tagged with its weekday, as contracts see it.
pub open spec fn entry_views(entries: Seq<(Weekday, TimeWindow)>) -> Seq<(Weekday, WindowView)> {
    entries.map_values(|entry: (Weekday, TimeWindow)| (entry.0, entry.1@))
}

/// The windows that the entries give for `day`, in the order of the entries.
pub open spec fn windows_on(entries: Seq<(Weekday, WindowView)>, day: Weekday) -> Seq<WindowView>
    decreases entries.len(),
{
    if entries.len() == 0 {
        Seq::empty()
    } else if entries.last().0 == day {
        windows_on(entries.drop_last(), day).push(entries.last().1)
    } else {
        windows_on(entries.drop_last(), day)
    }
}

/// The timetable that the entries make: for every weekday its windows,
/// gathered in the order of the entries and then sorted by start.
pub open spec fn timetable(entries: Seq<(Weekday, WindowView)>) -> Map<Weekday, Seq<WindowView>> {
    Map::new(|day: Weekday| true, |day: Weekday| sorted_stably(windows_on(entries, day)))
}

/// The format in which the ends of a window are declared: hour and minute
/// on the 24-hour clock.
pub open spec fn time_format() -> Seq<char> {
    "%H:%M"@
}

/// The seconds since midnight that a declared time of day stands for, where
/// it can be read.
pub open spec fn time_read(text: Seq<char>) -> Option<int> {
    naive_time_parsed(text, time_format())
}

/// Seconds since midnight that may be absent, as contracts see them.
pub open spec fn seconds_view(seconds: Option<u32>) -> Option<int> {
    match seconds {
        Some(s) => Some(s as int),
        None => None,
    }
}

/// The entry that a declaration makes once its parts are read, or what is
/// wrong with it: the weekday is checked first, then the start, then the
/// end, then their order.
pub open spec fn entry_of(
    weekday: Option<Weekday>,
    start: Option<int>,
    end: Option<int>,
    position: usize,
) -> Result<(Weekday, WindowView), ValidationError> {
    if weekday is None {
        Err(ValidationError::UnknownWeekday { declaration: position })
    } else if start is None || !within_day(start->0) {
        Err(ValidationError::MalformedTime { declaration: position, bound: WindowBound::Start })
    } else if end is None || !within_day(end->0) {
        Err(ValidationError::MalformedTime { declaration: position, bound: WindowBound::End })
    } else if end->0 < start->0 {
        Err(ValidationError::EndBeforeStart { declaration: position })
    } else {
        Ok((weekday->0, WindowView { start: start->0, end: end->0 }))
    }
}

/// The entry that the declaration at `position` makes, or what is wrong
/// with it.
pub open spec fn declared_entry(declaration: DeclarationView, position: usize) -> Result<
    (Weekday, WindowView),
    ValidationError,
> {
    entry_of(
        Weekday::named(declaration.weekday),
        time_read(declaration.start),
        time_read(declaration.end),
        position,
    )
}

/// The entries that the declarations make, or what is wrong with the first
/// declaration at fault.
pub open spec fn declared_entries(declarations: Seq<DeclarationView>) -> Result<
    Seq<(Weekday, WindowView)>,
    ValidationError,
>
    decreases declarations.len(),
{
    if declarations.len() == 0 {
        Ok(Seq::empty())
    } else {
        match declared_entries(declarations.drop_last()) {
            Err(error) => Err(error),
            Ok(entries) => match declared_entry(
                declarations.last(),
                (declarations.len() - 1) as usize,
            ) {
                Err(error) => Err(error),
                Ok(entry) => Ok(entries.push(entry)),
            },
        }
    }
}

/// What is wrong with the declarations: the fault of every declaration that
/// has one, in the order of the declarations.
pub open spec fn declared_faults(declarations: Seq<DeclarationView>) -> Seq<ValidationError>
    decreases declarations.len(),
{
    if declarations.len() == 0 {
        Seq::empty()
    } else {
        let earlier = declared_faults(declarations.drop_last());
        match declared_entry(declarations.last(), (declarations.len() - 1) as usize) {
            Err(error) => earlier.push(error),
            Ok(_) => earlier,
        }
    }
}

/// The timetable that the declarations make, or what is wrong with the first
/// declaration at fault.
pub open spec fn schedule_of(declarations: Seq<DeclarationView>) -> Result<
    Map<Weekday, Seq<WindowView>>,
    ValidationError,
> {
    match declared_entries(declarations) {
        Ok(entries) => Ok(timetable(entries)),
        Err(error) => Err(error),
    }
}

/// The outcome of building a schedule, as contracts see it.
pub open spec fn outcome_view(outcome: Result<WeeklySchedule, ValidationError>) -> Result<
    Map<Weekday, Seq<WindowView>>,
    ValidationError,
> {
    match outcome {
        Ok(schedule) => Ok(schedule@),
        Err(error) => Err(error),
    }
}

/// Turns the parts of the declaration at `position`, as far as they could be
/// read, into an entry of the schedule.
pub fn entry_from_parsed(
    weekday: Option<Weekday>,
    start: Option<u32>,
    end: Option<u32>,
    position: usize,
) -> (entry: Result<(Weekday, TimeWindow), ValidationError>)
    ensures
        match entry_of(weekday, seconds_view(start), seconds_view(end), position) {
            Ok(expected) => entry matches Ok(found) && found.0 == expected.0 && found.1@
                == expected.1,
            Err(error) => entry matches Err(found) && found == error,
        },
{
    let day = match weekday {
        Some(day) => day,
        None => { return Err(ValidationError::UnknownWeekday { declaration: position }); },
    };
    let opens = match start {
        Some(seconds) => TimeOfDay::from_seconds(seconds),
        None => None,
    };
    let opens = match opens {
        Some(time) => time,
        None => {
            return Err(
                ValidationError::MalformedTime { declaration: position, bound: WindowBound::Start },
            );
        },
    };
    let closes = match end {
        Some(seconds) => TimeOfDay::from_seconds(seconds),
        None => None,
    };
    let closes = match closes {
        Some(time) => time,
        None => {
            return Err(
                ValidationError::MalformedTime { declaration: position, bound: WindowBound::End },
            );
        },
    };
    match TimeWindow::new(opens, closes) {
        Some(window) => Ok((day, window)),
        None => Err(ValidationError::EndBeforeStart { declaration: position }),
    }
}

/// Reads a declared time of day, hour and minute on the 24-hour clock.
pub fn read_time(text: &str) -> (seconds: Option<u32>)
    ensures
        seconds_view(seconds) == time_read(text@),
{
    match parse_naive_time(text, "%H:%M") {
        Ok(seconds) => Some(seconds),
        Err(_) => None,
    }
}

/// Reads the parts of the declaration at `position` and turns them into an
/// entry of the schedule.
pub fn read_entry(declaration: &WindowDeclaration, position: usize) -> (entry: Result<
    (Weekday, TimeWindow),
    ValidationError,
>)
    ensures
        match declared_entry(declaration@, position) {
            Ok(expected) => entry matches Ok(found) && found.0 == expected.0 && found.1@
                == expected.1,
            Err(error) => entry matches Err(found) && found == error,
        },
{
    let weekday = Weekday::from_name(declaration.weekday.as_str());
    let start = read_time(declaration.start.as_str());
    let end = read_time(declaration.end.as_str());
    entry_from_parsed(weekday, start, end, position)
}

/// For every weekday the windows in which a commit may be placed, in
/// ascending order of their start. Windows may overlap or repeat; they are
/// neither merged nor dropped. The view maps each weekday to its list.
#[derive(Debug, PartialEq, Eq)]
pub struct WeeklySchedule {
    days: Vec<Vec<TimeWindow>>,
}

impl View for WeeklySchedule {
    type V = Map<Weekday, Seq<WindowView>>;

    closed spec fn view(&self) -> Map<Weekday, Seq<WindowView>> {
        Map::new(|day: Weekday| true, |day: Weekday| window_views(self.days@[day.ordinal()]@))
    }
}

impl WeeklySchedule {
    /// There is one list for each of the seven weekdays.
    pub closed spec fn covers_week(self) -> bool {
        self.days@.len() == 7
    }

    /// Holds of every schedule: it covers the week, and each day's windows
    /// are well formed and in ascending order of start.
    #[verifier::type_invariant]
    pub open spec fn well_formed(self) -> bool {
        self.covers_week() && timetable_wf(self@)
    }

    /// The schedule that permits nothing.
    pub fn empty() -> (schedule: WeeklySchedule)
        ensures
            schedule@ == timetable(Seq::empty()),
            timetable_wf(schedule@),
    {
        let mut days: Vec<Vec<TimeWindow>> = Vec::new();
        let mut count: usize = 0;
        while count < 7
            invariant
                count <= 7,
                days@.len() == count,
                forall|i: int| 0 <= i < count ==> (#[trigger] days@[i])@.len() == 0,
            decreases 7 - count,
        {
            days.push(Vec::new());
            count = count + 1;
        }
        let schedule = WeeklySchedule { days };
        proof {
            assert forall|day: Weekday| #[trigger] schedule@[day] == Seq::<WindowView>::empty() by {
                lemma_ordinal_round_trip(day, 0);
                assert(schedule.days@[day.ordinal()]@.len() == 0);
                assert(window_views(schedule.days@[day.ordinal()]@) == Seq::<WindowView>::empty());
            }
            assert(schedule@ == timetable(Seq::empty()));
        }
        schedule
    }

    /// The windows of `day`, in ascending order of start.
    pub fn windows(&self, day: Weekday) -> (windows: &Vec<TimeWindow>)
        ensures
            window_views(windows@) == self@[day],
            timetable_wf(self@),
    {
        proof {
            use_type_invariant(self);
        }
        &self.days[day.days_from_monday()]
    }

    /// The schedule with `window` added to `day`, behind the windows of that
    /// day that start no later.
    pub fn with_window(self, day: Weekday, window: TimeWindow) -> (schedule: WeeklySchedule)
        ensures
            schedule@ == self@.insert(day, inserted(self@[day], window@)),
            timetable_wf(schedule@),
    {
        proof {
            use_type_invariant(&self);
            use_type_invariant(&window);
        }
        let ghost before = self@;
        let ghost old_days = self.days@;
        let slot = day.days_from_monday();
        let mut days = self.days;
        let mut list = days.remove(slot);
        proof {
            assert(window_views(list@) == before[day]);
            assert(before.dom().contains(day));
            lemma_inserted(before[day], window@);
        }
        insert_sorted(&mut list, window);
        days.insert(slot, list);
        proof {
            let schedule = WeeklySchedule { days };
            assert(schedule.days@.len() == 7);
            assert forall|other: Weekday| #[trigger]
                schedule@[other] == before.insert(day, inserted(before[day], window@))[other] by {
                lemma_ordinal_round_trip(other, 0);
                lemma_ordinal_round_trip(day, 0);
                if other != day {
                    assert(other.ordinal() != day.ordinal());
                    assert(schedule.days@[other.ordinal()] == old_days[other.ordinal()]);
                }
            }
            assert(schedule@ == before.insert(day, inserted(before[day], window@)));
            assert forall|other: Weekday|
                #![trigger schedule@[other]]
                #![trigger schedule@.dom().contains(other)]
                schedule@.dom().contains(other) && sorted_by_start(schedule@[other])
                    && all_well_formed(schedule@[other]) by {
                assert(before.dom().contains(other));
            }
        }
        WeeklySchedule { days }
    }

    /// The schedule that the entries make: every weekday gets its windows,
    /// sorted by start, and windows of one weekday that start together stay
    /// in the order of the entries.
    pub fn from_windows(entries: &Vec<(Weekday, TimeWindow)>) -> (schedule: WeeklySchedule)
        ensures
            schedule@ == timetable(entry_views(entries@)),
            timetable_wf(schedule@),
    {
        let mut schedule = WeeklySchedule::empty();
        let mut taken: usize = 0;
        while taken < entries.len()
            invariant
                taken <= entries.len(),
                schedule@ == timetable(entry_views(entries@).subrange(0, taken as int)),
                timetable_wf(schedule@),
            decreases entries.len() - taken,
        {
            let entry = entries[taken];
            proof {
                let done = entry_views(entries@).subrange(0, taken as int);
                let next = entry_views(entries@).subrange(0, taken + 1);
                assert(next.drop_last() == done);
                assert(next.last() == (entry.0, entry.1@));
                assert forall|day: Weekday| #[trigger]
                    timetable(next)[day] == timetable(done).insert(
                        entry.0,
                        inserted(timetable(done)[entry.0], entry.1@),
                    )[day] by {
                    if day == entry.0 {
                        let gathered = windows_on(done, day);
                        assert(windows_on(next, day) == gathered.push(entry.1@));
                        assert(gathered.push(entry.1@).drop_last() == gathered);
                    }
                }
                assert(timetable(next) == timetable(done).insert(
                    entry.0,
                    inserted(timetable(done)[entry.0], entry.1@),
                ));
            }
            schedule = schedule.with_window(entry.0, entry.1);
            taken = taken + 1;
        }
        proof {
            assert(entry_views(entries@).subrange(0, taken as int) == entry_views(entries@));
        }
        schedule
    }
}

impl WeeklySchedule {
    /// Builds the schedule from window declarations. Declarations for one
    /// weekday add up. The first declaration at fault, if any, is reported:
    /// one whose weekday is unknown, one of whose ends is not a time of day,
    /// or which ends before it starts.
    pub fn build(declarations: &Vec<WindowDeclaration>) -> (outcome: Result<
        WeeklySchedule,
        ValidationError,
    >)
        ensures
            outcome_view(outcome) == schedule_of(declaration_views(declarations@)),
            outcome matches Ok(schedule) ==> timetable_wf(schedule@),
    {
        let mut entries: Vec<(Weekday, TimeWindow)> = Vec::new();
        let mut index: usize = 0;
        proof {
            assert(entry_views(entries@) == Seq::<(Weekday, WindowView)>::empty());
        }
        while index < declarations.len()
            invariant
                index <= declarations.len(),
                declared_entries(declaration_views(declarations@).subrange(0, index as int)) == Ok::<
                    Seq<(Weekday, WindowView)>,
                    ValidationError,
                >(entry_views(entries@)),
            decreases declarations.len() - index,
        {
            let ghost done = declaration_views(declarations@).subrange(0, index as int);
            let ghost next = declaration_views(declarations@).subrange(0, index + 1);
            proof {
                assert(next.drop_last() == done);
                assert(next.last() == declarations@[index as int]@);
            }
            match read_entry(&declarations[index], index) {
                Ok(entry) => {
                    proof {
                        assert(entry_views(entries@.push(entry)) == entry_views(entries@).push(
                            (entry.0, entry.1@),
                        ));
                    }
                    entries.push(entry);
                },
                Err(error) => {
                    proof {
                        lemma_fault_stays(declaration_views(declarations@), index + 1);
                    }
                    return Err(error);
                },
            }
            index = index + 1;
        }
        proof {
            assert(declaration_views(declarations@).subrange(0, index as int) == declaration_views(
                declarations@,
            ));
        }
        Ok(WeeklySchedule::from_windows(&entries))
    }

    /// Lists what is wrong with the declarations: the fault of every
    /// declaration that has one, in order. `build` succeeds exactly where
    /// the list is empty, and otherwise reports its first fault.
    pub fn faults(declarations: &Vec<WindowDeclaration>) -> (faults: Vec<ValidationError>)
        ensures
            faults@ == declared_faults(declaration_views(declarations@)),
    {
        let mut faults: Vec<ValidationError> = Vec::new();
        let mut index: usize = 0;
        while index < declarations.len()
            invariant
                index <= declarations.len(),
                faults@ == declared_faults(
                    declaration_views(declarations@).subrange(0, index as int),
                ),
            decreases declarations.len() - index,
        {
            proof {
                let done = declaration_views(declarations@).subrange(0, index as int);
                let next = declaration_views(declarations@).subrange(0, index + 1);
                assert(next.drop_last() == done);
                assert(next.last() == declarations@[index as int]@);
            }
            match read_entry(&declarations[index], index) {
                Ok(_) => {},
                Err(error) => {
                    faults.push(error);
                },
            }
            index = index + 1;
        }
        proof {
            assert(declaration_views(declarations@).subrange(0, index as int) == declaration_views(
                declarations@,
            ));
        }
        faults
    }

    /// Builds the schedule from declaration texts of the form
    /// `<weekday>|<HH:MM>-<HH:MM>[,<HH:MM>-<HH:MM>...]`. The position that a
    /// fault is reported with counts the windows of all texts.
    pub fn parse(texts: &Vec<String>) -> (outcome: Result<WeeklySchedule, ValidationError>)
        ensures
            outcome_view(outcome) == schedule_of(declarations_in_all(text_views(texts@))),
            outcome matches Ok(schedule) ==> timetable_wf(schedule@),
    {
        let declarations = read_declarations(texts);
        WeeklySchedule::build(&declarations)
    }
}

/// Copies a list of windows.
fn copy_of(list: &Vec<TimeWindow>) -> (copy: Vec<TimeWindow>)
    ensures
        copy@ == list@,
{
    let mut copy: Vec<TimeWindow> = Vec::new();
    let mut index: usize = 0;
    while index < list.len()
        invariant
            index <= list.len(),
            copy@ == list@.subrange(0, index as int),
        decreases list.len() - index,
    {
        copy.push(list[index]);
        proof {
            assert(list@.subrange(0, index + 1) == list@.subrange(0, index as int).push(
                list@[index as int],
            ));
        }
        index = index + 1;
    }
    proof {
        assert(list@.subrange(0, index as int) == list@);
    }
    copy
}

impl Clone for WeeklySchedule {
    /// A schedule with the same windows.
    fn clone(&self) -> (copy: WeeklySchedule)
        ensures
            copy@ == self@,
    {
        proof {
            use_type_invariant(self);
        }
        let mut days: Vec<Vec<TimeWindow>> = Vec::new();
        let mut slot: usize = 0;
        while slot < 7
            invariant
                self.days@.len() == 7,
                slot <= 7,
                days@.len() == slot,
                forall|i: int| 0 <= i < slot ==> (#[trigger] days@[i])@ == self.days@[i]@,
            decreases 7 - slot,
        {
            let list = copy_of(&self.days[slot]);
            days.push(list);
            slot = slot + 1;
        }
        proof {
            let copy = WeeklySchedule { days };
            assert forall|day: Weekday| #[trigger] copy@[day] == self@[day] by {
                lemma_ordinal_round_trip(day, 0);
                assert(copy.days@[day.ordinal()]@ == self.days@[day.ordinal()]@);
            }
            assert(copy@ == self@);
        }
        WeeklySchedule { days }
    }
}

/// A fault among the first declarations is the fault of the whole list.
pub proof fn lemma_fault_stays(declarations: Seq<DeclarationView>, count: int)
    requires
        0 <= count <= declarations.len(),
        declared_entries(declarations.subrange(0, count)) is Err,
    ensures
        declared_entries(declarations) == declared_entries(declarations.subrange(0, count)),
    decreases declarations.len() - count,
{
    if count < declarations.len() {
        let longer = declarations.subrange(0, count + 1);
        assert(longer.drop_last() == declarations.subrange(0, count));
        lemma_fault_stays(declarations, count + 1);
    } else {
        assert(declarations.subrange(0, count) == declarations);
    }
}

/// The entries of a list of declarations are those of its declarations, one
/// by one; a fault is that of the first declaration that has one.
pub proof fn lemma_declared_entries(declarations: Seq<DeclarationView>)
    ensures
        declared_entries(declarations) matches Ok(entries) ==> {
            &&& entries.len() == declarations.len()
            &&& forall|i: int|
                0 <= i < declarations.len() ==> declared_entry(
                    #[trigger] declarations[i],
                    i as usize,
                ) == Ok::<(Weekday, WindowView), ValidationError>(entries[i])
        },
        declared_entries(declarations) matches Err(error) ==> exists|i: int|
            {
                &&& 0 <= i < declarations.len()
                &&& declared_entry(#[trigger] declarations[i], i as usize) == Err::<
                    (Weekday, WindowView),
                    ValidationError,
                >(error)
                &&& forall|j: int|
                    0 <= j < i ==> declared_entry(#[trigger] declarations[j], j as usize) is Ok
            },
    decreases declarations.len(),
{
    if declarations.len() > 0 {
        let front = declarations.drop_last();
        let last = declarations.len() - 1;
        lemma_declared_entries(front);
        match declared_entries(front) {
            Ok(entries) => {
                assert forall|i: int| 0 <= i < front.len() implies declared_entry(
                    #[trigger] declarations[i],
                    i as usize,
                ) == Ok::<(Weekday, WindowView), ValidationError>(entries[i]) by {
                    assert(front[i] == declarations[i]);
                }
                if let Err(error) = declared_entry(declarations.last(), last as usize) {
                    assert(declared_entry(declarations[last], last as usize) == Err::<
                        (Weekday, WindowView),
                        ValidationError,
                    >(error));
                }
            },
            Err(error) => {
                let i = choose|i: int|
                    {
                        &&& 0 <= i < front.len()
                        &&& declared_entry(#[trigger] front[i], i as usize) == Err::<
                            (Weekday, WindowView),
                            ValidationError,
                        >(error)
                        &&& forall|j: int|
                            0 <= j < i ==> declared_entry(#[trigger] front[j], j as usize) is Ok
                    };
                assert(declarations[i] == front[i]);
                assert forall|j: int| 0 <= j < i implies declared_entry(
                    #[trigger] declarations[j],
                    j as usize,
                ) is Ok by {
                    assert(front[j] == declarations[j]);
                }
            },
        }
    }
}

/// The declarations make a schedule exactly where none of them has a fault;
/// otherwise the fault reported is the first of them.
pub proof fn lemma_first_fault_is_reported(declarations: Seq<DeclarationView>)
    ensures
        declared_entries(declarations) is Ok <==> declared_faults(declarations).len() == 0,
        declared_entries(declarations) matches Err(error) ==> declared_faults(declarations)[0]
            == error,
    decreases declarations.len(),
{
    if declarations.len() > 0 {
        lemma_first_fault_is_reported(declarations.drop_last());
    }
}

/// Building twice from the same declarations gives the same outcome: the
/// same fault, or the same windows in the same order for every weekday.
pub proof fn lemma_build_is_repeatable(
    declarations: Seq<DeclarationView>,
    first: Result<WeeklySchedule, ValidationError>,
    second: Result<WeeklySchedule, ValidationError>,
)
    requires
        outcome_view(first) == schedule_of(declarations),
        outcome_view(second) == schedule_of(declarations),
    ensures
        outcome_view(first) == outcome_view(second),
        first matches Ok(one) ==> (second matches Ok(other) && forall|day: Weekday|
            one@[day] == other@[day]),
{
}

/// Whatever the order of the entries, each day of the timetable holds that
/// day's windows, all of them and no others, in ascending order of start;
/// windows that start together stand in the order of the entries.
pub proof fn lemma_timetable_is_sorted(
    entries: Seq<(Weekday, WindowView)>,
    day: Weekday,
    start: int,
)
    ensures
        sorted_by_start(timetable(entries)[day]),
        timetable(entries)[day].to_multiset() == windows_on(entries, day).to_multiset(),
        starting_at(timetable(entries)[day], start) == starting_at(windows_on(entries, day), start),
{
    lemma_sorted_stably(windows_on(entries, day));
    lemma_sorted_stably_keeps_order(windows_on(entries, day), start);
}

} // verus!
