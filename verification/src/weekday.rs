//! The seven days of the civil week.

use vstd::prelude::*;

verus! {

/// A day of the week. The week is counted from Monday.
#[derive(Clone, Copy, Debug, PartialEq, Eq, Structural)]
pub enum Weekday {
    Monday,
    Tuesday,
    Wednesday,
    Thursday,
    Friday,
    Saturday,
    Sunday,
}

impl Weekday {
    /// Number of days since Monday, `0..=6`.
    pub open spec fn ordinal(self) -> int {
        match self {
            Weekday::Monday => 0,
            Weekday::Tuesday => 1,
            Weekday::Wednesday => 2,
            Weekday::Thursday => 3,
            Weekday::Friday => 4,
            Weekday::Saturday => 5,
            Weekday::Sunday => 6,
        }
    }

    /// The weekday that lies `n` days after a Monday, for `0 <= n < 7`.
    pub open spec fn nth(n: int) -> Weekday {
        if n == 0 {
            Weekday::Monday
        } else if n == 1 {
            Weekday::Tuesday
        } else if n == 2 {
            Weekday::Wednesday
        } else if n == 3 {
            Weekday::Thursday
        } else if n == 4 {
            Weekday::Friday
        } else if n == 5 {
            Weekday::Saturday
        } else {
            Weekday::Sunday
        }
    }

    /// The weekday of the civil day that lies `day` days after 1970-01-01,
    /// which was a Thursday. `day` may be negative.
    pub open spec fn of_epoch_day(day: int) -> Weekday {
        Weekday::nth((day + 3) % 7)
    }

    /// The weekday that a lower-case English name denotes, if any.
    pub open spec fn named(name: Seq<char>) -> Option<Weekday> {
        if name == "monday"@ {
            Some(Weekday::Monday)
        } else if name == "tuesday"@ {
            Some(Weekday::Tuesday)
        } else if name == "wednesday"@ {
            Some(Weekday::Wednesday)
        } else if name == "thursday"@ {
            Some(Weekday::Thursday)
        } else if name == "friday"@ {
            Some(Weekday::Friday)
        } else if name == "saturday"@ {
            Some(Weekday::Saturday)
        } else if name == "sunday"@ {
            Some(Weekday::Sunday)
        } else {
            None
        }
    }

    /// Number of days since Monday.
    pub fn days_from_monday(self) -> (n: usize)
        ensures
            n == self.ordinal(),
            n < 7,
    {
        match self {
            Weekday::Monday => 0,
            Weekday::Tuesday => 1,
            Weekday::Wednesday => 2,
            Weekday::Thursday => 3,
            Weekday::Friday => 4,
            Weekday::Saturday => 5,
            Weekday::Sunday => 6,
        }
    }

    /// The weekday `n` days after Monday; `None` unless `n < 7`.
    pub fn from_days_from_monday(n: usize) -> (day: Option<Weekday>)
        ensures
            n < 7 ==> day == Some(Weekday::nth(n as int)),
            n >= 7 ==> day is None,
    {
        if n == 0 {
            Some(Weekday::Monday)
        } else if n == 1 {
            Some(Weekday::Tuesday)
        } else if n == 2 {
            Some(Weekday::Wednesday)
        } else if n == 3 {
            Some(Weekday::Thursday)
        } else if n == 4 {
            Some(Weekday::Friday)
        } else if n == 5 {
            Some(Weekday::Saturday)
        } else if n == 6 {
            Some(Weekday::Sunday)
        } else {
            None
        }
    }

    /// Recognises the lower-case English name of a weekday. Any other text,
    /// including a capitalised or abbreviated name, is rejected.
    pub fn from_name(name: &str) -> (day: Option<Weekday>)
        ensures
            day == Weekday::named(name@),
    {
        let text = String::from_str(name);
        if text == String::from_str("monday") {
            Some(Weekday::Monday)
        } else if text == String::from_str("tuesday") {
            Some(Weekday::Tuesday)
        } else if text == String::from_str("wednesday") {
            Some(Weekday::Wednesday)
        } else if text == String::from_str("thursday") {
            Some(Weekday::Thursday)
        } else if text == String::from_str("friday") {
            Some(Weekday::Friday)
        } else if text == String::from_str("saturday") {
            Some(Weekday::Saturday)
        } else if text == String::from_str("sunday") {
            Some(Weekday::Sunday)
        } else {
            None
        }
    }
}

/// `nth` and `ordinal` are inverse to each other.
pub proof fn lemma_ordinal_round_trip(day: Weekday, n: int)
    ensures
        0 <= day.ordinal() < 7,
        Weekday::nth(day.ordinal()) == day,
        0 <= n < 7 ==> Weekday::nth(n).ordinal() == n,
{
}

} // verus!
