//! Places a commit timestamp inside a weekly timetable of permitted windows.
//!
//! The crate models a weekly schedule of time-of-day windows and decides, for
//! a given "now" and the timestamp of the preceding commit, the earliest
//! instant the new commit may carry without running backwards in history.

pub mod calendar;
pub mod clock;
pub mod declaration;
pub mod error;
pub mod schedule;
pub mod scheduler;
pub mod sorting;
pub mod text;
pub mod weekday;
