//! What can be wrong with the configuration of a scheduling run.

use vstd::prelude::*;

verus! {

/// One of the two ends of a time window.
#[derive(Clone, Copy, Debug, PartialEq, Eq, Structural)]
pub enum WindowBound {
    Start,
    End,
}

/// Why a list of window declarations was rejected. `declaration` is the
/// position, counted from zero, of the first declaration at fault.
#[derive(Clone, Copy, Debug, PartialEq, Eq, Structural)]
pub enum ValidationError {
    /// The weekday is not one of the seven lower-case English names.
    UnknownWeekday { declaration: usize },
    /// One end of the window is not a time of day.
    MalformedTime { declaration: usize, bound: WindowBound },
    /// The window ends before it starts.
    EndBeforeStart { declaration: usize },
}

/// Why a scheduling run could not be set up.
#[derive(Clone, Copy, Debug, PartialEq, Eq, Structural)]
pub enum ConfigError {
    /// No timezone reference was given.
    MissingTimezone,
    /// The timezone reference is not a numeric offset from UTC.
    InvalidTimezone,
    /// The search horizon is zero, or reaches past the last representable
    /// instant.
    InvalidHorizon,
    /// The weekly schedule was rejected.
    InvalidSchedule(ValidationError),
}

impl From<ValidationError> for ConfigError {
    /// A rejected schedule, seen as a fault of the configuration.
    fn from(fault: ValidationError) -> (error: ConfigError) {
        ConfigError::InvalidSchedule(fault)
    }
}

impl vstd::std_specs::convert::FromSpecImpl<ValidationError> for ConfigError {
    open spec fn obeys_from_spec() -> bool {
        true
    }

    open spec fn from_spec(fault: ValidationError) -> ConfigError {
        ConfigError::InvalidSchedule(fault)
    }
}

/// Why a text was not accepted as a commit date.
#[derive(Clone, Copy, Debug, PartialEq, Eq, Structural)]
pub enum InstantError {
    /// The text does not follow the commit date format.
    Unreadable,
    /// The date lies outside the years 1 to 9999.
    OutOfRange,
}

} // verus!
