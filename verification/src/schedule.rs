//! The daemon's tick period, as an enumerated schedule.

use core::time::Duration;

use vstd::prelude::*;

verus! {

/// The fixed periods a daemon may tick on.
pub enum Schedule {
    OneMonth,
    SevenDays,
    SixDays,
    OneDay,
    TwelveHours,
    OneHour,
    ThirtyMinutes,
    OneMinute,
}

impl Schedule {
    /// The period in whole seconds.
    pub open spec fn secs_spec(&self) -> u64 {
        match self {
            Schedule::OneMonth => 2592000,
            Schedule::SevenDays => 604800,
            Schedule::SixDays => 518400,
            Schedule::OneDay => 86400,
            Schedule::TwelveHours => 43200,
            Schedule::OneHour => 3600,
            Schedule::ThirtyMinutes => 1800,
            Schedule::OneMinute => 60,
        }
    }

    /// The period in whole seconds.
    pub fn to_secs(&self) -> (r: u64)
        ensures
            r == self.secs_spec(),
    {
        match self {
            Schedule::OneMonth => 30 * 24 * 60 * 60,
            Schedule::SevenDays => 7 * 24 * 60 * 60,
            Schedule::SixDays => 6 * 24 * 60 * 60,
            Schedule::OneDay => 24 * 60 * 60,
            Schedule::TwelveHours => 12 * 60 * 60,
            Schedule::OneHour => 60 * 60,
            Schedule::ThirtyMinutes => 30 * 60,
            Schedule::OneMinute => 60,
        }
    }

    /// The period as a `Duration` for a timer: the duration of exactly
    /// [`Schedule::secs_spec`] whole seconds.
    pub fn to_duration(&self) -> (r: Duration)
        ensures
            r == duration_of(self.secs_spec()),
    {
        Duration::from_secs(self.to_secs())
    }
}

/// The `Duration` that holds a number of whole seconds.
pub uninterp spec fn duration_of(secs: u64) -> Duration;

/// Relies on core::time::Duration::from_secs: a duration of that many whole
/// seconds, a function of the count alone.
pub assume_specification [ Duration::from_secs ](secs: u64) -> (r: Duration)
    ensures
        r == duration_of(secs),
;

} // verus!
