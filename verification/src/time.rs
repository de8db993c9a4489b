//! Instants and weekdays.
//!
//! The engine measures time in whole seconds since the Unix epoch (UTC).
//! Every instant it schedules with lies at or below [`MAX_INSTANT`], the last
//! second of year 9999; that horizon keeps all date arithmetic comfortably
//! inside `u64`.

use vstd::prelude::*;

verus! {

/// Last supported instant: 9999-12-31T23:59:59Z as seconds since the Unix epoch.
pub const MAX_INSTANT: u64 = 253_402_300_799;

pub const SECS_PER_MINUTE: u64 = 60;
pub const SECS_PER_HOUR: u64 = 3_600;
pub const SECS_PER_DAY: u64 = 86_400;

/// An instant the engine can schedule: within the supported horizon.
pub open spec fn valid_instant(t: u64) -> bool {
    t <= MAX_INSTANT
}

/// Day of the week.
#[derive(Clone, Copy, PartialEq, Eq, Structural, Debug)]
pub enum Weekday {
    Mon,
    Tue,
    Wed,
    Thu,
    Fri,
    Sat,
    Sun,
}

/// Day-of-week index of an instant, 0 = Monday through 6 = Sunday.
/// Day 0 of the epoch (1970-01-01) was a Thursday, index 3.
pub open spec fn spec_weekday_index(t: u64) -> u64 {
    ((t / SECS_PER_DAY + 3) % 7) as u64
}

pub open spec fn weekday_from_index(i: u64) -> Weekday {
    if i == 0 {
        Weekday::Mon
    } else if i == 1 {
        Weekday::Tue
    } else if i == 2 {
        Weekday::Wed
    } else if i == 3 {
        Weekday::Thu
    } else if i == 4 {
        Weekday::Fri
    } else if i == 5 {
        Weekday::Sat
    } else {
        Weekday::Sun
    }
}

/// The weekday on which an instant falls (UTC calendar).
pub open spec fn spec_weekday_of(t: u64) -> Weekday {
    weekday_from_index(spec_weekday_index(t))
}

pub open spec fn is_weekend(d: Weekday) -> bool {
    d == Weekday::Sat || d == Weekday::Sun
}

pub fn weekday_of(t: u64) -> (r: Weekday)
    ensures
        r == spec_weekday_of(t),
{
    let days: u64 = t / SECS_PER_DAY;
    proof {
        vstd::arithmetic::div_mod::lemma_div_nonincreasing(t as int, SECS_PER_DAY as int);
    }
    let idx: u64 = (days + 3) % 7;
    if idx == 0 {
        Weekday::Mon
    } else if idx == 1 {
        Weekday::Tue
    } else if idx == 2 {
        Weekday::Wed
    } else if idx == 3 {
        Weekday::Thu
    } else if idx == 4 {
        Weekday::Fri
    } else if idx == 5 {
        Weekday::Sat
    } else {
        Weekday::Sun
    }
}

} // verus!
