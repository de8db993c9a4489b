//! The recurrence calculator: weekday parsing, rule validation, and the
//! computation of the next occurrence after a fired one.

use vstd::prelude::*;

use crate::text::{chars_eq_str, lower_chars, lower_seq, spec_trim, str_to_chars, trim_chars};
use crate::time::{
    is_weekend, spec_weekday_of, valid_instant, weekday_of, Weekday, MAX_INSTANT, SECS_PER_DAY,
    SECS_PER_HOUR, SECS_PER_MINUTE,
};
use crate::types::{strings_view, RecurrenceConfig, RecurrenceConfigView, RecurrencePreset, ValidationError};

verus! {

/// The weekday a day name denotes, after trimming and ASCII-lowercasing;
/// `None` for an unrecognized name.
pub open spec fn spec_parse_weekday(s: Seq<char>) -> Option<Weekday> {
    let t = lower_seq(spec_trim(s));
    if t == "mon"@ || t == "monday"@ {
        Some(Weekday::Mon)
    } else if t == "tue"@ || t == "tues"@ || t == "tuesday"@ {
        Some(Weekday::Tue)
    } else if t == "wed"@ || t == "wednesday"@ {
        Some(Weekday::Wed)
    } else if t == "thu"@ || t == "thur"@ || t == "thurs"@ || t == "thursday"@ {
        Some(Weekday::Thu)
    } else if t == "fri"@ || t == "friday"@ {
        Some(Weekday::Fri)
    } else if t == "sat"@ || t == "saturday"@ {
        Some(Weekday::Sat)
    } else if t == "sun"@ || t == "sunday"@ {
        Some(Weekday::Sun)
    } else {
        None
    }
}

/// Recognize a weekday name: common English abbreviations and full names,
/// case-insensitively, ignoring surrounding whitespace.
pub fn parse_weekday(input: &str) -> (r: Option<Weekday>)
    ensures
        r == spec_parse_weekday(input@),
{
    let cs = str_to_chars(input);
    let trimmed = trim_chars(&cs);
    let t = lower_chars(&trimmed);
    if chars_eq_str(&t, "mon") || chars_eq_str(&t, "monday") {
        Some(Weekday::Mon)
    } else if chars_eq_str(&t, "tue") || chars_eq_str(&t, "tues") || chars_eq_str(&t, "tuesday") {
        Some(Weekday::Tue)
    } else if chars_eq_str(&t, "wed") || chars_eq_str(&t, "wednesday") {
        Some(Weekday::Wed)
    } else if chars_eq_str(&t, "thu") || chars_eq_str(&t, "thur") || chars_eq_str(&t, "thurs")
        || chars_eq_str(&t, "thursday") {
        Some(Weekday::Thu)
    } else if chars_eq_str(&t, "fri") || chars_eq_str(&t, "friday") {
        Some(Weekday::Fri)
    } else if chars_eq_str(&t, "sat") || chars_eq_str(&t, "saturday") {
        Some(Weekday::Sat)
    } else if chars_eq_str(&t, "sun") || chars_eq_str(&t, "sunday") {
        Some(Weekday::Sun)
    } else {
        None
    }
}

/// The outcome of validating an optional recurrence configuration.
pub open spec fn spec_validate_recurrence(r: Option<RecurrenceConfigView>) -> Result<
    (),
    ValidationError,
> {
    match r {
        None => Ok(()),
        Some(c) => match c.preset {
            RecurrencePreset::Daily | RecurrencePreset::Weekdays => Ok(()),
            RecurrencePreset::SpecificDays => match c.days_of_week {
                None => Err(ValidationError::SpecificDaysMissing),
                Some(days) => if days.len() == 0 {
                    Err(ValidationError::SpecificDaysMissing)
                } else if days.len() > 7 {
                    Err(ValidationError::SpecificDaysTooMany)
                } else if exists|i: int|
                    0 <= i < days.len() && #[trigger] spec_parse_weekday(days[i]) is None {
                    Err(ValidationError::SpecificDaysInvalidDay)
                } else {
                    Ok(())
                },
            },
            RecurrencePreset::EveryNHours => match c.interval_hours {
                None => Err(ValidationError::HoursIntervalMissing),
                Some(h) => if 1 <= h && h <= 24 {
                    Ok(())
                } else {
                    Err(ValidationError::HoursIntervalOutOfRange)
                },
            },
            RecurrencePreset::EveryNMinutes => match c.interval_minutes {
                None => Err(ValidationError::MinutesIntervalMissing),
                Some(m) => if 1 <= m && m <= 1440 {
                    Ok(())
                } else {
                    Err(ValidationError::MinutesIntervalOutOfRange)
                },
            },
        },
    }
}

/// Check that a recurrence configuration is well-formed: a specific-days rule
/// names between one and seven recognized weekdays, and interval rules carry
/// an interval within range (1..=24 hours, 1..=1440 minutes).
pub fn validate_recurrence(recurrence: Option<&RecurrenceConfig>) -> (r: Result<
    (),
    ValidationError,
>)
    ensures
        r == spec_validate_recurrence(match recurrence {
            Some(c) => Some(c@),
            None => None,
        }),
{
    let c = match recurrence {
        None => {
            return Ok(());
        },
        Some(c) => c,
    };
    match c.preset {
        RecurrencePreset::Daily | RecurrencePreset::Weekdays => Ok(()),
        RecurrencePreset::SpecificDays => {
            let days = match c.days_of_week.as_ref() {
                None => {
                    return Err(ValidationError::SpecificDaysMissing);
                },
                Some(days) => days,
            };
            if days.len() == 0 {
                return Err(ValidationError::SpecificDaysMissing);
            }
            if days.len() > 7 {
                return Err(ValidationError::SpecificDaysTooMany);
            }
            let len = days.len();
            let mut i: usize = 0;
            while i < len
                invariant
                    i <= len,
                    len == days@.len(),
                    0 < len <= 7,
                    recurrence == Some(c),
                    c@.preset == RecurrencePreset::SpecificDays,
                    c@.days_of_week == Some(strings_view(days@)),
                    forall|j: int|
                        0 <= j < i ==> #[trigger] spec_parse_weekday(strings_view(days@)[j])
                            is Some,
                decreases len - i,
            {
                proof {
                    assert(strings_view(days@)[i as int] == days@[i as int]@);
                }
                if parse_weekday(days[i].as_str()).is_none() {
                    proof {
                        assert(spec_parse_weekday(strings_view(days@)[i as int]) is None);
                    }
                    return Err(ValidationError::SpecificDaysInvalidDay);
                }
                i = i + 1;
            }
            Ok(())
        },
        RecurrencePreset::EveryNHours => match c.interval_hours {
            None => Err(ValidationError::HoursIntervalMissing),
            Some(h) => if 1 <= h && h <= 24 {
                Ok(())
            } else {
                Err(ValidationError::HoursIntervalOutOfRange)
            },
        },
        RecurrencePreset::EveryNMinutes => match c.interval_minutes {
            None => Err(ValidationError::MinutesIntervalMissing),
            Some(m) => if 1 <= m && m <= 1440 {
                Ok(())
            } else {
                Err(ValidationError::MinutesIntervalOutOfRange)
            },
        },
    }
}

/// Repeated addition of a fixed positive interval until the result passes `now`.
pub open spec fn spec_advance(next: int, interval: int, now: int) -> int
    decreases now - next,
{
    if next > now || interval < 1 {
        next
    } else if next + interval > now {
        next + interval
    } else {
        spec_advance(next + interval, interval, now)
    }
}

/// The advanced instant lies strictly past `now` and no farther than one
/// interval past `max(next, now)`.
pub proof fn lemma_advance(next: int, interval: int, now: int)
    requires
        interval >= 1,
    ensures
        spec_advance(next, interval, now) > now,
        spec_advance(next, interval, now) <= if next > now {
            next
        } else {
            now + interval
        },
    decreases now - next,
{
    if next > now {
    } else if next + interval > now {
    } else {
        lemma_advance(next + interval, interval, now);
    }
}

/// Whether a weekday satisfies the rule's day filter.
pub open spec fn allowed_weekday(c: RecurrenceConfigView, d: Weekday) -> bool {
    match c.preset {
        RecurrencePreset::Weekdays => !is_weekend(d),
        RecurrencePreset::SpecificDays => match c.days_of_week {
            Some(days) => exists|i: int|
                0 <= i < days.len() && #[trigger] spec_parse_weekday(days[i]) == Some(d),
            None => false,
        },
        _ => false,
    }
}

/// Whether a specific-days rule names at least one recognized weekday.
pub open spec fn has_allowed_day(c: RecurrenceConfigView) -> bool {
    match c.days_of_week {
        Some(days) => exists|i: int|
            0 <= i < days.len() && #[trigger] spec_parse_weekday(days[i]) is Some,
        None => false,
    }
}

/// Scan the days `k..=14` after the fired date for the first day whose
/// weekday passes the filter and whose instant (same time of day) lies past
/// `now`.
pub open spec fn spec_scan(target: u64, c: RecurrenceConfigView, now: u64, k: int) -> Option<int>
    decreases 15 - k,
{
    if k > 14 {
        None
    } else {
        let cand = target + k * (SECS_PER_DAY as int);
        if allowed_weekday(c, spec_weekday_of(cand as u64)) && cand > now {
            Some(cand)
        } else {
            spec_scan(target, c, now, k + 1)
        }
    }
}

/// Whatever the scan returns lies strictly past `now` and at most 14 days
/// past the fired instant.
pub proof fn lemma_scan_bounds(target: u64, c: RecurrenceConfigView, now: u64, k: int)
    requires
        1 <= k,
    ensures
        spec_scan(target, c, now, k) matches Some(t) ==> now < t <= target + 14 * (
        SECS_PER_DAY as int),
    decreases 15 - k,
{
    if k > 14 {
    } else {
        lemma_scan_bounds(target, c, now, k + 1);
    }
}

/// Keep an instant only if it lies within the supported horizon.
pub open spec fn cap_instant(t: int) -> Option<u64> {
    if t <= MAX_INSTANT {
        Some(t as u64)
    } else {
        None
    }
}

/// The next occurrence after `target` fires, per rule `c`, strictly after
/// `now`; `None` when the rule yields no further valid occurrence.
pub open spec fn spec_next_run(target: u64, c: RecurrenceConfigView, now: u64) -> Option<u64> {
    match c.preset {
        RecurrencePreset::Daily => cap_instant(
            spec_advance(target + SECS_PER_DAY, SECS_PER_DAY as int, now as int),
        ),
        RecurrencePreset::EveryNHours => match c.interval_hours {
            None => None,
            Some(h) => if h >= 1 {
                cap_instant(
                    spec_advance(
                        target + (h as int) * (SECS_PER_HOUR as int),
                        (h as int) * (SECS_PER_HOUR as int),
                        now as int,
                    ),
                )
            } else {
                None
            },
        },
        RecurrencePreset::EveryNMinutes => match c.interval_minutes {
            None => None,
            Some(m) => if m >= 1 {
                cap_instant(
                    spec_advance(
                        target + (m as int) * (SECS_PER_MINUTE as int),
                        (m as int) * (SECS_PER_MINUTE as int),
                        now as int,
                    ),
                )
            } else {
                None
            },
        },
        RecurrencePreset::Weekdays => match spec_scan(target, c, now, 1) {
            Some(t) => cap_instant(t),
            None => None,
        },
        RecurrencePreset::SpecificDays => if c.days_of_week is Some && has_allowed_day(c) {
            match spec_scan(target, c, now, 1) {
                Some(t) => cap_instant(t),
                None => None,
            }
        } else {
            None
        },
    }
}

/// Whether the rule's day filter passes weekday `d`, executably.
fn day_filter_passes(c: &RecurrenceConfig, d: Weekday) -> (r: bool)
    ensures
        r == allowed_weekday(c@, d),
{
    match c.preset {
        RecurrencePreset::Weekdays => !(d == Weekday::Sat || d == Weekday::Sun),
        RecurrencePreset::SpecificDays => match c.days_of_week.as_ref() {
            Some(days) => {
                let len = days.len();
                let mut i: usize = 0;
                while i < len
                    invariant
                        i <= len,
                        len == days@.len(),
                        c@.preset == RecurrencePreset::SpecificDays,
                        c@.days_of_week == Some(strings_view(days@)),
                        forall|j: int|
                            0 <= j < i ==> #[trigger] spec_parse_weekday(
                                strings_view(days@)[j],
                            ) != Some(d),
                    decreases len - i,
                {
                    proof {
                        assert(strings_view(days@)[i as int] == days@[i as int]@);
                    }
                    match parse_weekday(days[i].as_str()) {
                        Some(p) => {
                            if p == d {
                                proof {
                                    assert(spec_parse_weekday(
                                        strings_view(days@)[i as int],
                                    ) == Some(d));
                                }
                                return true;
                            }
                        },
                        None => {},
                    }
                    i = i + 1;
                }
                false
            },
            None => false,
        },
        _ => false,
    }
}

/// Whether a specific-days list names any recognized weekday, executably.
fn any_allowed_day(c: &RecurrenceConfig) -> (r: bool)
    ensures
        r == has_allowed_day(c@),
{
    match c.days_of_week.as_ref() {
        Some(days) => {
            let len = days.len();
            let mut i: usize = 0;
            while i < len
                invariant
                    i <= len,
                    len == days@.len(),
                    c@.days_of_week == Some(strings_view(days@)),
                    forall|j: int|
                        0 <= j < i ==> #[trigger] spec_parse_weekday(strings_view(days@)[j])
                            is None,
                decreases len - i,
            {
                proof {
                    assert(strings_view(days@)[i as int] == days@[i as int]@);
                }
                if parse_weekday(days[i].as_str()).is_some() {
                    proof {
                        assert(spec_parse_weekday(strings_view(days@)[i as int]) is Some);
                    }
                    return true;
                }
                i = i + 1;
            }
            false
        },
        None => false,
    }
}

/// Compute the next occurrence of a recurring timer after the occurrence at
/// `current_target` has been consumed: strictly after `now`, within the
/// supported horizon, or `None` when the rule yields no further occurrence
/// (day scan exhausted, no recognized day, missing or zero interval, or past
/// the horizon).
pub fn compute_next_run(current_target: u64, recurrence: &RecurrenceConfig, now: u64) -> (r:
    Option<u64>)
    requires
        valid_instant(current_target),
        valid_instant(now),
    ensures
        r == spec_next_run(current_target, recurrence@, now),
        r matches Some(t) ==> now < t && valid_instant(t),
{
    match recurrence.preset {
        RecurrencePreset::Daily => advance_by_interval(current_target, SECS_PER_DAY, now),
        RecurrencePreset::EveryNHours => match recurrence.interval_hours {
            None => None,
            Some(h) => if h >= 1 {
                advance_by_interval(current_target, (h as u64) * SECS_PER_HOUR, now)
            } else {
                None
            },
        },
        RecurrencePreset::EveryNMinutes => match recurrence.interval_minutes {
            None => None,
            Some(m) => if m >= 1 {
                advance_by_interval(current_target, (m as u64) * SECS_PER_MINUTE, now)
            } else {
                None
            },
        },
        RecurrencePreset::Weekdays | RecurrencePreset::SpecificDays => {
            if matches!(recurrence.preset, RecurrencePreset::SpecificDays) {
                if recurrence.days_of_week.is_none() || !any_allowed_day(recurrence) {
                    return None;
                }
            }
            let mut k: u64 = 1;
            while k <= 14
                invariant
                    1 <= k <= 15,
                    valid_instant(current_target),
                    valid_instant(now),
                    spec_scan(current_target, recurrence@, now, k as int) == spec_scan(
                        current_target,
                        recurrence@,
                        now,
                        1,
                    ),
                decreases 15 - k,
            {
                let cand: u64 = current_target + k * SECS_PER_DAY;
                let wd = weekday_of(cand);
                if day_filter_passes(recurrence, wd) && cand > now {
                    proof {
                        lemma_scan_bounds(current_target, recurrence@, now, 1);
                    }
                    if cand <= MAX_INSTANT {
                        return Some(cand);
                    } else {
                        return None;
                    }
                }
                k = k + 1;
            }
            None
        },
    }
}

/// Advance `current_target` by whole intervals until the result passes `now`;
/// `None` past the horizon or for a zero interval.
fn advance_by_interval(current_target: u64, interval: u64, now: u64) -> (r: Option<u64>)
    requires
        valid_instant(current_target),
        valid_instant(now),
        1 <= interval <= 0x100000000000,
    ensures
        r == cap_instant(
            spec_advance(current_target + interval, interval as int, now as int),
        ),
        r matches Some(t) ==> now < t && valid_instant(t),
{
    let mut next: u64 = current_target + interval;
    while next <= now
        invariant
            valid_instant(now),
            1 <= interval <= 0x100000000000,
            spec_advance(next as int, interval as int, now as int) == spec_advance(
                current_target + interval,
                interval as int,
                now as int,
            ),
        decreases now + interval - next,
    {
        next = next + interval;
    }
    proof {
        lemma_advance(current_target + interval, interval as int, now as int);
    }
    if next <= MAX_INSTANT {
        Some(next)
    } else {
        None
    }
}

/// Law: the recurrence calculator never proposes an instant at or before
/// `now`; and, for inputs comfortably inside the supported horizon and a
/// validated rule, it returns `None` only for the day-scanning rules
/// (`Weekdays`, `SpecificDays`) whose bounded 14-day search can be exhausted.
///
/// The slack below [`MAX_INSTANT`] matters: within the last days before the
/// horizon the calculator retires fixed-interval rules too, since their next
/// step would leave the supported range (`cap_instant`).
pub proof fn lemma_next_occurrence_strictly_future(
    target: u64,
    c: RecurrenceConfigView,
    now: u64,
)
    requires
        spec_validate_recurrence(Some(c)) is Ok,
        target + 15 * (SECS_PER_DAY as int) <= MAX_INSTANT,
        now + 15 * (SECS_PER_DAY as int) <= MAX_INSTANT,
    ensures
        spec_next_run(target, c, now) matches Some(t) ==> now < t,
        spec_next_run(target, c, now) is None ==> c.preset == RecurrencePreset::Weekdays
            || c.preset == RecurrencePreset::SpecificDays,
{
    match c.preset {
        RecurrencePreset::Daily => {
            lemma_advance(target + SECS_PER_DAY, SECS_PER_DAY as int, now as int);
        },
        RecurrencePreset::EveryNHours => {
            let h = c.interval_hours->0;
            lemma_advance(
                target + (h as int) * (SECS_PER_HOUR as int),
                (h as int) * (SECS_PER_HOUR as int),
                now as int,
            );
            assert((h as int) * (SECS_PER_HOUR as int) <= 24 * 3600) by (nonlinear_arith)
                requires 1 <= h <= 24;
        },
        RecurrencePreset::EveryNMinutes => {
            let m = c.interval_minutes->0;
            lemma_advance(
                target + (m as int) * (SECS_PER_MINUTE as int),
                (m as int) * (SECS_PER_MINUTE as int),
                now as int,
            );
            assert((m as int) * (SECS_PER_MINUTE as int) <= 1440 * 60) by (nonlinear_arith)
                requires 1 <= m <= 1440;
        },
        RecurrencePreset::Weekdays | RecurrencePreset::SpecificDays => {
            lemma_scan_bounds(target, c, now, 1);
        },
    }
}

} // verus!

