//! The data model: timers, recurrence configurations, decisions and errors.

use vstd::prelude::*;

verus! {

/// The system action a timer performs when it fires.
#[derive(Clone, Copy, PartialEq, Eq, Structural, Debug)]
pub enum TimerAction {
    Popup,
    Lock,
    Shutdown,
    Reboot,
}

/// The user's answer to a pre-action warning prompt.
#[derive(Clone, Copy, PartialEq, Eq, Structural, Debug)]
pub enum PreActionDecision {
    RunNow,
    Snooze10,
    CancelAction,
    ContinueScheduled,
}

/// The shape of a recurrence rule.
#[derive(Clone, Copy, PartialEq, Eq, Structural, Debug)]
pub enum RecurrencePreset {
    Daily,
    Weekdays,
    SpecificDays,
    EveryNHours,
    EveryNMinutes,
}

/// A recurrence rule as submitted by a caller. Which of the optional fields
/// must be present depends on the preset; `validate_recurrence` checks that.
#[derive(Debug)]
pub struct RecurrenceConfig {
    pub preset: RecurrencePreset,
    pub interval_hours: Option<u32>,
    pub interval_minutes: Option<u32>,
    pub days_of_week: Option<Vec<String>>,
}

/// The views of a sequence of strings.
pub open spec fn strings_view(v: Seq<String>) -> Seq<Seq<char>> {
    Seq::new(v.len(), |i: int| v[i]@)
}

/// Mathematical image of a `RecurrenceConfig`.
#[verifier::ext_equal]
pub ghost struct RecurrenceConfigView {
    pub preset: RecurrencePreset,
    pub interval_hours: Option<u32>,
    pub interval_minutes: Option<u32>,
    pub days_of_week: Option<Seq<Seq<char>>>,
}

impl View for RecurrenceConfig {
    type V = RecurrenceConfigView;

    open spec fn view(&self) -> RecurrenceConfigView {
        RecurrenceConfigView {
            preset: self.preset,
            interval_hours: self.interval_hours,
            interval_minutes: self.interval_minutes,
            days_of_week: match self.days_of_week {
                Some(days) => Some(strings_view(days@)),
                None => None,
            },
        }
    }
}

impl Clone for RecurrenceConfig {
    fn clone(&self) -> (r: Self)
        ensures
            r@ == self@,
    {
        let r = RecurrenceConfig {
            preset: self.preset,
            interval_hours: self.interval_hours,
            interval_minutes: self.interval_minutes,
            days_of_week: match &self.days_of_week {
                Some(days) => Some(days.clone()),
                None => None,
            },
        };
        proof {
            if self.days_of_week is Some {
                assert(strings_view(r.days_of_week.unwrap()@) =~= strings_view(
                    self.days_of_week.unwrap()@,
                ));
            }
            assert(r@ =~= self@);
        }
        r
    }
}

/// A scheduled timer.
#[derive(Debug)]
pub struct TimerInfo {
    /// Opaque identifier, unique across active timers, stable for the timer's lifetime.
    pub id: String,
    pub action: TimerAction,
    /// Absolute UTC instant (epoch seconds) of the next occurrence.
    pub target_time: u64,
    /// `None` means one-shot.
    pub recurrence: Option<RecurrenceConfig>,
    /// Subset of {1, 5, 10}, sorted ascending, deduplicated.
    pub pre_warning_minutes: Option<Vec<u32>>,
    /// Trimmed text shown by a Popup action.
    pub message: Option<String>,
    pub created_at: u64,
}

/// Mathematical image of a `TimerInfo`.
#[verifier::ext_equal]
pub ghost struct TimerView {
    pub id: Seq<char>,
    pub action: TimerAction,
    pub target_time: u64,
    pub recurrence: Option<RecurrenceConfigView>,
    pub pre_warning_minutes: Option<Seq<u32>>,
    pub message: Option<Seq<char>>,
    pub created_at: u64,
}

impl View for TimerInfo {
    type V = TimerView;

    open spec fn view(&self) -> TimerView {
        TimerView {
            id: self.id@,
            action: self.action,
            target_time: self.target_time,
            recurrence: match self.recurrence {
                Some(c) => Some(c@),
                None => None,
            },
            pre_warning_minutes: match self.pre_warning_minutes {
                Some(w) => Some(w@),
                None => None,
            },
            message: match self.message {
                Some(m) => Some(m@),
                None => None,
            },
            created_at: self.created_at,
        }
    }
}

impl Clone for TimerInfo {
    fn clone(&self) -> (r: Self)
        ensures
            r@ == self@,
    {
        let r = TimerInfo {
            id: self.id.clone(),
            action: self.action,
            target_time: self.target_time,
            recurrence: match &self.recurrence {
                Some(c) => Some(c.clone()),
                None => None,
            },
            pre_warning_minutes: match &self.pre_warning_minutes {
                Some(w) => Some(w.clone()),
                None => None,
            },
            message: match &self.message {
                Some(m) => Some(m.clone()),
                None => None,
            },
            created_at: self.created_at,
        };
        proof {
            if self.pre_warning_minutes is Some {
                assert(r.pre_warning_minutes.unwrap()@ =~= self.pre_warning_minutes.unwrap()@);
            }
            assert(r@ =~= self@);
        }
        r
    }
}

/// A request to create a timer, as submitted by a caller.
#[derive(Debug)]
pub struct CreateTimerRequest {
    pub action: TimerAction,
    /// RFC 3339 timestamp of the first occurrence.
    pub target_time: String,
    pub recurrence: Option<RecurrenceConfig>,
    pub pre_warning_minutes: Option<Vec<u32>>,
    pub message: Option<String>,
}

/// Mathematical image of a `CreateTimerRequest`.
#[verifier::ext_equal]
pub ghost struct CreateTimerRequestView {
    pub action: TimerAction,
    pub target_time: Seq<char>,
    pub recurrence: Option<RecurrenceConfigView>,
    pub pre_warning_minutes: Option<Seq<u32>>,
    pub message: Option<Seq<char>>,
}

impl View for CreateTimerRequest {
    type V = CreateTimerRequestView;

    open spec fn view(&self) -> CreateTimerRequestView {
        CreateTimerRequestView {
            action: self.action,
            target_time: self.target_time@,
            recurrence: match self.recurrence {
                Some(c) => Some(c@),
                None => None,
            },
            pre_warning_minutes: match self.pre_warning_minutes {
                Some(w) => Some(w@),
                None => None,
            },
            message: match self.message {
                Some(m) => Some(m@),
                None => None,
            },
        }
    }
}

/// Why a creation request was rejected.
#[derive(Clone, Copy, PartialEq, Eq, Structural, Debug)]
pub enum ValidationError {
    /// The target time string is not a well-formed RFC 3339 timestamp.
    InvalidTimeFormat,
    /// The target time is not strictly in the future.
    TimeNotInFuture,
    /// The target time lies outside the supported scheduling horizon.
    TimeBeyondHorizon,
    /// A specific-days rule names no day at all.
    SpecificDaysMissing,
    /// A specific-days rule names more than seven days.
    SpecificDaysTooMany,
    /// A specific-days rule names an unrecognized weekday.
    SpecificDaysInvalidDay,
    /// An every-n-hours rule carries no interval.
    HoursIntervalMissing,
    /// An every-n-hours interval lies outside 1..=24.
    HoursIntervalOutOfRange,
    /// An every-n-minutes rule carries no interval.
    MinutesIntervalMissing,
    /// An every-n-minutes interval lies outside 1..=1440.
    MinutesIntervalOutOfRange,
    /// A pre-warning value other than 1, 5 or 10 minutes.
    InvalidWarningMinutes,
}

/// Why a creation request failed.
#[derive(Clone, Copy, PartialEq, Eq, Structural, Debug)]
pub enum TimerError {
    Validation(ValidationError),
    /// The identifier chosen for the new timer is already registered.
    IdInUse,
}

impl ValidationError {
    pub open spec fn spec_message(self) -> Seq<char> {
        match self {
            ValidationError::InvalidTimeFormat => "Invalid date/time format"@,
            ValidationError::TimeNotInFuture => "Selected time must be in the future"@,
            ValidationError::TimeBeyondHorizon => "Selected time is beyond the supported range"@,
            ValidationError::SpecificDaysMissing => "Specific Days requires at least one day."@,
            ValidationError::SpecificDaysTooMany => "Specific Days can include at most 7 days."@,
            ValidationError::SpecificDaysInvalidDay => "Specific Days contains an invalid weekday."@,
            ValidationError::HoursIntervalMissing => "Every N Hours requires an interval."@,
            ValidationError::HoursIntervalOutOfRange => "Interval hours must be between 1 and 24."@,
            ValidationError::MinutesIntervalMissing => "Every N Minutes requires an interval."@,
            ValidationError::MinutesIntervalOutOfRange => "Interval minutes must be between 1 and 1440."@,
            ValidationError::InvalidWarningMinutes => "Pre-warning options must be any of: 1, 5, 10 minutes."@,
        }
    }

    /// The user-facing description of the error.
    pub fn message(&self) -> (r: String)
        ensures
            r@ == self.spec_message(),
    {
        match self {
            ValidationError::InvalidTimeFormat => "Invalid date/time format".to_owned(),
            ValidationError::TimeNotInFuture => "Selected time must be in the future".to_owned(),
            ValidationError::TimeBeyondHorizon => "Selected time is beyond the supported range".to_owned(),
            ValidationError::SpecificDaysMissing => "Specific Days requires at least one day.".to_owned(),
            ValidationError::SpecificDaysTooMany => "Specific Days can include at most 7 days.".to_owned(),
            ValidationError::SpecificDaysInvalidDay => "Specific Days contains an invalid weekday.".to_owned(),
            ValidationError::HoursIntervalMissing => "Every N Hours requires an interval.".to_owned(),
            ValidationError::HoursIntervalOutOfRange => "Interval hours must be between 1 and 24.".to_owned(),
            ValidationError::MinutesIntervalMissing => "Every N Minutes requires an interval.".to_owned(),
            ValidationError::MinutesIntervalOutOfRange => "Interval minutes must be between 1 and 1440.".to_owned(),
            ValidationError::InvalidWarningMinutes => "Pre-warning options must be any of: 1, 5, 10 minutes.".to_owned(),
        }
    }
}

} // verus!
