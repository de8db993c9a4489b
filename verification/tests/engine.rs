use lockpilot_core::codec::{decode_timers, encode_timers};
use lockpilot_core::prompt::{build_warning_payload, countdown_seconds, pre_action_window_label,
    PreActionStore};
use lockpilot_core::recurrence::{compute_next_run, parse_weekday, validate_recurrence};
use lockpilot_core::restore::{fast_forward_target, restore_timers};
use lockpilot_core::store::TimerStore;
use lockpilot_core::task::{popup_text, TaskCommand, TaskEvent, TimerTask};
use lockpilot_core::time::{weekday_of, Weekday, MAX_INSTANT};
use lockpilot_core::types::{CreateTimerRequest, PreActionDecision, RecurrenceConfig,
    RecurrencePreset, TimerAction, TimerError, TimerInfo, ValidationError};
use lockpilot_core::warning::{max_pre_warning, normalize_pre_warning_minutes,
    should_show_pre_action_warning};

const DAY: u64 = 86_400;

fn daily() -> RecurrenceConfig {
    RecurrenceConfig {
        preset: RecurrencePreset::Daily,
        interval_hours: None,
        interval_minutes: None,
        days_of_week: None,
    }
}

fn every_hours(h: u32) -> RecurrenceConfig {
    RecurrenceConfig {
        preset: RecurrencePreset::EveryNHours,
        interval_hours: Some(h),
        interval_minutes: None,
        days_of_week: None,
    }
}

fn specific_days(days: Vec<&str>) -> RecurrenceConfig {
    RecurrenceConfig {
        preset: RecurrencePreset::SpecificDays,
        interval_hours: None,
        interval_minutes: None,
        days_of_week: Some(days.into_iter().map(|d| d.to_string()).collect()),
    }
}

fn request(target: &str) -> CreateTimerRequest {
    CreateTimerRequest {
        action: TimerAction::Popup,
        target_time: target.to_string(),
        recurrence: None,
        pre_warning_minutes: None,
        message: None,
    }
}

fn assert_timer_eq(a: &TimerInfo, b: &TimerInfo) {
    assert_eq!(a.id, b.id);
    assert_eq!(a.action, b.action);
    assert_eq!(a.target_time, b.target_time);
    assert_eq!(a.created_at, b.created_at);
    assert_eq!(a.message, b.message);
    assert_eq!(a.pre_warning_minutes, b.pre_warning_minutes);
    match (&a.recurrence, &b.recurrence) {
        (None, None) => {}
        (Some(x), Some(y)) => {
            assert_eq!(x.preset, y.preset);
            assert_eq!(x.interval_hours, y.interval_hours);
            assert_eq!(x.interval_minutes, y.interval_minutes);
            assert_eq!(x.days_of_week, y.days_of_week);
        }
        _ => panic!("recurrence mismatch"),
    }
}

#[test]
fn weekday_of_known_dates() {
    // 1970-01-01 was a Thursday; 2024-01-01 was a Monday.
    assert_eq!(weekday_of(0), Weekday::Thu);
    assert_eq!(weekday_of(1_704_067_200), Weekday::Mon);
    assert_eq!(weekday_of(1_704_067_200 + 5 * DAY), Weekday::Sat);
}

#[test]
fn parse_weekday_accepts_names_and_abbreviations() {
    assert_eq!(parse_weekday(" MONDAY "), Some(Weekday::Mon));
    assert_eq!(parse_weekday("tues"), Some(Weekday::Tue));
    assert_eq!(parse_weekday("Thur"), Some(Weekday::Thu));
    assert_eq!(parse_weekday("sun"), Some(Weekday::Sun));
    assert_eq!(parse_weekday("noday"), None);
    assert_eq!(parse_weekday(""), None);
}

#[test]
fn validate_recurrence_rules() {
    assert!(validate_recurrence(None).is_ok());
    assert!(validate_recurrence(Some(&daily())).is_ok());
    assert!(validate_recurrence(Some(&every_hours(24))).is_ok());
    assert_eq!(
        validate_recurrence(Some(&every_hours(25))),
        Err(ValidationError::HoursIntervalOutOfRange)
    );
    let mut no_interval = every_hours(1);
    no_interval.interval_hours = None;
    assert_eq!(
        validate_recurrence(Some(&no_interval)),
        Err(ValidationError::HoursIntervalMissing)
    );
    let mut minutes = daily();
    minutes.preset = RecurrencePreset::EveryNMinutes;
    assert_eq!(
        validate_recurrence(Some(&minutes)),
        Err(ValidationError::MinutesIntervalMissing)
    );
    minutes.interval_minutes = Some(1441);
    assert_eq!(
        validate_recurrence(Some(&minutes)),
        Err(ValidationError::MinutesIntervalOutOfRange)
    );
    assert_eq!(
        validate_recurrence(Some(&specific_days(vec![]))),
        Err(ValidationError::SpecificDaysMissing)
    );
    assert_eq!(
        validate_recurrence(Some(&specific_days(vec![
            "mon", "tue", "wed", "thu", "fri", "sat", "sun", "mon"
        ]))),
        Err(ValidationError::SpecificDaysTooMany)
    );
    assert_eq!(
        validate_recurrence(Some(&specific_days(vec!["mon", "noday"]))),
        Err(ValidationError::SpecificDaysInvalidDay)
    );
    assert!(validate_recurrence(Some(&specific_days(vec!["Mon", " friday "]))).is_ok());
}

#[test]
fn normalize_pre_warning_minutes_filters_and_sorts() {
    assert_eq!(normalize_pre_warning_minutes(None), Ok(None));
    assert_eq!(normalize_pre_warning_minutes(Some(&vec![])), Ok(Some(vec![])));
    assert_eq!(
        normalize_pre_warning_minutes(Some(&vec![10, 1, 5, 10])),
        Ok(Some(vec![1, 5, 10]))
    );
    assert_eq!(
        normalize_pre_warning_minutes(Some(&vec![5, 7])),
        Err(ValidationError::InvalidWarningMinutes)
    );
}

#[test]
fn max_pre_warning_picks_largest() {
    assert_eq!(max_pre_warning(&vec![5, 1, 10]), Some(10));
    assert_eq!(max_pre_warning(&vec![1]), Some(1));
    assert_eq!(max_pre_warning(&vec![]), None);
}

#[test]
fn warning_policy_covers_all_actions() {
    assert!(should_show_pre_action_warning(&TimerAction::Popup));
    assert!(should_show_pre_action_warning(&TimerAction::Lock));
    assert!(should_show_pre_action_warning(&TimerAction::Shutdown));
    assert!(should_show_pre_action_warning(&TimerAction::Reboot));
}

#[test]
fn next_run_daily_advances_past_now() {
    // P2 on concrete values: strictly after `now`, on the daily grid.
    assert_eq!(compute_next_run(0, &daily(), 200_000), Some(259_200));
    assert_eq!(compute_next_run(1_000, &daily(), 1_000), Some(1_000 + DAY));
}

#[test]
fn next_run_fixed_intervals() {
    assert_eq!(compute_next_run(100, &every_hours(2), 100), Some(7_300));
    let mut minutes = daily();
    minutes.preset = RecurrencePreset::EveryNMinutes;
    minutes.interval_minutes = Some(90);
    assert_eq!(compute_next_run(600, &minutes, 600), Some(600 + 90 * 60));
    // an interval the rule cannot carry yields no occurrence
    let mut broken = daily();
    broken.preset = RecurrencePreset::EveryNHours;
    assert_eq!(compute_next_run(600, &broken, 600), None);
}

#[test]
fn next_run_weekdays_skips_weekend() {
    let weekdays = RecurrenceConfig {
        preset: RecurrencePreset::Weekdays,
        interval_hours: None,
        interval_minutes: None,
        days_of_week: None,
    };
    // Thursday 01:00 fires; next is Friday 01:00.
    assert_eq!(compute_next_run(3_600, &weekdays, 3_600), Some(DAY + 3_600));
    // Friday 01:00 fires; Saturday and Sunday are skipped.
    let friday = DAY + 3_600;
    assert_eq!(compute_next_run(friday, &weekdays, friday), Some(friday + 3 * DAY));
}

#[test]
fn next_run_specific_days() {
    // Thursday 01:00 fires; the next Wednesday is six days on.
    let wed = specific_days(vec!["wed"]);
    assert_eq!(compute_next_run(3_600, &wed, 3_600), Some(6 * DAY + 3_600));
    // No recognized day: no further occurrence.
    assert_eq!(compute_next_run(3_600, &specific_days(vec![]), 3_600), None);
    // The 14-day search window can be exhausted.
    let mon = specific_days(vec!["mon"]);
    assert_eq!(compute_next_run(3_600, &mon, 20 * DAY), None);
}

#[test]
fn create_stores_parsed_target() {
    let mut store = TimerStore::new();
    let created = store
        .create_with_id(request("2030-01-01T00:00:00Z"), "a".to_string(), 1_000)
        .unwrap();
    assert_eq!(created.target_time, 1_893_456_000);
    assert_eq!(created.created_at, 1_000);
    // the same instant written with an offset parses to the same value
    let other = store
        .create_with_id(
            request("2030-01-01T01:00:00+01:00"),
            "b".to_string(),
            1_000,
        )
        .unwrap();
    assert_eq!(other.target_time, 1_893_456_000);
}

#[test]
fn create_rejects_bad_requests() {
    let mut store = TimerStore::new();
    assert_eq!(
        store.create_with_id(request("not-a-date"), "a".to_string(), 0).unwrap_err(),
        TimerError::Validation(ValidationError::InvalidTimeFormat)
    );
    assert_eq!(
        store.create_with_id(request("1999-01-01T00:00:00Z"), "a".to_string(), 2_000_000_000).unwrap_err(),
        TimerError::Validation(ValidationError::TimeNotInFuture)
    );
    let mut bad_rec = request("2030-01-01T00:00:00Z");
    bad_rec.recurrence = Some(every_hours(0));
    assert_eq!(
        store.create_with_id(bad_rec, "a".to_string(), 0).unwrap_err(),
        TimerError::Validation(ValidationError::HoursIntervalOutOfRange)
    );
    let mut bad_warn = request("2030-01-01T00:00:00Z");
    bad_warn.pre_warning_minutes = Some(vec![2]);
    assert_eq!(
        store.create_with_id(bad_warn, "a".to_string(), 0).unwrap_err(),
        TimerError::Validation(ValidationError::InvalidWarningMinutes)
    );
    store
        .create_with_id(request("2030-01-01T00:00:00Z"), "a".to_string(), 0)
        .unwrap();
    assert_eq!(
        store.create_with_id(request("2031-01-01T00:00:00Z"), "a".to_string(), 0).unwrap_err(),
        TimerError::IdInUse
    );
}

#[test]
fn create_trims_message() {
    let mut store = TimerStore::new();
    let mut req = request("2030-01-01T00:00:00Z");
    req.message = Some("  tea time  ".to_string());
    let t = store.create_with_id(req, "a".to_string(), 0).unwrap();
    assert_eq!(t.message.as_deref(), Some("tea time"));
}

#[test]
fn created_ids_are_unique_and_listed_sorted() {
    // P1 on concrete values: each stored under its own id, list sorted.
    let mut store = TimerStore::new();
    store
        .create_with_id(request("2030-01-02T00:00:00Z"), "late".to_string(), 0)
        .unwrap();
    store
        .create_with_id(request("2030-01-01T00:00:00Z"), "early".to_string(), 0)
        .unwrap();
    let listed = store.list_timers();
    assert_eq!(listed.len(), 2);
    assert_eq!(listed[0].id, "early");
    assert_eq!(listed[1].id, "late");
    assert!(listed[0].target_time <= listed[1].target_time);
}

#[test]
fn cancel_is_idempotent() {
    // P3 and the race of P8: of two cancellations exactly one succeeds.
    let mut store = TimerStore::new();
    store
        .create_with_id(request("2030-01-01T00:00:00Z"), "a".to_string(), 0)
        .unwrap();
    let first = store.cancel_timer(&"a".to_string());
    let second = store.cancel_timer(&"a".to_string());
    assert!(first);
    assert!(!second);
    assert!(!store.cancel_timer(&"never".to_string()));
    assert_eq!(store.list_timers().len(), 0);
}

#[test]
fn update_target_time_moves_or_ignores() {
    let mut store = TimerStore::new();
    store
        .create_with_id(request("2030-01-01T00:00:00Z"), "a".to_string(), 0)
        .unwrap();
    store
        .create_with_id(request("2030-06-01T00:00:00Z"), "b".to_string(), 0)
        .unwrap();
    assert!(store.contains_timer(&"a".to_string()));
    assert!(!store.contains_timer(&"zz".to_string()));
    assert!(store.update_target_time(&"a".to_string(), 2_000_000_000));
    let listed = store.list_timers();
    assert_eq!(listed[0].id, "b");
    assert_eq!(listed[1].id, "a");
    assert!(!store.update_target_time(&"gone".to_string(), 1));
}

#[test]
fn persisted_snapshot_round_trips() {
    // P4 on concrete values, including text the codec must carry verbatim.
    let timers = vec![
        TimerInfo {
            id: "one".to_string(),
            action: TimerAction::Popup,
            target_time: 1_893_456_000,
            recurrence: Some(specific_days(vec!["mon", "Friday"])),
            pre_warning_minutes: Some(vec![1, 5, 10]),
            message: Some("h\u{e9}llo \u{fc}nic\u{f6}de \u{1F980}".to_string()),
            created_at: 77,
        },
        TimerInfo {
            id: "two".to_string(),
            action: TimerAction::Reboot,
            target_time: 42,
            recurrence: Some(every_hours(3)),
            pre_warning_minutes: None,
            message: None,
            created_at: 0,
        },
    ];
    let bytes = encode_timers(&timers);
    let back = decode_timers(&bytes).expect("snapshot must decode");
    assert_eq!(back.len(), timers.len());
    for (a, b) in timers.iter().zip(back.iter()) {
        assert_timer_eq(a, b);
    }
    let empty = encode_timers(&vec![]);
    assert_eq!(decode_timers(&empty).unwrap().len(), 0);
}

#[test]
fn malformed_snapshots_are_rejected() {
    assert!(decode_timers(&b"garbage".to_vec()).is_none());
    assert!(decode_timers(&vec![]).is_none());
    let timers = vec![TimerInfo {
        id: "one".to_string(),
        action: TimerAction::Lock,
        target_time: 10,
        recurrence: None,
        pre_warning_minutes: None,
        message: None,
        created_at: 0,
    }];
    let mut bytes = encode_timers(&timers);
    bytes.pop();
    assert!(decode_timers(&bytes).is_none());
    // trailing bytes after the last record are an error too
    let mut long = encode_timers(&timers);
    long.push(b'x');
    assert!(decode_timers(&long).is_none());
}

#[test]
fn prompt_registry_resolves_once() {
    let mut prompts = PreActionStore::new();
    assert!(prompts.register_prompt("p1".to_string(), "t1".to_string()));
    assert!(!prompts.register_prompt("p1".to_string(), "t2".to_string()));
    assert!(prompts.resolve_pre_action(&"p1".to_string()));
    assert!(!prompts.resolve_pre_action(&"p1".to_string()));
    assert!(!prompts.resolve_pre_action(&"unknown".to_string()));
}

#[test]
fn prompt_payload_carries_countdown() {
    assert_eq!(countdown_seconds(10), 600);
    assert_eq!(countdown_seconds(0), 1);
    let p = build_warning_payload("p1".to_string(), "t1".to_string(), TimerAction::Lock, 10);
    assert_eq!(p.prompt_id, "p1");
    assert_eq!(p.timer_id, "t1");
    assert_eq!(p.warning_minutes, 10);
    assert_eq!(p.countdown_seconds, 600);
    assert_eq!(p.snooze_minutes, 10);
    assert_eq!(pre_action_window_label("t1"), "prewarning-t1");
}

#[test]
fn popup_text_defaults_when_blank() {
    assert_eq!(popup_text(Some(&"  tea  ".to_string())), "tea");
    assert_eq!(popup_text(Some(&"   ".to_string())), "LockPilot timer reached.");
    assert_eq!(popup_text(None), "LockPilot timer reached.");
}

fn one_shot_popup(target: u64) -> TimerInfo {
    TimerInfo {
        id: "t".to_string(),
        action: TimerAction::Popup,
        target_time: target,
        recurrence: None,
        pre_warning_minutes: None,
        message: None,
        created_at: 0,
    }
}

#[test]
fn one_shot_fires_once_and_retires() {
    // P5: a one-shot Popup two minutes out fires exactly once, then the
    // timer is removed and the task stops.
    let now: u64 = 1_000_000;
    let timer = one_shot_popup(now + 120);
    let mut task = TimerTask::new(&timer);
    let cmds = task.handle_event(TaskEvent::CycleBegin, now);
    assert_eq!(cmds, vec![TaskCommand::SleepUntilRun { at: now + 120 }]);
    let cmds = task.handle_event(TaskEvent::RunTimeReached, now + 120);
    assert_eq!(
        cmds,
        vec![
            TaskCommand::ClosePrompt,
            TaskCommand::Execute,
            TaskCommand::RemoveTimer,
            TaskCommand::Stop
        ]
    );
    assert_eq!(cmds.iter().filter(|c| **c == TaskCommand::Execute).count(), 1);
}

#[test]
fn lock_timer_warns_and_snoozes() {
    // P6: a Lock timer 15 minutes out with a 10-minute warning prompts at
    // the 5-minute mark with a 600-second countdown; Snooze10 moves the
    // target to now + 10 minutes and a fresh cycle begins.
    let now: u64 = 2_000_000;
    let timer = TimerInfo {
        id: "t".to_string(),
        action: TimerAction::Lock,
        target_time: now + 15 * 60,
        recurrence: None,
        pre_warning_minutes: Some(vec![10]),
        message: None,
        created_at: now,
    };
    let mut task = TimerTask::new(&timer);
    let cmds = task.handle_event(TaskEvent::CycleBegin, now);
    assert_eq!(cmds, vec![TaskCommand::SleepUntilWarning { at: now + 5 * 60 }]);
    let warn_at = now + 5 * 60;
    let cmds = task.handle_event(TaskEvent::WarningTimeReached, warn_at);
    assert_eq!(cmds, vec![TaskCommand::RequestDecision { warning_minutes: 10 }]);
    assert_eq!(countdown_seconds(10), 600);
    let cmds = task.handle_event(
        TaskEvent::DecisionMade(PreActionDecision::Snooze10),
        warn_at,
    );
    assert_eq!(
        cmds,
        vec![
            TaskCommand::ClosePrompt,
            TaskCommand::SaveTarget { at: warn_at + 600 }
        ]
    );
    assert_eq!(task.next_run, warn_at + 600);
    let cmds = task.handle_event(TaskEvent::TargetSaved(true), warn_at);
    assert_eq!(cmds, vec![]);
    let cmds = task.handle_event(TaskEvent::CycleBegin, warn_at);
    assert_eq!(cmds, vec![TaskCommand::SleepUntilRun { at: warn_at + 600 }]);
}

#[test]
fn run_now_still_advances_recurrence() {
    let now: u64 = 3_000_000;
    let timer = TimerInfo {
        id: "t".to_string(),
        action: TimerAction::Popup,
        target_time: now + 15 * 60,
        recurrence: Some(daily()),
        pre_warning_minutes: Some(vec![10]),
        message: None,
        created_at: now,
    };
    let mut task = TimerTask::new(&timer);
    task.handle_event(TaskEvent::CycleBegin, now);
    task.handle_event(TaskEvent::WarningTimeReached, now + 300);
    let cmds = task.handle_event(
        TaskEvent::DecisionMade(PreActionDecision::RunNow),
        now + 300,
    );
    let next = now + 15 * 60 + DAY;
    assert_eq!(
        cmds,
        vec![
            TaskCommand::ClosePrompt,
            TaskCommand::Execute,
            TaskCommand::SaveTarget { at: next }
        ]
    );
    // CancelAction also advances, but without executing.
    let mut task2 = TimerTask::new(&timer);
    task2.handle_event(TaskEvent::CycleBegin, now);
    task2.handle_event(TaskEvent::WarningTimeReached, now + 300);
    let cmds = task2.handle_event(
        TaskEvent::DecisionMade(PreActionDecision::CancelAction),
        now + 300,
    );
    assert_eq!(
        cmds,
        vec![TaskCommand::ClosePrompt, TaskCommand::SaveTarget { at: next }]
    );
}

#[test]
fn cancellation_wins_at_any_suspension() {
    let now: u64 = 4_000_000;
    let timer = one_shot_popup(now + 600);
    let mut task = TimerTask::new(&timer);
    task.handle_event(TaskEvent::CycleBegin, now);
    let cmds = task.handle_event(TaskEvent::Cancelled, now + 1);
    assert_eq!(cmds, vec![TaskCommand::ClosePrompt, TaskCommand::Stop]);
    let cmds = task.handle_event(TaskEvent::RunTimeReached, now + 600);
    assert_eq!(cmds, vec![]);
}

#[test]
fn vanished_store_entry_stops_the_task() {
    let now: u64 = 5_000_000;
    let mut timer = one_shot_popup(now + 900);
    timer.pre_warning_minutes = Some(vec![5]);
    let mut task = TimerTask::new(&timer);
    task.handle_event(TaskEvent::CycleBegin, now);
    task.handle_event(TaskEvent::WarningTimeReached, now + 600);
    task.handle_event(TaskEvent::DecisionMade(PreActionDecision::Snooze10), now + 600);
    let cmds = task.handle_event(TaskEvent::TargetSaved(false), now + 600);
    assert_eq!(cmds, vec![TaskCommand::Stop]);
}

#[test]
fn restore_fast_forwards_overdue_daily() {
    // P7: a Daily timer three days overdue lands on the first daily
    // multiple strictly after `now`.
    let now: u64 = 10_000_000;
    let target = now - 3 * DAY + 100;
    assert_eq!(
        fast_forward_target(target, Some(&daily()), now),
        Some(target + 3 * DAY)
    );
    // an exact multiple still lands strictly after `now`
    let aligned = now - 3 * DAY;
    assert_eq!(
        fast_forward_target(aligned, Some(&daily()), now),
        Some(now + DAY)
    );
}

#[test]
fn restore_keeps_future_and_drops_dead_timers() {
    let now: u64 = 10_000_000;
    let mut store = TimerStore::new();
    let persisted = vec![
        one_shot_popup(now + 50),
        one_shot_popup(now - 50),
        TimerInfo {
            id: "r".to_string(),
            action: TimerAction::Lock,
            target_time: now - 3 * DAY + 100,
            recurrence: Some(daily()),
            pre_warning_minutes: None,
            message: None,
            created_at: 0,
        },
        TimerInfo {
            id: "beyond".to_string(),
            action: TimerAction::Popup,
            target_time: MAX_INSTANT + 1,
            recurrence: None,
            pre_warning_minutes: None,
            message: None,
            created_at: 0,
        },
    ];
    let launched = restore_timers(&mut store, persisted, now);
    assert_eq!(launched.len(), 2);
    assert_eq!(launched[0].id, "t");
    assert_eq!(launched[0].target_time, now + 50);
    assert_eq!(launched[1].id, "r");
    assert_eq!(launched[1].target_time, now + 100);
    // restored fields other than the target are untouched
    assert_eq!(launched[1].action, TimerAction::Lock);
    assert!(launched[1].recurrence.is_some());
    // the store holds exactly the relaunched timers; the dropped ones are gone
    let listed = store.list_timers();
    assert_eq!(listed.len(), 2);
    assert!(store.contains_timer(&"t".to_string()));
    assert!(store.contains_timer(&"r".to_string()));
    assert!(!store.contains_timer(&"beyond".to_string()));
    for t in &listed {
        assert!(t.target_time > now);
    }
}

#[test]
fn live_creation_uses_fresh_ids_and_the_clock() {
    let mut store = TimerStore::new();
    let a = store.create_timer(request("2200-01-01T00:00:00Z")).unwrap();
    let b = store.create_timer(request("2200-01-01T00:00:00Z")).unwrap();
    assert_ne!(a.id, b.id);
    assert!(store.cancel_timer(&a.id));
    assert_eq!(
        store.create_timer(request("1999-01-01T00:00:00Z")).unwrap_err(),
        TimerError::Validation(ValidationError::TimeNotInFuture)
    );
    // an instant before the epoch lies outside the supported horizon
    assert_eq!(
        store.create_timer(request("1960-01-01T00:00:00Z")).unwrap_err(),
        TimerError::Validation(ValidationError::TimeBeyondHorizon)
    );
}

#[test]
fn validation_errors_have_messages() {
    assert_eq!(
        ValidationError::TimeNotInFuture.message(),
        "Selected time must be in the future"
    );
    assert_eq!(
        ValidationError::InvalidWarningMinutes.message(),
        "Pre-warning options must be any of: 1, 5, 10 minutes."
    );
    assert_eq!(
        ValidationError::SpecificDaysInvalidDay.message(),
        "Specific Days contains an invalid weekday."
    );
}
