//! The per-timer lifecycle state machine.
//!
//! One task runs per active timer. The task itself cannot wait, show a
//! prompt, execute an action or touch the store; instead, each event it is
//! handed yields the next state and an ordered list of commands for the
//! runner: sleep, request a decision, close the prompt, execute the action,
//! move or remove the store entry, stop. The runner performs the commands,
//! observes cancellation while sleeping or waiting, and hands the outcome
//! back as the next event.

use vstd::prelude::*;

use crate::recurrence::{compute_next_run, spec_next_run};
use crate::text::{chars_to_string, spec_trim, str_to_chars, trim_chars};
use crate::time::{valid_instant, MAX_INSTANT, SECS_PER_MINUTE};
use crate::types::{PreActionDecision, RecurrenceConfig, RecurrenceConfigView, TimerInfo};
use crate::warning::max_pre_warning;

verus! {

/// Minutes a snoozed occurrence is pushed back.
pub const SNOOZE_MINUTES: u64 = 10;

/// Where a task stands inside one occurrence cycle.
#[derive(Clone, Copy, PartialEq, Eq, Structural, Debug)]
pub enum TaskPhase {
    /// About to enter a fresh occurrence cycle.
    StartCycle,
    /// Suspended until the warning instant.
    WaitingForWarning,
    /// A decision prompt is open; waiting for the user or the timeout.
    AwaitingDecision,
    /// Suspended until the occurrence instant.
    WaitingForRun,
    /// The store was asked to move the target after a snooze.
    AwaitingSnoozeSave,
    /// The store was asked to move the target after a recurrence advance.
    AwaitingRescheduleSave,
    /// Terminal.
    Finished,
}

/// What the runner reports to the task.
#[derive(Clone, Copy, PartialEq, Eq, Structural, Debug)]
pub enum TaskEvent {
    /// Enter the next occurrence cycle.
    CycleBegin,
    /// The cancellation signal arrived (possible at every suspension point).
    Cancelled,
    /// The warning instant passed.
    WarningTimeReached,
    /// The user decided, or the prompt timed out (`ContinueScheduled`).
    DecisionMade(PreActionDecision),
    /// The occurrence instant passed.
    RunTimeReached,
    /// The store reported whether the timer still existed when its target
    /// was moved; `false` means it was cancelled concurrently.
    TargetSaved(bool),
}

/// What the runner must do next, in order.
#[derive(Clone, Copy, PartialEq, Eq, Structural, Debug)]
pub enum TaskCommand {
    /// Sleep until the warning instant, interruptible by cancellation.
    SleepUntilWarning { at: u64 },
    /// Open the decision prompt and wait for at most the countdown,
    /// interruptible by cancellation.
    RequestDecision { warning_minutes: u32 },
    /// Sleep until the occurrence instant, interruptible by cancellation.
    SleepUntilRun { at: u64 },
    /// Dismiss any open prompt window for this timer.
    ClosePrompt,
    /// Invoke the action executor with the timer's action and message.
    Execute,
    /// Move the store entry's target time and persist; report back
    /// `TargetSaved(existed)`.
    SaveTarget { at: u64 },
    /// Remove the store entry and persist.
    RemoveTimer,
    /// Terminate the task.
    Stop,
}

/// The state one timer's task carries between events.
pub struct TimerTask {
    pub recurrence: Option<RecurrenceConfig>,
    /// Largest configured pre-warning offset in minutes; 0 means none.
    pub warning_minutes: u32,
    /// The occurrence the task is currently driving toward.
    pub next_run: u64,
    pub phase: TaskPhase,
}

/// Mathematical image of a `TimerTask`.
#[verifier::ext_equal]
pub ghost struct TaskView {
    pub recurrence: Option<RecurrenceConfigView>,
    pub warning_minutes: u32,
    pub next_run: u64,
    pub phase: TaskPhase,
}

impl View for TimerTask {
    type V = TaskView;

    open spec fn view(&self) -> TaskView {
        TaskView {
            recurrence: match self.recurrence {
                Some(c) => Some(c@),
                None => None,
            },
            warning_minutes: self.warning_minutes,
            next_run: self.next_run,
            phase: self.phase,
        }
    }
}

/// The warning instant: the configured offset before the occurrence,
/// clamped at the epoch.
pub open spec fn spec_warning_time(next_run: u64, warning_minutes: u32) -> u64 {
    if next_run as int >= (warning_minutes as int) * (SECS_PER_MINUTE as int) {
        (next_run as int - (warning_minutes as int) * (SECS_PER_MINUTE as int)) as u64
    } else {
        0
    }
}

/// Where a snoozed occurrence lands: ten minutes past `now`, within the
/// horizon.
pub open spec fn spec_snooze_target(now: u64) -> u64 {
    if now as int + (SNOOZE_MINUTES * SECS_PER_MINUTE) as int <= MAX_INSTANT {
        (now as int + (SNOOZE_MINUTES * SECS_PER_MINUTE) as int) as u64
    } else {
        MAX_INSTANT
    }
}

/// The state and commands after the occurrence at `s.next_run` has been
/// consumed (fired, fired early, or cancelled for this occurrence): one-shot
/// timers retire; recurring timers advance to the next occurrence or retire
/// when none exists.
pub open spec fn spec_reschedule(s: TaskView, now: u64) -> (TaskView, Seq<TaskCommand>) {
    match s.recurrence {
        None => (
            TaskView { phase: TaskPhase::Finished, ..s },
            seq![TaskCommand::RemoveTimer, TaskCommand::Stop],
        ),
        Some(cfg) => match spec_next_run(s.next_run, cfg, now) {
            None => (
                TaskView { phase: TaskPhase::Finished, ..s },
                seq![TaskCommand::RemoveTimer, TaskCommand::Stop],
            ),
            Some(t) => (
                TaskView { phase: TaskPhase::AwaitingRescheduleSave, next_run: t, ..s },
                seq![TaskCommand::SaveTarget { at: t }],
            ),
        },
    }
}

/// The full transition relation: from a state and an event, at clock reading
/// `now`, to the next state and the runner's commands.
pub open spec fn spec_step(s: TaskView, ev: TaskEvent, now: u64) -> (TaskView, Seq<TaskCommand>) {
    if ev == TaskEvent::Cancelled {
        (
            TaskView { phase: TaskPhase::Finished, ..s },
            seq![TaskCommand::ClosePrompt, TaskCommand::Stop],
        )
    } else {
        match s.phase {
            TaskPhase::StartCycle => if ev == TaskEvent::CycleBegin {
                if s.warning_minutes > 0 && spec_warning_time(s.next_run, s.warning_minutes)
                    > now {
                    (
                        TaskView { phase: TaskPhase::WaitingForWarning, ..s },
                        seq![
                            TaskCommand::SleepUntilWarning {
                                at: spec_warning_time(s.next_run, s.warning_minutes),
                            },
                        ],
                    )
                } else {
                    (
                        TaskView { phase: TaskPhase::WaitingForRun, ..s },
                        seq![TaskCommand::SleepUntilRun { at: s.next_run }],
                    )
                }
            } else {
                (s, Seq::empty())
            },
            TaskPhase::WaitingForWarning => if ev == TaskEvent::WarningTimeReached {
                (
                    TaskView { phase: TaskPhase::AwaitingDecision, ..s },
                    seq![TaskCommand::RequestDecision { warning_minutes: s.warning_minutes }],
                )
            } else {
                (s, Seq::empty())
            },
            TaskPhase::AwaitingDecision => match ev {
                TaskEvent::DecisionMade(PreActionDecision::RunNow) => {
                    let (s2, cmds) = spec_reschedule(s, now);
                    (s2, seq![TaskCommand::ClosePrompt, TaskCommand::Execute] + cmds)
                },
                TaskEvent::DecisionMade(PreActionDecision::Snooze10) => (
                    TaskView {
                        phase: TaskPhase::AwaitingSnoozeSave,
                        next_run: spec_snooze_target(now),
                        ..s
                    },
                    seq![
                        TaskCommand::ClosePrompt,
                        TaskCommand::SaveTarget { at: spec_snooze_target(now) },
                    ],
                ),
                TaskEvent::DecisionMade(PreActionDecision::CancelAction) => {
                    let (s2, cmds) = spec_reschedule(s, now);
                    (s2, seq![TaskCommand::ClosePrompt] + cmds)
                },
                TaskEvent::DecisionMade(PreActionDecision::ContinueScheduled) => (
                    TaskView { phase: TaskPhase::WaitingForRun, ..s },
                    seq![TaskCommand::ClosePrompt, TaskCommand::SleepUntilRun { at: s.next_run }],
                ),
                _ => (s, Seq::empty()),
            },
            TaskPhase::WaitingForRun => if ev == TaskEvent::RunTimeReached {
                let (s2, cmds) = spec_reschedule(s, now);
                (s2, seq![TaskCommand::ClosePrompt, TaskCommand::Execute] + cmds)
            } else {
                (s, Seq::empty())
            },
            TaskPhase::AwaitingSnoozeSave | TaskPhase::AwaitingRescheduleSave => match ev {
                TaskEvent::TargetSaved(true) => (
                    TaskView { phase: TaskPhase::StartCycle, ..s },
                    Seq::empty(),
                ),
                TaskEvent::TargetSaved(false) => (
                    TaskView { phase: TaskPhase::Finished, ..s },
                    seq![TaskCommand::Stop],
                ),
                _ => (s, Seq::empty()),
            },
            TaskPhase::Finished => (s, Seq::empty()),
        }
    }
}

impl TimerTask {
    /// The task's invariant: its occurrence lies within the horizon.
    pub open spec fn wf(self) -> bool {
        valid_instant(self.next_run)
    }

    /// The task driving a stored timer, about to begin its first cycle.
    pub fn new(timer: &TimerInfo) -> (t: Self)
        requires
            valid_instant(timer.target_time),
        ensures
            t.wf(),
            t@.phase == TaskPhase::StartCycle,
            t@.next_run == timer.target_time,
            t@.recurrence == timer@.recurrence,
            match timer@.pre_warning_minutes {
                Some(ws) => if ws.len() == 0 {
                    t@.warning_minutes == 0
                } else {
                    ws.contains(t@.warning_minutes) && forall|j: int|
                        0 <= j < ws.len() ==> #[trigger] ws[j] <= t@.warning_minutes
                },
                None => t@.warning_minutes == 0,
            },
    {
        let warning_minutes: u32 = match &timer.pre_warning_minutes {
            Some(ws) => match max_pre_warning(ws) {
                Some(m) => m,
                None => 0,
            },
            None => 0,
        };
        proof {
            if timer.pre_warning_minutes is Some {
                let ws = timer@.pre_warning_minutes->0;
                if ws.len() > 0 {
                    assert(ws.contains(ws[ws.len() - 1]));
                }
            }
        }
        TimerTask {
            recurrence: match &timer.recurrence {
                Some(c) => Some(c.clone()),
                None => None,
            },
            warning_minutes,
            next_run: timer.target_time,
            phase: TaskPhase::StartCycle,
        }
    }

    /// Feed one event into the state machine; returns the commands the
    /// runner performs next, in order.
    pub fn handle_event(&mut self, ev: TaskEvent, now: u64) -> (cmds: Vec<TaskCommand>)
        requires
            old(self).wf(),
            valid_instant(now),
        ensures
            final(self).wf(),
            (final(self)@, cmds@) == spec_step(old(self)@, ev, now),
    {
        if matches!(ev, TaskEvent::Cancelled) {
            self.phase = TaskPhase::Finished;
            let cmds = vec![TaskCommand::ClosePrompt, TaskCommand::Stop];
            proof {
                assert(cmds@ =~= seq![TaskCommand::ClosePrompt, TaskCommand::Stop]);
            }
            return cmds;
        }
        match self.phase {
            TaskPhase::StartCycle => {
                if matches!(ev, TaskEvent::CycleBegin) {
                    if self.warning_minutes > 0 {
                        let offset: u64 = (self.warning_minutes as u64) * SECS_PER_MINUTE;
                        let warning_time: u64 = if self.next_run >= offset {
                            self.next_run - offset
                        } else {
                            0
                        };
                        if warning_time > now {
                            self.phase = TaskPhase::WaitingForWarning;
                            let cmds = vec![TaskCommand::SleepUntilWarning { at: warning_time }];
                            proof {
                                assert(cmds@ =~= seq![
                                    TaskCommand::SleepUntilWarning { at: warning_time },
                                ]);
                            }
                            return cmds;
                        }
                    }
                    self.phase = TaskPhase::WaitingForRun;
                    let cmds = vec![TaskCommand::SleepUntilRun { at: self.next_run }];
                    proof {
                        assert(cmds@ =~= seq![TaskCommand::SleepUntilRun { at: self.next_run }]);
                    }
                    cmds
                } else {
                    let cmds: Vec<TaskCommand> = Vec::new();
                    proof {
                        assert(cmds@ =~= Seq::<TaskCommand>::empty());
                    }
                    cmds
                }
            },
            TaskPhase::WaitingForWarning => {
                if matches!(ev, TaskEvent::WarningTimeReached) {
                    self.phase = TaskPhase::AwaitingDecision;
                    let cmds = vec![
                        TaskCommand::RequestDecision { warning_minutes: self.warning_minutes },
                    ];
                    proof {
                        assert(cmds@ =~= seq![
                            TaskCommand::RequestDecision {
                                warning_minutes: self.warning_minutes,
                            },
                        ]);
                    }
                    cmds
                } else {
                    let cmds: Vec<TaskCommand> = Vec::new();
                    proof {
                        assert(cmds@ =~= Seq::<TaskCommand>::empty());
                    }
                    cmds
                }
            },
            TaskPhase::AwaitingDecision => match ev {
                TaskEvent::DecisionMade(PreActionDecision::RunNow) => {
                    let mut cmds = vec![TaskCommand::ClosePrompt, TaskCommand::Execute];
                    let mut rest = self.reschedule(now);
                    proof {
                        assert(cmds@ =~= seq![TaskCommand::ClosePrompt, TaskCommand::Execute]);
                    }
                    cmds.append(&mut rest);
                    proof {
                        assert(cmds@ =~= seq![TaskCommand::ClosePrompt, TaskCommand::Execute]
                            + spec_reschedule(old(self)@, now).1);
                    }
                    cmds
                },
                TaskEvent::DecisionMade(PreActionDecision::Snooze10) => {
                    let offset: u64 = SNOOZE_MINUTES * SECS_PER_MINUTE;
                    let target: u64 = if now <= MAX_INSTANT - offset {
                        now + offset
                    } else {
                        MAX_INSTANT
                    };
                    self.next_run = target;
                    self.phase = TaskPhase::AwaitingSnoozeSave;
                    let cmds = vec![TaskCommand::ClosePrompt, TaskCommand::SaveTarget {
                        at: target,
                    }];
                    proof {
                        assert(cmds@ =~= seq![
                            TaskCommand::ClosePrompt,
                            TaskCommand::SaveTarget { at: target },
                        ]);
                    }
                    cmds
                },
                TaskEvent::DecisionMade(PreActionDecision::CancelAction) => {
                    let mut cmds = vec![TaskCommand::ClosePrompt];
                    let mut rest = self.reschedule(now);
                    proof {
                        assert(cmds@ =~= seq![TaskCommand::ClosePrompt]);
                    }
                    cmds.append(&mut rest);
                    proof {
                        assert(cmds@ =~= seq![TaskCommand::ClosePrompt] + spec_reschedule(
                            old(self)@,
                            now,
                        ).1);
                    }
                    cmds
                },
                TaskEvent::DecisionMade(PreActionDecision::ContinueScheduled) => {
                    self.phase = TaskPhase::WaitingForRun;
                    let cmds = vec![TaskCommand::ClosePrompt, TaskCommand::SleepUntilRun {
                        at: self.next_run,
                    }];
                    proof {
                        assert(cmds@ =~= seq![
                            TaskCommand::ClosePrompt,
                            TaskCommand::SleepUntilRun { at: self.next_run },
                        ]);
                    }
                    cmds
                },
                _ => {
                    let cmds: Vec<TaskCommand> = Vec::new();
                    proof {
                        assert(cmds@ =~= Seq::<TaskCommand>::empty());
                    }
                    cmds
                },
            },
            TaskPhase::WaitingForRun => {
                if matches!(ev, TaskEvent::RunTimeReached) {
                    let mut cmds = vec![TaskCommand::ClosePrompt, TaskCommand::Execute];
                    let mut rest = self.reschedule(now);
                    proof {
                        assert(cmds@ =~= seq![TaskCommand::ClosePrompt, TaskCommand::Execute]);
                    }
                    cmds.append(&mut rest);
                    proof {
                        assert(cmds@ =~= seq![TaskCommand::ClosePrompt, TaskCommand::Execute]
                            + spec_reschedule(old(self)@, now).1);
                    }
                    cmds
                } else {
                    let cmds: Vec<TaskCommand> = Vec::new();
                    proof {
                        assert(cmds@ =~= Seq::<TaskCommand>::empty());
                    }
                    cmds
                }
            },
            TaskPhase::AwaitingSnoozeSave | TaskPhase::AwaitingRescheduleSave => match ev {
                TaskEvent::TargetSaved(existed) => {
                    if existed {
                        self.phase = TaskPhase::StartCycle;
                        let cmds: Vec<TaskCommand> = Vec::new();
                        proof {
                            assert(cmds@ =~= Seq::<TaskCommand>::empty());
                        }
                        cmds
                    } else {
                        self.phase = TaskPhase::Finished;
                        let cmds = vec![TaskCommand::Stop];
                        proof {
                            assert(cmds@ =~= seq![TaskCommand::Stop]);
                        }
                        cmds
                    }
                },
                _ => {
                    let cmds: Vec<TaskCommand> = Vec::new();
                    proof {
                        assert(cmds@ =~= Seq::<TaskCommand>::empty());
                    }
                    cmds
                },
            },
            TaskPhase::Finished => {
                let cmds: Vec<TaskCommand> = Vec::new();
                proof {
                    assert(cmds@ =~= Seq::<TaskCommand>::empty());
                }
                cmds
            },
        }
    }

    /// Consume the occurrence at `next_run`: retire a one-shot timer, advance
    /// a recurring one.
    fn reschedule(&mut self, now: u64) -> (cmds: Vec<TaskCommand>)
        requires
            old(self).wf(),
            valid_instant(now),
        ensures
            final(self).wf(),
            (final(self)@, cmds@) == spec_reschedule(old(self)@, now),
    {
        let next = match &self.recurrence {
            None => None,
            Some(cfg) => compute_next_run(self.next_run, cfg, now),
        };
        match next {
            None => {
                self.phase = TaskPhase::Finished;
                let cmds = vec![TaskCommand::RemoveTimer, TaskCommand::Stop];
                proof {
                    assert(cmds@ =~= seq![TaskCommand::RemoveTimer, TaskCommand::Stop]);
                }
                cmds
            },
            Some(t) => {
                self.next_run = t;
                self.phase = TaskPhase::AwaitingRescheduleSave;
                let cmds = vec![TaskCommand::SaveTarget { at: t }];
                proof {
                    assert(cmds@ =~= seq![TaskCommand::SaveTarget { at: t }]);
                }
                cmds
            },
        }
    }
}


/// The notice a Popup shows when its timer carries no message.
pub open spec fn spec_popup_text(m: Option<Seq<char>>) -> Seq<char> {
    match m {
        Some(s) => if spec_trim(s).len() > 0 {
            spec_trim(s)
        } else {
            "LockPilot timer reached."@
        },
        None => "LockPilot timer reached."@,
    }
}

/// The text the action executor shows for a Popup: the timer's trimmed
/// message when it has one, else the default notice.
pub fn popup_text(message: Option<&String>) -> (r: String)
    ensures
        r@ == spec_popup_text(match message {
            Some(m) => Some(m@),
            None => None,
        }),
{
    match message {
        Some(m) => {
            let cs = str_to_chars(m.as_str());
            let trimmed = trim_chars(&cs);
            if trimmed.len() > 0 {
                chars_to_string(&trimmed)
            } else {
                "LockPilot timer reached.".to_owned()
            }
        },
        None => "LockPilot timer reached.".to_owned(),
    }
}

} // verus!
