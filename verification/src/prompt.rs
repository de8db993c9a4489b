//! The decision-prompt registry: pending prompts, their resolution, and the
//! payload a warning window is opened with.
//!
//! A prompt is registered when a task's warning fires; the GUI resolves it
//! (the entry is removed and the decision handed to the waiting task), or the
//! requester removes it when the countdown ends. The channel a decision
//! travels on belongs to the runner.

use vstd::prelude::*;

use vstd::string::StringExecFns;

use crate::types::TimerAction;

verus! {

/// Minutes a prompt offers to snooze by.
pub const PROMPT_SNOOZE_MINUTES: u32 = 10;

/// One pending prompt: its ephemeral id and the timer it warns about.
pub struct PendingPrompt {
    pub prompt_id: String,
    pub timer_id: String,
}

/// Mathematical image of a `PendingPrompt`.
#[verifier::ext_equal]
pub ghost struct PendingPromptView {
    pub prompt_id: Seq<char>,
    pub timer_id: Seq<char>,
}

impl View for PendingPrompt {
    type V = PendingPromptView;

    open spec fn view(&self) -> PendingPromptView {
        PendingPromptView { prompt_id: self.prompt_id@, timer_id: self.timer_id@ }
    }
}

/// What a warning window is opened with.
pub struct PreActionWarningPayload {
    pub prompt_id: String,
    pub timer_id: String,
    pub action: TimerAction,
    pub warning_minutes: u32,
    pub countdown_seconds: u32,
    pub snooze_minutes: u32,
}

/// How long a prompt waits for the user: the warning offset in seconds, at
/// least one second, saturating at `u32::MAX`.
pub open spec fn spec_countdown_seconds(warning_minutes: u32) -> u32 {
    if (warning_minutes as int) * 60 > u32::MAX {
        u32::MAX
    } else if warning_minutes == 0 {
        1u32
    } else {
        (warning_minutes * 60) as u32
    }
}

pub fn countdown_seconds(warning_minutes: u32) -> (r: u32)
    ensures
        r == spec_countdown_seconds(warning_minutes),
{
    match warning_minutes.checked_mul(60) {
        Some(c) => if c == 0 {
            1
        } else {
            c
        },
        None => u32::MAX,
    }
}

/// The window label a timer's warning is shown under.
pub fn pre_action_window_label(timer_id: &str) -> (r: String)
    ensures
        r@ == "prewarning-"@ + timer_id@,
{
    let mut label = "prewarning-".to_owned();
    label.append(timer_id);
    label
}

/// The payload a warning window is opened with: the prompt and timer it
/// stands for, the action it warns of, and the countdown.
pub fn build_warning_payload(
    prompt_id: String,
    timer_id: String,
    action: TimerAction,
    warning_minutes: u32,
) -> (p: PreActionWarningPayload)
    ensures
        p.prompt_id@ == prompt_id@,
        p.timer_id@ == timer_id@,
        p.action == action,
        p.warning_minutes == warning_minutes,
        p.countdown_seconds == spec_countdown_seconds(warning_minutes),
        p.snooze_minutes == PROMPT_SNOOZE_MINUTES,
{
    let countdown = countdown_seconds(warning_minutes);
    PreActionWarningPayload {
        prompt_id,
        timer_id,
        action,
        warning_minutes,
        countdown_seconds: countdown,
        snooze_minutes: PROMPT_SNOOZE_MINUTES,
    }
}

/// The views of a sequence of pending prompts.
pub open spec fn prompts_view(v: Seq<PendingPrompt>) -> Seq<PendingPromptView> {
    Seq::new(v.len(), |i: int| v[i]@)
}

/// Whether some pending prompt bears this id.
pub open spec fn contains_prompt(s: Seq<PendingPromptView>, id: Seq<char>) -> bool {
    exists|i: int| #![trigger s[i]] 0 <= i < s.len() && s[i].prompt_id == id
}

/// The position of the pending prompt bearing this id.
pub open spec fn index_of_prompt(s: Seq<PendingPromptView>, id: Seq<char>) -> int {
    choose|i: int| 0 <= i < s.len() && #[trigger] s[i].prompt_id == id
}

/// No two pending prompts share an id.
pub open spec fn unique_prompt_ids(s: Seq<PendingPromptView>) -> bool {
    forall|i: int, j: int|
        #![trigger s[i], s[j]]
        0 <= i < j < s.len() ==> s[i].prompt_id != s[j].prompt_id
}

/// The registry of pending prompts.
pub struct PreActionStore {
    pending: Vec<PendingPrompt>,
}

impl View for PreActionStore {
    type V = Seq<PendingPromptView>;

    closed spec fn view(&self) -> Seq<PendingPromptView> {
        prompts_view(self.pending@)
    }
}

impl PreActionStore {
    /// The registry's invariant: prompt ids pairwise distinct.
    pub open spec fn wf(self) -> bool {
        unique_prompt_ids(self@)
    }

    /// An empty registry.
    pub fn new() -> (s: Self)
        ensures
            s@ == Seq::<PendingPromptView>::empty(),
            s.wf(),
    {
        let s = PreActionStore { pending: Vec::new() };
        proof {
            assert(s@ =~= Seq::<PendingPromptView>::empty());
        }
        s
    }

    /// The position of the pending prompt bearing `id`, if any.
    fn find_index(&self, id: &String) -> (r: Option<usize>)
        ensures
            match r {
                Some(i) => i < self@.len() && self@[i as int].prompt_id == id@,
                None => !contains_prompt(self@, id@),
            },
    {
        let len = self.pending.len();
        let mut i: usize = 0;
        while i < len
            invariant
                i <= len,
                len == self.pending@.len(),
                forall|j: int| #![trigger self@[j]] 0 <= j < i ==> self@[j].prompt_id != id@,
            decreases len - i,
        {
            proof {
                assert(self@[i as int] == self.pending@[i as int]@);
            }
            if self.pending[i].prompt_id == *id {
                return Some(i);
            }
            i = i + 1;
        }
        None
    }

    /// Register a prompt under a freshly drawn id; refuses an id already
    /// pending (the registry never silently replaces a waiting receiver).
    pub fn register_prompt(&mut self, prompt_id: String, timer_id: String) -> (r: bool)
        requires
            old(self).wf(),
        ensures
            final(self).wf(),
            r == !contains_prompt(old(self)@, prompt_id@),
            r ==> final(self)@ == old(self)@.push(
                PendingPromptView { prompt_id: prompt_id@, timer_id: timer_id@ },
            ),
            !r ==> final(self)@ == old(self)@,
    {
        if self.find_index(&prompt_id).is_some() {
            return false;
        }
        let ghost pre = self@;
        let entry = PendingPrompt { prompt_id, timer_id };
        let ghost v = entry@;
        self.pending.push(entry);
        proof {
            assert(self@ =~= pre.push(v));
            assert forall|i: int, j: int| #![trigger self@[i], self@[j]] 0 <= i < j < self@.len()
                implies self@[i].prompt_id != self@[j].prompt_id by {
                if j == self@.len() - 1 {
                    assert(self@[i] == pre[i]);
                }
            }
        }
        true
    }

    /// Resolve (remove) the pending prompt bearing `id`: reports whether one
    /// was found. Resolving an unknown or already-resolved id is a no-op.
    pub fn resolve_pre_action(&mut self, prompt_id: &String) -> (r: bool)
        requires
            old(self).wf(),
        ensures
            final(self).wf(),
            r == contains_prompt(old(self)@, prompt_id@),
            r ==> final(self)@ == old(self)@.remove(
                index_of_prompt(old(self)@, prompt_id@),
            ) && !contains_prompt(final(self)@, prompt_id@),
            !r ==> final(self)@ == old(self)@,
    {
        match self.find_index(prompt_id) {
            None => false,
            Some(i) => {
                let ghost pre = self@;
                proof {
                    let j = index_of_prompt(pre, prompt_id@);
                    assert(0 <= j < pre.len() && pre[j].prompt_id == prompt_id@);
                    if i < j {
                        assert(pre[i as int].prompt_id != pre[j].prompt_id);
                    } else if j < i {
                        assert(pre[j].prompt_id != pre[i as int].prompt_id);
                    }
                }
                self.pending.remove(i);
                proof {
                    assert(self@ =~= pre.remove(i as int));
                    let t = self@;
                    assert forall|p: int, q: int| #![trigger t[p], t[q]] 0 <= p < q < t.len()
                        implies t[p].prompt_id != t[q].prompt_id by {
                        let p0 = if p < i { p } else { p + 1 };
                        let q0 = if q < i { q } else { q + 1 };
                        assert(t[p] == pre[p0]);
                        assert(t[q] == pre[q0]);
                    }
                    assert forall|p: int| #![trigger t[p]] 0 <= p < t.len() implies t[p].prompt_id
                        != prompt_id@ by {
                        let p0 = if p < i { p } else { p + 1 };
                        assert(t[p] == pre[p0]);
                        if p0 != i {
                            if p0 < i {
                                assert(pre[p0].prompt_id != pre[i as int].prompt_id);
                            } else {
                                assert(pre[i as int].prompt_id != pre[p0].prompt_id);
                            }
                        }
                    }
                }
                true
            },
        }
    }
}

} // verus!
