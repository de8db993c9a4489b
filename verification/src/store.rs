//! The timer store: the authoritative registry of active timers.
//!
//! The store keeps its timers sorted ascending by `target_time` and their
//! ids pairwise distinct. Durable mirroring is the caller's concern: after
//! every mutation the caller snapshots the store (`list_timers`) and writes
//! the encoded snapshot out.

use vstd::prelude::*;

use crate::clock::{current_instant, fresh_id, parse_target_time, rfc3339_epoch};
use crate::recurrence::{spec_validate_recurrence, validate_recurrence};
use crate::text::{chars_to_string, spec_trim, str_to_chars, trim_chars};
use crate::time::valid_instant;
use crate::types::{
    CreateTimerRequest, CreateTimerRequestView, TimerError, TimerInfo, TimerView, ValidationError,
};
use crate::warning::{normalize_pre_warning_minutes, spec_normalize_warnings};

verus! {

/// The views of a sequence of timers.
pub open spec fn timers_view(v: Seq<TimerInfo>) -> Seq<TimerView> {
    Seq::new(v.len(), |i: int| v[i]@)
}

/// Ascending by target time.
pub open spec fn sorted_by_target(s: Seq<TimerView>) -> bool {
    forall|i: int, j: int|
        #![trigger s[i], s[j]]
        0 <= i < j < s.len() ==> s[i].target_time <= s[j].target_time
}

/// No two timers share an id.
pub open spec fn unique_ids(s: Seq<TimerView>) -> bool {
    forall|i: int, j: int| #![trigger s[i], s[j]] 0 <= i < j < s.len() ==> s[i].id != s[j].id
}

/// The store's invariant over a snapshot.
pub open spec fn wf_timers(s: Seq<TimerView>) -> bool {
    sorted_by_target(s) && unique_ids(s)
}

/// Whether some timer in the snapshot bears this id.
pub open spec fn contains_id(s: Seq<TimerView>, id: Seq<char>) -> bool {
    exists|i: int| #![trigger s[i]] 0 <= i < s.len() && s[i].id == id
}

/// The position of the timer bearing this id (unique when ids are).
pub open spec fn index_of_id(s: Seq<TimerView>, id: Seq<char>) -> int {
    choose|i: int| 0 <= i < s.len() && #[trigger] s[i].id == id
}

/// The snapshot after cancelling `id`: the entry removed when present.
pub open spec fn cancel_result(s: Seq<TimerView>, id: Seq<char>) -> Seq<TimerView> {
    if contains_id(s, id) {
        s.remove(index_of_id(s, id))
    } else {
        s
    }
}

/// The timer with its target moved.
pub open spec fn retargeted(t: TimerView, new_time: u64) -> TimerView {
    TimerView { target_time: new_time, ..t }
}

/// How a creation request resolves against a snapshot: the target instant it
/// will schedule, or the exact error.
pub open spec fn spec_create_outcome(
    s: Seq<TimerView>,
    req: CreateTimerRequestView,
    id: Seq<char>,
    now: u64,
) -> Result<u64, TimerError> {
    match rfc3339_epoch(req.target_time) {
        None => Err(TimerError::Validation(ValidationError::InvalidTimeFormat)),
        Some(t) => if t < 0 || t > crate::time::MAX_INSTANT {
            Err(TimerError::Validation(ValidationError::TimeBeyondHorizon))
        } else if t <= now {
            Err(TimerError::Validation(ValidationError::TimeNotInFuture))
        } else {
            match spec_validate_recurrence(req.recurrence) {
                Err(e) => Err(TimerError::Validation(e)),
                Ok(_) => match spec_normalize_warnings(req.pre_warning_minutes) {
                    Err(e) => Err(TimerError::Validation(e)),
                    Ok(_) => if contains_id(s, id) {
                        Err(TimerError::IdInUse)
                    } else {
                        Ok(t as u64)
                    },
                },
            }
        },
    }
}

/// Removing an entry keeps the snapshot sorted and its ids unique.
pub proof fn lemma_remove_keeps_wf(s: Seq<TimerView>, i: int)
    requires
        wf_timers(s),
        0 <= i < s.len(),
    ensures
        wf_timers(s.remove(i)),
{
    let t = s.remove(i);
    assert forall|p: int, q: int| 0 <= p < q < t.len() implies #[trigger] t[p].target_time
        <= #[trigger] t[q].target_time && t[p].id != t[q].id by {
        let p0 = if p < i { p } else { p + 1 };
        let q0 = if q < i { q } else { q + 1 };
        assert(t[p] == s[p0]);
        assert(t[q] == s[q0]);
    }
}

/// With unique ids, an entry bearing `id` stands at `index_of_id` and
/// nowhere else.
pub proof fn lemma_index_of_id_unique(s: Seq<TimerView>, id: Seq<char>, i: int)
    requires
        unique_ids(s),
        0 <= i < s.len(),
        s[i].id == id,
    ensures
        index_of_id(s, id) == i,
{
    let j = index_of_id(s, id);
    assert(0 <= j < s.len() && s[j].id == id);
    if i < j {
        assert(s[i].id != s[j].id);
    } else if j < i {
        assert(s[j].id != s[i].id);
    }
}

/// Law: a freshly created timer is stored once, under its own id, and ids
/// stay pairwise distinct: the new id is unique across all active timers.
pub proof fn lemma_create_unique(
    pre: Seq<TimerView>,
    post: Seq<TimerView>,
    t: TimerView,
    pos: int,
)
    requires
        unique_ids(pre),
        !contains_id(pre, t.id),
        0 <= pos <= pre.len(),
        post == pre.insert(pos, t),
    ensures
        contains_id(post, t.id),
        unique_ids(post),
        forall|i: int| #![trigger post[i]] 0 <= i < post.len() && post[i].id == t.id ==> post[i]
            == t,
{
    assert(post[pos] == t);
    assert forall|i: int, j: int| #![trigger post[i], post[j]] 0 <= i < j < post.len() implies
        post[i].id != post[j].id by {
        if i != pos && j != pos {
            let i0 = if i < pos { i } else { i - 1 };
            let j0 = if j < pos { j } else { j - 1 };
            assert(post[i] == pre[i0]);
            assert(post[j] == pre[j0]);
        } else if i == pos {
            let j0 = j - 1;
            assert(post[j] == pre[j0]);
        } else {
            let i0 = i;
            assert(post[i] == pre[i0]);
        }
    }
    assert forall|i: int| #![trigger post[i]] 0 <= i < post.len() && post[i].id == t.id implies
        post[i] == t by {
        if i != pos {
            let i0 = if i < pos { i } else { i - 1 };
            assert(post[i] == pre[i0]);
        }
    }
}

/// Law: of two cancellations of the same id, in whichever order two racing
/// callers are serialized, exactly the first one finds the timer; the second
/// returns `false` and changes nothing.
pub proof fn lemma_cancel_idempotent(s: Seq<TimerView>, id: Seq<char>)
    requires
        unique_ids(s),
    ensures
        !contains_id(cancel_result(s, id), id),
        cancel_result(cancel_result(s, id), id) == cancel_result(s, id),
{
    if contains_id(s, id) {
        let i = index_of_id(s, id);
        assert(0 <= i < s.len() && s[i].id == id);
        let t = s.remove(i);
        assert forall|j: int| #![trigger t[j]] 0 <= j < t.len() implies t[j].id != id by {
            let j0 = if j < i { j } else { j + 1 };
            assert(t[j] == s[j0]);
            if j0 != i {
                lemma_index_of_id_unique(s, id, i);
                if s[j0].id == id {
                    if j0 < i {
                        assert(s[j0].id != s[i].id);
                    } else {
                        assert(s[i].id != s[j0].id);
                    }
                }
            }
        }
    }
}

/// The in-memory registry of active timers.
pub struct TimerStore {
    timers: Vec<TimerInfo>,
}

impl View for TimerStore {
    type V = Seq<TimerView>;

    closed spec fn view(&self) -> Seq<TimerView> {
        timers_view(self.timers@)
    }
}

impl TimerStore {
    /// The store's invariant: sorted by target time, ids pairwise distinct.
    pub open spec fn wf(self) -> bool {
        wf_timers(self@)
    }

    /// An empty store.
    pub fn new() -> (s: Self)
        ensures
            s@ == Seq::<TimerView>::empty(),
            s.wf(),
    {
        let s = TimerStore { timers: Vec::new() };
        proof {
            assert(s@ =~= Seq::<TimerView>::empty());
        }
        s
    }

    /// The position of the timer bearing `id`, if any.
    fn find_index(&self, id: &String) -> (r: Option<usize>)
        ensures
            match r {
                Some(i) => i < self@.len() && self@[i as int].id == id@,
                None => !contains_id(self@, id@),
            },
    {
        let len = self.timers.len();
        let mut i: usize = 0;
        while i < len
            invariant
                i <= len,
                len == self.timers@.len(),
                forall|j: int| #![trigger self@[j]] 0 <= j < i ==> self@[j].id != id@,
            decreases len - i,
        {
            proof {
                assert(self@[i as int] == self.timers@[i as int]@);
            }
            if self.timers[i].id == *id {
                return Some(i);
            }
            i = i + 1;
        }
        None
    }

    /// Insert a timer with a fresh id at its sorted position.
    fn insert_in_order(&mut self, info: TimerInfo)
        requires
            old(self).wf(),
            !contains_id(old(self)@, info@.id),
        ensures
            final(self).wf(),
            exists|pos: int|
                0 <= pos <= old(self)@.len() && final(self)@ == #[trigger] old(self)@.insert(
                    pos,
                    info@,
                ),
    {
        let ghost pre = self@;
        let len = self.timers.len();
        let mut pos: usize = 0;
        while pos < len && self.timers[pos].target_time <= info.target_time
            invariant
                pos <= len,
                len == self.timers@.len(),
                forall|j: int| #![trigger self@[j]] 0 <= j < pos ==> self@[j].target_time
                    <= info@.target_time,
            decreases len - pos,
        {
            pos = pos + 1;
        }
        self.timers.insert(pos, info);
        proof {
            assert(self@ =~= pre.insert(pos as int, info@));
            let post = self@;
            assert forall|i: int, j: int| #![trigger post[i], post[j]] 0 <= i < j < post.len()
                implies post[i].target_time <= post[j].target_time by {
                if i != pos && j != pos {
                    let i0 = if i < pos { i } else { i - 1 };
                    let j0 = if j < pos { j } else { j - 1 };
                    assert(post[i] == pre[i0]);
                    assert(post[j] == pre[j0]);
                } else if i == pos {
                    assert(post[j] == pre[j - 1]);
                    assert(pre[pos as int].target_time > info@.target_time || pos == len);
                    assert(pre[j - 1].target_time >= pre[pos as int].target_time || j - 1 == pos);
                } else {
                    assert(post[i] == pre[i]);
                }
            }
            lemma_create_unique(pre, post, info@, pos as int);
        }
    }

    /// Create and register a timer under a caller-chosen fresh id, judged
    /// against the clock reading `now`: validates the request, stores the
    /// timer, and returns it. The caller persists the new snapshot.
    pub fn create_with_id(&mut self, request: CreateTimerRequest, id: String, now: u64) -> (r:
        Result<TimerInfo, TimerError>)
        requires
            old(self).wf(),
        ensures
            final(self).wf(),
            match r {
                Err(e) => Err::<u64, TimerError>(e) == spec_create_outcome(
                    old(self)@,
                    request@,
                    id@,
                    now,
                ) && final(self)@ == old(self)@,
                Ok(t) => {
                    &&& spec_create_outcome(old(self)@, request@, id@, now) == Ok::<
                        u64,
                        TimerError,
                    >(t@.target_time)
                    &&& t@.id == id@
                    &&& t@.action == request@.action
                    &&& t@.created_at == now
                    &&& t@.recurrence == request@.recurrence
                    &&& Ok::<Option<Seq<u32>>, ValidationError>(t@.pre_warning_minutes)
                        == spec_normalize_warnings(request@.pre_warning_minutes)
                    &&& t@.message == (match request@.message {
                        Some(m) => Some(spec_trim(m)),
                        None => None,
                    })
                    &&& now < t@.target_time && valid_instant(t@.target_time)
                    &&& !contains_id(old(self)@, id@)
                    &&& exists|pos: int|
                        0 <= pos <= old(self)@.len() && final(self)@ == #[trigger] old(
                            self,
                        )@.insert(pos, t@)
                },
            },
    {
        let target = match parse_target_time(request.target_time.as_str()) {
            Err(e) => {
                return Err(TimerError::Validation(e));
            },
            Ok(t) => t,
        };
        if target <= now {
            return Err(TimerError::Validation(ValidationError::TimeNotInFuture));
        }
        match validate_recurrence(request.recurrence.as_ref()) {
            Err(e) => {
                return Err(TimerError::Validation(e));
            },
            Ok(_) => {},
        }
        let warnings = match normalize_pre_warning_minutes(request.pre_warning_minutes.as_ref()) {
            Err(e) => {
                return Err(TimerError::Validation(e));
            },
            Ok(w) => w,
        };
        if self.find_index(&id).is_some() {
            return Err(TimerError::IdInUse);
        }
        let message = match &request.message {
            Some(m) => {
                let cs = str_to_chars(m.as_str());
                let trimmed = trim_chars(&cs);
                Some(chars_to_string(&trimmed))
            },
            None => None,
        };
        let info = TimerInfo {
            id,
            action: request.action,
            target_time: target,
            recurrence: request.recurrence,
            pre_warning_minutes: warnings,
            message,
            created_at: now,
        };
        let stored = info.clone();
        self.insert_in_order(info);
        Ok(stored)
    }

    /// Create and register a timer under a freshly drawn id, judged against
    /// the wall clock. Whatever id and clock reading come back from the
    /// environment, a returned timer was validated, is scheduled strictly in
    /// the future, and now stands in the store; a rejected request leaves the
    /// store unchanged.
    pub fn create_timer(&mut self, request: CreateTimerRequest) -> (r: Result<
        TimerInfo,
        TimerError,
    >)
        requires
            old(self).wf(),
        ensures
            final(self).wf(),
            match r {
                Err(_) => final(self)@ == old(self)@,
                Ok(t) => {
                    &&& rfc3339_epoch(request@.target_time) == Some(t@.target_time as int)
                    &&& valid_instant(t@.target_time)
                    &&& t@.created_at < t@.target_time
                    &&& t@.action == request@.action
                    &&& t@.recurrence == request@.recurrence
                    &&& spec_validate_recurrence(request@.recurrence) is Ok
                    &&& Ok::<Option<Seq<u32>>, ValidationError>(t@.pre_warning_minutes)
                        == spec_normalize_warnings(request@.pre_warning_minutes)
                    &&& t@.message == (match request@.message {
                        Some(m) => Some(spec_trim(m)),
                        None => None,
                    })
                    &&& !contains_id(old(self)@, t@.id)
                    &&& exists|pos: int|
                        0 <= pos <= old(self)@.len() && final(self)@ == #[trigger] old(
                            self,
                        )@.insert(pos, t@)
                },
            },
            rfc3339_epoch(request@.target_time) is None ==> r == Err::<TimerInfo, TimerError>(
                TimerError::Validation(ValidationError::InvalidTimeFormat),
            ),
            (match rfc3339_epoch(request@.target_time) {
                Some(t) => t < 0 || t > crate::time::MAX_INSTANT,
                None => false,
            }) ==> r == Err::<TimerInfo, TimerError>(
                TimerError::Validation(ValidationError::TimeBeyondHorizon),
            ),
    {
        let now = current_instant();
        let id = fresh_id();
        self.create_with_id(request, id, now)
    }

    /// Whether a timer bearing `id` is active.
    pub fn contains_timer(&self, id: &String) -> (r: bool)
        ensures
            r == contains_id(self@, id@),
    {
        self.find_index(id).is_some()
    }

    /// Register an already-validated timer (the restore pass): inserted at
    /// its sorted position when its id is free, refused otherwise.
    pub fn register_timer(&mut self, info: TimerInfo) -> (r: bool)
        requires
            old(self).wf(),
        ensures
            final(self).wf(),
            r == !contains_id(old(self)@, info@.id),
            r ==> exists|pos: int|
                0 <= pos <= old(self)@.len() && final(self)@ == #[trigger] old(self)@.insert(
                    pos,
                    info@,
                ),
            !r ==> final(self)@ == old(self)@,
    {
        if self.find_index(&info.id).is_some() {
            return false;
        }
        self.insert_in_order(info);
        true
    }

    /// A snapshot of the active timers, sorted ascending by target time.
    pub fn list_timers(&self) -> (r: Vec<TimerInfo>)
        ensures
            timers_view(r@) == self@,
    {
        let r = self.timers.clone();
        proof {
            assert(timers_view(r@) =~= self@);
        }
        r
    }

    /// Cancel the timer bearing `id`: remove it if present and report whether
    /// one was found. Cancelling an absent or already-cancelled id returns
    /// `false` and changes nothing. The caller persists the new snapshot and
    /// signals the timer's task.
    pub fn cancel_timer(&mut self, id: &String) -> (r: bool)
        requires
            old(self).wf(),
        ensures
            final(self).wf(),
            r == contains_id(old(self)@, id@),
            final(self)@ == cancel_result(old(self)@, id@),
    {
        match self.find_index(id) {
            None => false,
            Some(i) => {
                proof {
                    lemma_index_of_id_unique(self@, id@, i as int);
                    lemma_remove_keeps_wf(self@, i as int);
                }
                let ghost pre = self@;
                self.timers.remove(i);
                proof {
                    assert(self@ =~= pre.remove(i as int));
                }
                true
            },
        }
    }

    /// Move the target time of the timer bearing `id`, keeping the order;
    /// silently a no-op when the id is gone (cancelled concurrently).
    pub fn update_target_time(&mut self, id: &String, new_time: u64) -> (r: bool)
        requires
            old(self).wf(),
        ensures
            final(self).wf(),
            r == contains_id(old(self)@, id@),
            !r ==> final(self)@ == old(self)@,
            r ==> exists|pos: int|
                0 <= pos <= old(self)@.len() - 1 && final(self)@ == #[trigger] cancel_result(
                    old(self)@,
                    id@,
                ).insert(pos, retargeted(old(self)@[index_of_id(old(self)@, id@)], new_time)),
    {
        match self.find_index(id) {
            None => false,
            Some(i) => {
                proof {
                    lemma_index_of_id_unique(self@, id@, i as int);
                    lemma_remove_keeps_wf(self@, i as int);
                    lemma_cancel_idempotent(self@, id@);
                }
                let ghost pre = self@;
                let mut info = self.timers.remove(i);
                proof {
                    assert(self@ =~= pre.remove(i as int));
                    assert(info@ == pre[i as int]);
                }
                info.target_time = new_time;
                proof {
                    assert(info@ == retargeted(pre[i as int], new_time));
                }
                self.insert_in_order(info);
                true
            },
        }
    }
}

} // verus!
