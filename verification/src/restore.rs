//! The restore pass: replaying persisted timers into the live machinery at
//! startup.
//!
//! Overdue recurring timers are fast-forwarded to their next future
//! occurrence without executing the missed ones; overdue one-shot timers and
//! recurring timers with no further occurrence are dropped. The caller reads
//! and decodes the persisted file, hands the list here, then persists the
//! corrected snapshot once and launches a task per returned timer.

use vstd::prelude::*;

use crate::recurrence::{compute_next_run, spec_next_run};
use crate::store::{contains_id, timers_view, TimerStore};
use crate::time::{valid_instant, MAX_INSTANT};
use crate::types::{RecurrenceConfig, RecurrenceConfigView, TimerInfo, TimerView};

verus! {

/// Where a persisted target lands at restore: kept when still in the future
/// (and within the horizon), fast-forwarded to the next occurrence when an
/// overdue timer recurs, `None` when the timer is dropped.
pub open spec fn spec_restore_target(
    target: u64,
    recurrence: Option<RecurrenceConfigView>,
    now: u64,
) -> Option<u64> {
    if target > now {
        if valid_instant(target) {
            Some(target)
        } else {
            None
        }
    } else {
        match recurrence {
            None => None,
            Some(cfg) => spec_next_run(target, cfg, now),
        }
    }
}

/// Fast-forward one persisted target: keep a future target, advance an
/// overdue recurring one past `now`, drop the rest.
pub fn fast_forward_target(
    target: u64,
    recurrence: Option<&RecurrenceConfig>,
    now: u64,
) -> (r: Option<u64>)
    requires
        valid_instant(now),
    ensures
        r == spec_restore_target(
            target,
            match recurrence {
                Some(c) => Some(c@),
                None => None,
            },
            now,
        ),
        r matches Some(t) ==> t > now && valid_instant(t),
{
    if target > now {
        if target <= MAX_INSTANT {
            Some(target)
        } else {
            None
        }
    } else {
        match recurrence {
            None => None,
            Some(cfg) => compute_next_run(target, cfg, now),
        }
    }
}

/// Whether `restored` is `persisted` with its target fast-forwarded.
pub open spec fn restored_from(persisted: TimerView, restored: TimerView, now: u64) -> bool {
    &&& spec_restore_target(persisted.target_time, persisted.recurrence, now) == Some(
        restored.target_time,
    )
    &&& restored == TimerView { target_time: restored.target_time, ..persisted }
}

/// Whether some entry of the snapshot is exactly this timer.
pub open spec fn contains_timer_view(s: Seq<TimerView>, t: TimerView) -> bool {
    exists|i: int| #![trigger s[i]] 0 <= i < s.len() && s[i] == t
}

/// The timers the restore pass relaunches, in input order, against a store
/// that starts as `s`: each persisted entry whose target survives (kept, or
/// fast-forwarded past `now`) and whose id is still free, with its target
/// moved and every other field unchanged.
pub open spec fn spec_restored_list(
    s: Seq<TimerView>,
    persisted: Seq<TimerView>,
    now: u64,
) -> Seq<TimerView>
    decreases persisted.len(),
{
    if persisted.len() == 0 {
        Seq::empty()
    } else {
        let t = persisted[0];
        match spec_restore_target(t.target_time, t.recurrence, now) {
            None => spec_restored_list(s, persisted.drop_first(), now),
            Some(nt) => if contains_id(s, t.id) {
                spec_restored_list(s, persisted.drop_first(), now)
            } else {
                let r = TimerView { target_time: nt, ..t };
                seq![r] + spec_restored_list(s.push(r), persisted.drop_first(), now)
            },
        }
    }
}

/// Replay a persisted timer list: register every surviving timer (under its
/// old id, with its target fast-forwarded and every other field unchanged)
/// and return exactly those timers, in input order, for the caller to launch
/// a task each. A timer is dropped — neither stored nor returned — when it
/// is overdue with no further occurrence, lies beyond the horizon, or
/// repeats an id already registered. The store afterwards holds the timers
/// it held before plus precisely the returned ones.
#[verifier::rlimit(100)]
pub fn restore_timers(store: &mut TimerStore, persisted: Vec<TimerInfo>, now: u64) -> (launched:
    Vec<TimerInfo>)
    requires
        old(store).wf(),
        valid_instant(now),
    ensures
        final(store).wf(),
        timers_view(launched@) == spec_restored_list(old(store)@, timers_view(persisted@), now),
        forall|k: int|
            #![trigger launched@[k]]
            0 <= k < launched@.len() ==> {
                &&& launched@[k]@.target_time > now
                &&& valid_instant(launched@[k]@.target_time)
                &&& contains_timer_view(final(store)@, launched@[k]@)
                &&& exists|j: int|
                    0 <= j < persisted@.len() && restored_from(
                        #[trigger] persisted@[j]@,
                        launched@[k]@,
                        now,
                    )
            },
        forall|j: int|
            #![trigger persisted@[j]]
            0 <= j < persisted@.len() && spec_restore_target(
                persisted@[j]@.target_time,
                persisted@[j]@.recurrence,
                now,
            ) is Some ==> contains_id(final(store)@, persisted@[j]@.id),
        forall|i: int|
            #![trigger old(store)@[i]]
            0 <= i < old(store)@.len() ==> contains_timer_view(final(store)@, old(store)@[i]),
        forall|i: int|
            #![trigger final(store)@[i]]
            0 <= i < final(store)@.len() ==> contains_timer_view(old(store)@, final(store)@[i])
                || contains_timer_view(timers_view(launched@), final(store)@[i]),
        old(store)@.len() == 0 ==> forall|i: int|
            #![trigger final(store)@[i]]
            0 <= i < final(store)@.len() ==> final(store)@[i].target_time > now,
{
    let ghost pv = timers_view(persisted@);
    let ghost mut spec_s = store@;
    let mut launched: Vec<TimerInfo> = Vec::new();
    let len = persisted.len();
    let mut i: usize = 0;
    proof {
        assert(pv.skip(0) =~= pv);
        assert(spec_s =~= old(store)@ + timers_view(launched@));
        assert(timers_view(launched@) + spec_restored_list(spec_s, pv.skip(0), now)
            =~= spec_restored_list(old(store)@, pv, now));
    }
    while i < len
        invariant
            i <= len,
            len == persisted@.len(),
            pv == timers_view(persisted@),
            valid_instant(now),
            store.wf(),
            spec_s == old(store)@ + timers_view(launched@),
            timers_view(launched@) + spec_restored_list(spec_s, pv.skip(i as int), now)
                == spec_restored_list(old(store)@, pv, now),
            forall|id: Seq<char>|
                contains_id(store@, id) == #[trigger] contains_id(spec_s, id),
            forall|k: int|
                #![trigger launched@[k]]
                0 <= k < launched@.len() ==> {
                    &&& launched@[k]@.target_time > now
                    &&& valid_instant(launched@[k]@.target_time)
                    &&& contains_timer_view(store@, launched@[k]@)
                    &&& exists|j: int|
                        0 <= j < persisted@.len() && restored_from(
                            #[trigger] persisted@[j]@,
                            launched@[k]@,
                            now,
                        )
                },
            forall|j: int|
                #![trigger persisted@[j]]
                0 <= j < i && spec_restore_target(
                    persisted@[j]@.target_time,
                    persisted@[j]@.recurrence,
                    now,
                ) is Some ==> contains_id(store@, persisted@[j]@.id),
            forall|ii: int|
                #![trigger old(store)@[ii]]
                0 <= ii < old(store)@.len() ==> contains_timer_view(store@, old(store)@[ii]),
            forall|ii: int|
                #![trigger store@[ii]]
                0 <= ii < store@.len() ==> contains_timer_view(old(store)@, store@[ii])
                    || contains_timer_view(timers_view(launched@), store@[ii]),
        decreases len - i,
    {
        let entry = &persisted[i];
        proof {
            assert(pv.skip(i as int)[0] == pv[i as int]);
            assert(pv.skip(i as int).drop_first() =~= pv.skip(i as int + 1));
            assert(pv[i as int] == persisted@[i as int]@);
        }
        match fast_forward_target(entry.target_time, entry.recurrence.as_ref(), now) {
            None => {},
            Some(new_target) => {
                let mut info = entry.clone();
                info.target_time = new_target;
                proof {
                    assert(info@ == TimerView {
                        target_time: new_target,
                        ..persisted@[i as int]@
                    });
                }
                let copy = info.clone();
                let ghost pre_store = store@;
                let ghost pre_launched = timers_view(launched@);
                if store.register_timer(info) {
                    proof {
                        let r = copy@;
                        let post = store@;
                        let pos = choose|pos: int|
                            0 <= pos <= pre_store.len() && post == #[trigger] pre_store.insert(
                                pos,
                                r,
                            );
                        assert(post[pos] == r);
                        assert(contains_timer_view(post, r));
                        // old elements survive the insert
                        assert forall|x: TimerView| contains_timer_view(pre_store, x) implies
                            #[trigger] contains_timer_view(post, x) by {
                            let w = choose|w: int|
                                0 <= w < pre_store.len() && #[trigger] pre_store[w] == x;
                            if w < pos {
                                assert(post[w] == pre_store[w]);
                            } else {
                                assert(post[w + 1] == pre_store[w]);
                            }
                        }
                        // nothing but `r` is new
                        assert forall|w: int| 0 <= w < post.len() implies #[trigger] post[w] == r
                            || contains_timer_view(pre_store, post[w]) by {
                            if w < pos {
                                assert(post[w] == pre_store[w]);
                            } else if w > pos {
                                assert(post[w] == pre_store[w - 1]);
                            }
                        }
                        // ids present before stay present
                        assert forall|id: Seq<char>| contains_id(pre_store, id) implies
                            #[trigger] contains_id(post, id) by {
                            let w = choose|w: int|
                                0 <= w < pre_store.len() && #[trigger] pre_store[w].id == id;
                            if w < pos {
                                assert(post[w] == pre_store[w]);
                            } else {
                                assert(post[w + 1] == pre_store[w]);
                            }
                        }
                        // id membership moves in lockstep with the ghost list
                        assert forall|id: Seq<char>| contains_id(post, id)
                            == #[trigger] contains_id(spec_s.push(r), id) by {
                            if contains_id(post, id) {
                                let w = choose|w: int|
                                    0 <= w < post.len() && #[trigger] post[w].id == id;
                                if w == pos {
                                    assert(spec_s.push(r)[spec_s.len() as int] == r);
                                    assert(contains_id(spec_s.push(r), id));
                                } else {
                                    let w0 = if w < pos { w } else { w - 1 };
                                    assert(post[w] == pre_store[w0]);
                                    assert(contains_id(pre_store, id));
                                    assert(contains_id(spec_s, id));
                                    let v = choose|v: int|
                                        0 <= v < spec_s.len() && #[trigger] spec_s[v].id == id;
                                    assert(spec_s.push(r)[v] == spec_s[v]);
                                    assert(contains_id(spec_s.push(r), id));
                                }
                            }
                            if contains_id(spec_s.push(r), id) {
                                let v = choose|v: int|
                                    0 <= v < spec_s.push(r).len() && #[trigger] spec_s.push(
                                        r,
                                    )[v].id == id;
                                if v == spec_s.len() {
                                    assert(spec_s.push(r)[v] == r);
                                    assert(contains_id(post, id));
                                } else {
                                    assert(spec_s.push(r)[v] == spec_s[v]);
                                    assert(contains_id(spec_s, id));
                                    assert(contains_id(pre_store, id));
                                    let w = choose|w: int|
                                        0 <= w < pre_store.len() && #[trigger] pre_store[w].id
                                            == id;
                                    if w < pos {
                                        assert(post[w] == pre_store[w]);
                                    } else {
                                        assert(post[w + 1] == pre_store[w]);
                                    }
                                    assert(contains_id(post, id));
                                }
                            }
                        }
                        // the launched list grows by exactly `r`
                        assert(timers_view(launched@.push(copy)) =~= pre_launched.push(r));
                        assert forall|x: TimerView| contains_timer_view(pre_launched, x) implies
                            #[trigger] contains_timer_view(pre_launched.push(r), x) by {
                            let k = choose|k: int|
                                0 <= k < pre_launched.len() && #[trigger] pre_launched[k] == x;
                            assert(pre_launched.push(r)[k] == pre_launched[k]);
                        }
                        assert(pre_launched.push(r)[pre_launched.len() as int] == r);
                        assert(contains_timer_view(pre_launched.push(r), r));
                        // the step the spec list takes at this entry
                        assert(!contains_id(spec_s, r.id));
                        assert(spec_restored_list(spec_s, pv.skip(i as int), now) =~= seq![r]
                            + spec_restored_list(spec_s.push(r), pv.skip(i as int + 1), now));
                        assert(pre_launched.push(r) + spec_restored_list(
                            spec_s.push(r),
                            pv.skip(i as int + 1),
                            now,
                        ) =~= pre_launched + (seq![r] + spec_restored_list(
                            spec_s.push(r),
                            pv.skip(i as int + 1),
                            now,
                        )));
                        assert((old(store)@ + pre_launched).push(r) =~= old(store)@
                            + pre_launched.push(r));
                        spec_s = spec_s.push(r);
                    }
                    launched.push(copy);
                } else {
                    proof {
                        assert(contains_id(spec_s, copy@.id));
                    }
                }
            },
        }
        i = i + 1;
    }
    proof {
        assert(pv.skip(len as int) =~= Seq::<TimerView>::empty());
        assert(timers_view(launched@) + spec_restored_list(
            spec_s,
            pv.skip(len as int),
            now,
        ) =~= timers_view(launched@));
        if old(store)@.len() == 0 {
            assert forall|ii: int| 0 <= ii < store@.len() implies #[trigger] store@[ii].target_time
                > now by {
                assert(contains_timer_view(timers_view(launched@), store@[ii]));
                let k = choose|k: int|
                    0 <= k < timers_view(launched@).len() && #[trigger] timers_view(launched@)[k]
                        == store@[ii];
                assert(timers_view(launched@)[k] == launched@[k]@);
            }
        }
    }
    launched
}

} // verus!
