//! Pre-action warning options: which warning offsets a timer may carry.

use vstd::prelude::*;

use crate::types::{TimerAction, ValidationError};

verus! {

/// The warning offsets a timer may carry, in minutes before the occurrence.
pub open spec fn allowed_warning_minute(v: u32) -> bool {
    v == 1 || v == 5 || v == 10
}

/// The normalized form of a warning list: the allowed values it mentions,
/// deduplicated and sorted ascending.
pub open spec fn normalized_warnings(s: Seq<u32>) -> Seq<u32> {
    (if s.contains(1u32) {
        seq![1u32]
    } else {
        Seq::empty()
    }) + (if s.contains(5u32) {
        seq![5u32]
    } else {
        Seq::empty()
    }) + (if s.contains(10u32) {
        seq![10u32]
    } else {
        Seq::empty()
    })
}

/// The outcome of normalizing an optional warning list.
pub open spec fn spec_normalize_warnings(vs: Option<Seq<u32>>) -> Result<
    Option<Seq<u32>>,
    ValidationError,
> {
    match vs {
        None => Ok(None),
        Some(s) => if exists|i: int| 0 <= i < s.len() && !allowed_warning_minute(#[trigger] s[i]) {
            Err(ValidationError::InvalidWarningMinutes)
        } else {
            Ok(Some(normalized_warnings(s)))
        },
    }
}

/// Normalize a requested warning list: values must be a subset of
/// {1, 5, 10} minutes; any other value rejects the whole request; duplicates
/// collapse and the result is sorted ascending.
pub fn normalize_pre_warning_minutes(values: Option<&Vec<u32>>) -> (r: Result<
    Option<Vec<u32>>,
    ValidationError,
>)
    ensures
        (match r {
            Ok(Some(w)) => Ok(Some(w@)),
            Ok(None) => Ok(None),
            Err(e) => Err(e),
        }) == spec_normalize_warnings(
            match values {
                Some(v) => Some(v@),
                None => None,
            },
        ),
{
    let vs = match values {
        None => {
            return Ok(None);
        },
        Some(vs) => vs,
    };
    let len = vs.len();
    let mut has1 = false;
    let mut has5 = false;
    let mut has10 = false;
    let mut i: usize = 0;
    while i < len
        invariant
            values == Some(vs),
            i <= len,
            len == vs@.len(),
            forall|j: int| 0 <= j < i ==> allowed_warning_minute(#[trigger] vs@[j]),
            has1 == exists|j: int| 0 <= j < i && #[trigger] vs@[j] == 1,
            has5 == exists|j: int| 0 <= j < i && #[trigger] vs@[j] == 5,
            has10 == exists|j: int| 0 <= j < i && #[trigger] vs@[j] == 10,
        decreases len - i,
    {
        let v = vs[i];
        if v == 1 {
            has1 = true;
        } else if v == 5 {
            has5 = true;
        } else if v == 10 {
            has10 = true;
        } else {
            proof {
                assert(!allowed_warning_minute(vs@[i as int]));
            }
            return Err(ValidationError::InvalidWarningMinutes);
        }
        i = i + 1;
    }
    proof {
        assert(has1 == vs@.contains(1u32));
        assert(has5 == vs@.contains(5u32));
        assert(has10 == vs@.contains(10u32));
    }
    let mut out: Vec<u32> = Vec::new();
    if has1 {
        out.push(1);
    }
    if has5 {
        out.push(5);
    }
    if has10 {
        out.push(10);
    }
    proof {
        assert(out@ =~= normalized_warnings(vs@));
    }
    Ok(Some(out))
}

/// Whether an action kind takes a pre-action warning at all. Every kind does,
/// by current policy.
pub fn should_show_pre_action_warning(action: &TimerAction) -> (r: bool)
    ensures
        r,
{
    match action {
        TimerAction::Popup | TimerAction::Lock | TimerAction::Shutdown | TimerAction::Reboot
            => true,
    }
}

/// The largest warning offset in a list, or `None` for an empty list.
pub fn max_pre_warning(ws: &Vec<u32>) -> (r: Option<u32>)
    ensures
        match r {
            Some(m) => ws@.contains(m) && forall|j: int| 0 <= j < ws@.len() ==> #[trigger] ws@[j]
                <= m,
            None => ws@.len() == 0,
        },
{
    if ws.len() == 0 {
        return None;
    }
    let len = ws.len();
    let mut best: u32 = ws[0];
    let mut i: usize = 1;
    while i < len
        invariant
            1 <= i <= len,
            len == ws@.len(),
            ws@.contains(best),
            forall|j: int| 0 <= j < i ==> #[trigger] ws@[j] <= best,
        decreases len - i,
    {
        if ws[i] > best {
            best = ws[i];
            proof {
                assert(ws@.contains(ws@[i as int]));
            }
        }
        i = i + 1;
    }
    Some(best)
}

} // verus!
