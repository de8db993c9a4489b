//! What the engine draws from its environment: parsed RFC 3339 timestamps,
//! the wall clock, and fresh identifiers.

use vstd::prelude::*;

use crate::time::{valid_instant, MAX_INSTANT};
use crate::types::ValidationError;

verus! {

/// The instant (seconds since the Unix epoch) an RFC 3339 timestamp denotes,
/// or `None` for text that is not one. A function of the characters alone.
pub uninterp spec fn rfc3339_epoch(s: Seq<char>) -> Option<int>;

/// Relies on chrono's `DateTime::parse_from_rfc3339` and `timestamp`: whether
/// the text parses, and which instant it denotes, depend on the characters
/// alone.
#[verifier::external_body]
fn parse_rfc3339(s: &str) -> (r: Option<i64>)
    ensures
        match r {
            Some(t) => rfc3339_epoch(s@) == Some(t as int),
            None => rfc3339_epoch(s@) is None,
        },
{
    match chrono::DateTime::parse_from_rfc3339(s) {
        Ok(d) => Some(d.timestamp()),
        Err(_) => None,
    }
}

/// Parse a creation request's target time: an RFC 3339 timestamp denoting an
/// instant within the supported horizon.
pub fn parse_target_time(s: &str) -> (r: Result<u64, ValidationError>)
    ensures
        match r {
            Ok(t) => rfc3339_epoch(s@) == Some(t as int) && valid_instant(t),
            Err(e) => (e == ValidationError::InvalidTimeFormat && rfc3339_epoch(s@) is None) || (
            e == ValidationError::TimeBeyondHorizon && (match rfc3339_epoch(s@) {
                Some(t) => t < 0 || t > MAX_INSTANT,
                None => false,
            })),
        },
{
    match parse_rfc3339(s) {
        None => Err(ValidationError::InvalidTimeFormat),
        Some(t) => {
            if t < 0 || t > MAX_INSTANT as i64 {
                Err(ValidationError::TimeBeyondHorizon)
            } else {
                Ok(t as u64)
            }
        },
    }
}

/// Relies on chrono's `Utc::now` and `timestamp`: the current wall-clock
/// time. Nothing can be promised of the value; `Utc::now` itself panics on a
/// machine whose clock is set before 1970.
#[verifier::external_body]
fn now_epoch() -> (r: i64) {
    chrono::Utc::now().timestamp()
}

/// The current instant, clamped into the supported horizon.
pub fn current_instant() -> (r: u64)
    ensures
        valid_instant(r),
{
    let t = now_epoch();
    if t < 0 {
        0
    } else if t > MAX_INSTANT as i64 {
        MAX_INSTANT
    } else {
        t as u64
    }
}

/// Relies on uuid's `Uuid::new_v4` and its hyphenated `Display` form: a
/// freshly drawn random identifier. Nothing can be promised of the value.
#[verifier::external_body]
pub(crate) fn fresh_id() -> (r: String) {
    uuid::Uuid::new_v4().to_string()
}

} // verus!
