//! Readings of one monotonic clock, and spans of time, both in microseconds.
use vstd::prelude::*;

verus! {

/// The time from `at` to `now`, none where `at` is not in the past.
pub open spec fn elapsed_since(at: u64, now: u64) -> u64 {
    if now > at { (now - at) as u64 } else { 0 }
}

pub fn elapsed(at: u64, now: u64) -> (span: u64)
    ensures
        span == elapsed_since(at, now),
{
    if now > at { now - at } else { 0 }
}

/// `at` moved by `span`, or the last reading of the clock.
pub open spec fn later(at: u64, span: u64) -> u64 {
    if at + span > u64::MAX { u64::MAX } else { (at + span) as u64 }
}

pub fn after(at: u64, span: u64) -> (sum: u64)
    ensures
        sum == later(at, span),
{
    if at > u64::MAX - span { u64::MAX } else { at + span }
}

/// What lies a time after a reading is that time past it, as far as the clock goes; of a reading
/// that lies ahead, nothing has passed.
pub proof fn spans_add_up(now: u64, span: u64)
    ensures
        now + span <= u64::MAX ==> later(now, span) == now + span && elapsed_since(now, later(now, span)) == span,
        now + span > u64::MAX ==> later(now, span) == u64::MAX,
        elapsed_since(later(now, span), now) == 0,
{
}

} // verus!
