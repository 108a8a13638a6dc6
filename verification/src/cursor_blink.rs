//! The cadence of the cursor-blink thread.
use vstd::prelude::*;

verus! {

/// Lowest accepted blink interval, in milliseconds.
pub const MIN_BLINK_INTERVAL_MS: u64 = 50;

/// Highest accepted blink interval, in milliseconds.
pub const MAX_BLINK_INTERVAL_MS: u64 = 60_000;

/// Bounds a blink interval (in milliseconds) to `[50, 60000]`.
pub fn clamp_interval(ms: u64) -> (r: u64)
    ensures
        r == if ms < MIN_BLINK_INTERVAL_MS {
            MIN_BLINK_INTERVAL_MS
        } else if ms > MAX_BLINK_INTERVAL_MS {
            MAX_BLINK_INTERVAL_MS
        } else {
            ms
        },
{
    if ms < MIN_BLINK_INTERVAL_MS {
        MIN_BLINK_INTERVAL_MS
    } else if ms > MAX_BLINK_INTERVAL_MS {
        MAX_BLINK_INTERVAL_MS
    } else {
        ms
    }
}

/// Longest single sleep of the blink thread, in milliseconds, so that a
/// shorter interval or a shutdown is noticed promptly.
pub const BLINK_SLEEP_SLICE_MS: u64 = 50;

/// The interval the blink thread starts with: none when blinking is off
/// (an interval of 0 ms, in which case no thread is started), otherwise
/// the clamped interval.
pub fn initial_blink_interval(initial_ms: u64) -> (r: Option<u64>)
    ensures
        initial_ms == 0 ==> r is None,
        initial_ms > 0 ==> r == Some(clamp_interval_spec(initial_ms)),
{
    if initial_ms == 0 {
        None
    } else {
        Some(clamp_interval(initial_ms))
    }
}

/// `ms` bounded to `[50, 60000]`.
pub open spec fn clamp_interval_spec(ms: u64) -> u64 {
    if ms < MIN_BLINK_INTERVAL_MS {
        MIN_BLINK_INTERVAL_MS
    } else if ms > MAX_BLINK_INTERVAL_MS {
        MAX_BLINK_INTERVAL_MS
    } else {
        ms
    }
}

/// One step of the blink thread's wait: with `remaining` milliseconds left,
/// sleep for the returned slice (at most 50 ms) and then have the returned
/// remainder left. The slices of one wait add up to the interval.
pub fn next_sleep_slice(remaining: u64) -> (r: (u64, u64))
    requires
        remaining > 0,
    ensures
        r.0 == if remaining < BLINK_SLEEP_SLICE_MS { remaining } else { BLINK_SLEEP_SLICE_MS },
        r.0 > 0,
        r.0 + r.1 == remaining,
{
    let slice = if remaining < BLINK_SLEEP_SLICE_MS { remaining } else { BLINK_SLEEP_SLICE_MS };
    (slice, remaining - slice)
}

} // verus!
