//! The measurement window: when it has run out, and the rate of the hits
//! that fell into it.
//!
//! Timestamps and window lengths are whole microseconds. A length given in
//! seconds is that number times [`MICROS_PER_SECOND`].

use vstd::prelude::*;

verus! {

/// Microseconds in a second: the divisor between the event source's
/// timestamps and seconds.
pub const MICROS_PER_SECOND: u64 = 1_000_000;

/// Microseconds in a minute.
pub const MICROS_PER_MINUTE: u64 = 60_000_000;

/// The rate reported for hits in a window of no length, which has no finite
/// rate: it is at least as great as every threshold.
pub const UNBOUNDED_RATE: u128 = u128::MAX;

/// Microseconds from `window_start` to `now`; zero if `now` lies before it.
pub open spec fn elapsed(now: u64, window_start: u64) -> nat {
    if now >= window_start {
        (now - window_start) as nat
    } else {
        0
    }
}

/// Whether a window opened at `window_start` and `duration` microseconds long
/// has run out at `now`: more than `duration` has gone by. Exactly `duration`
/// is not enough.
pub open spec fn is_closed(now: u64, window_start: u64, duration: u64) -> bool {
    elapsed(now, window_start) > duration
}

/// Hits per minute, from `hits` hits in a window of `duration` microseconds:
/// `hits * 60` over the window's length in seconds, rounded toward zero.
///
/// No hits give the rate zero whatever the window. Hits in a window of no
/// length give [`UNBOUNDED_RATE`].
pub open spec fn rate(hits: nat, duration: nat) -> nat {
    if hits == 0 {
        0
    } else if duration == 0 {
        UNBOUNDED_RATE as nat
    } else {
        hits * MICROS_PER_MINUTE as nat / duration
    }
}

/// Computes [`elapsed`].
pub fn elapsed_micros(now: u64, window_start: u64) -> (e: u64)
    ensures
        e == elapsed(now, window_start),
{
    if now >= window_start {
        now - window_start
    } else {
        0
    }
}

/// Decides [`is_closed`].
pub fn window_closed(now: u64, window_start: u64, duration: u64) -> (closed: bool)
    ensures
        closed == is_closed(now, window_start, duration),
{
    elapsed_micros(now, window_start) > duration
}

/// Computes [`rate`].
pub fn hits_per_minute(hits: usize, duration: u64) -> (r: u128)
    ensures
        r == rate(hits as nat, duration as nat),
{
    if hits == 0 {
        0
    } else if duration == 0 {
        UNBOUNDED_RATE
    } else {
        assert(hits as u128 * MICROS_PER_MINUTE as u128 <= u128::MAX) by (nonlinear_arith)
            requires
                hits <= u64::MAX,
                MICROS_PER_MINUTE == 60_000_000,
        ;
        let scaled: u128 = hits as u128 * MICROS_PER_MINUTE as u128;
        scaled / duration as u128
    }
}

} // verus!
