//! How fast a reliable channel may send, and how long out-of-order deltas are waited for.

use crate::numbers::at_most_u64;
use crate::time::duration_nanos;
use std::time::Duration;
use vstd::prelude::*;

verus! {

/// The least time that a missing delta is waited for.
pub const VIDEO_EPOCH_REORDER_MIN_NANOS: u64 = 40_000_000;

/// The most time that a missing delta is waited for.
pub const VIDEO_EPOCH_REORDER_MAX_NANOS: u64 = 120_000_000;

/// What is added to two round trips.
pub const VIDEO_EPOCH_REORDER_JITTER_NANOS: u64 = 10_000_000;

/// How often frames that took too long are looked for, in milliseconds.
pub const VIDEO_RECOVERY_POLL_INTERVAL_MS: u64 = 25;

/// How long setting up the channels may take, in seconds.
pub const CHANNEL_SETUP_TIMEOUT_SECS: u64 = 10;

/// How long a missing delta is waited for: two round trips and some jitter, within bounds.
pub open spec fn reorder_window_nanos(rtt_nanos: nat) -> nat {
    let wanted = 2 * rtt_nanos + VIDEO_EPOCH_REORDER_JITTER_NANOS as nat;
    if wanted < VIDEO_EPOCH_REORDER_MIN_NANOS {
        VIDEO_EPOCH_REORDER_MIN_NANOS as nat
    } else if wanted > VIDEO_EPOCH_REORDER_MAX_NANOS {
        VIDEO_EPOCH_REORDER_MAX_NANOS as nat
    } else {
        wanted
    }
}

/// How long a missing delta is waited for.
pub fn video_epoch_reorder_window(rtt: Duration) -> (window: Duration)
    ensures
        duration_nanos(window) == reorder_window_nanos(duration_nanos(rtt)),
{
    let rtt_nanos: u128 = rtt.as_nanos();
    if rtt_nanos > VIDEO_EPOCH_REORDER_MAX_NANOS as u128 {
        return Duration::from_nanos(VIDEO_EPOCH_REORDER_MAX_NANOS);
    }
    let wanted: u64 = 2 * rtt_nanos as u64 + VIDEO_EPOCH_REORDER_JITTER_NANOS;
    if wanted < VIDEO_EPOCH_REORDER_MIN_NANOS {
        Duration::from_nanos(VIDEO_EPOCH_REORDER_MIN_NANOS)
    } else if wanted > VIDEO_EPOCH_REORDER_MAX_NANOS {
        Duration::from_nanos(VIDEO_EPOCH_REORDER_MAX_NANOS)
    } else {
        Duration::from_nanos(wanted)
    }
}

/// The time that a payload takes at a limit of kilobits per second, in microseconds and rounded up.
/// Without a limit it takes none.
pub open spec fn pacing_us(payload_bytes: nat, limit_kbps: Option<u32>) -> nat {
    match limit_kbps {
        Some(kbps) => if kbps == 0 {
            0
        } else {
            at_most_u64((payload_bytes * 8_000 + (kbps - 1)) as nat / kbps as nat)
        },
        None => 0,
    }
}

/// How long to wait before a payload is sent, in microseconds.
pub fn pacing_delay_us(payload_bytes: usize, bandwidth_limit_kbps: Option<u32>) -> (delay_us: u64)
    ensures
        delay_us == pacing_us(payload_bytes as nat, bandwidth_limit_kbps),
{
    let kbps: u32 = match bandwidth_limit_kbps {
        Some(kbps) => kbps,
        None => 0,
    };
    if kbps == 0 {
        return 0;
    }
    let delay_us: u128 = (payload_bytes as u128 * 8_000 + (kbps as u128 - 1)) / (kbps as u128);
    if delay_us > u64::MAX as u128 {
        u64::MAX
    } else {
        delay_us as u64
    }
}

/// Waiting for a payload keeps the limit: in the time that was waited, the limit lets at least as
/// many bits through as the payload has.
pub proof fn pacing_keeps_the_limit(payload_bytes: nat, kbps: u32)
    requires
        kbps > 0,
        pacing_us(payload_bytes, Some(kbps)) < u64::MAX,
    ensures
        pacing_us(payload_bytes, Some(kbps)) * kbps >= payload_bytes * 8_000,
{
    let bits = payload_bytes * 8_000;
    let micros = (bits + (kbps - 1)) as nat / kbps as nat;
    assert(micros * kbps >= bits) by (nonlinear_arith)
        requires
            micros == (bits + (kbps - 1)) as nat / kbps as nat,
            kbps > 0,
    ;
}

/// No more is waited than the limit calls for: one microsecond less would be too short. Without a limit, and
/// with a limit of none, nothing is waited.
pub proof fn pacing_waits_no_longer_than_needed(payload_bytes: nat, kbps: u32)
    ensures
        pacing_us(payload_bytes, None) == 0,
        pacing_us(payload_bytes, Some(0)) == 0,
        kbps > 0 ==> (pacing_us(payload_bytes, Some(kbps)) > 0 ==> (pacing_us(payload_bytes, Some(kbps)) - 1) * kbps
            < payload_bytes * 8_000),
{
    if kbps > 0 {
        let bits = payload_bytes * 8_000;
        let micros = (bits + (kbps - 1)) as nat / kbps as nat;
        let told = pacing_us(payload_bytes, Some(kbps));
        assert(micros > 0 ==> (micros - 1) * kbps < bits) by (nonlinear_arith)
            requires
                micros == (bits + (kbps - 1)) as nat / kbps as nat,
                kbps > 0,
        ;
        if told > 0 {
            vstd::arithmetic::mul::lemma_mul_inequality(told - 1, micros - 1, kbps as int);
        }
    }
}

/// A missing delta is waited for two round trips and ten milliseconds, but no less than forty milliseconds and no
/// more than a hundred and twenty.
pub proof fn missing_deltas_are_waited_for_two_round_trips(rtt_nanos: nat)
    ensures
        40_000_000 <= reorder_window_nanos(rtt_nanos) <= 120_000_000,
        15_000_000 <= rtt_nanos <= 55_000_000 ==> reorder_window_nanos(rtt_nanos) == rtt_nanos + rtt_nanos + 10_000_000,
        rtt_nanos < 15_000_000 ==> reorder_window_nanos(rtt_nanos) == 40_000_000,
        rtt_nanos > 55_000_000 ==> reorder_window_nanos(rtt_nanos) == 120_000_000,
{
}

} // verus!
