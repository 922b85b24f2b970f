//! Timestamps in nanoseconds since the epoch, as the platform clock gives them.
use vstd::prelude::*;

verus! {

/// Nanoseconds in a second.
pub const NANOS_PER_SEC: u64 = 1_000_000_000;

/// `ts` moved `secs` seconds later, saturating at the largest timestamp.
pub open spec fn add_secs_spec(ts: u64, secs: u64) -> u64 {
    if ts as int + secs as int * NANOS_PER_SEC as int > u64::MAX as int {
        u64::MAX
    } else {
        (ts as int + secs as int * NANOS_PER_SEC as int) as u64
    }
}

/// Whole seconds from `since` to `now`, zero if `now` is earlier.
pub open spec fn elapsed_secs_spec(since: u64, now: u64) -> u64 {
    if now >= since {
        ((now - since) as int / NANOS_PER_SEC as int) as u64
    } else {
        0
    }
}

/// `ts` moved `secs` seconds later, saturating at the largest timestamp.
pub fn add_secs(ts: u64, secs: u64) -> (r: u64)
    ensures
        r == add_secs_spec(ts, secs),
{
    if secs > (u64::MAX - ts) / NANOS_PER_SEC {
        proof {
            assert(secs as int * NANOS_PER_SEC as int > u64::MAX - ts) by (nonlinear_arith)
                requires
                    secs as int > (u64::MAX - ts) as int / NANOS_PER_SEC as int,
            ;
        }
        u64::MAX
    } else {
        proof {
            assert(secs as int * NANOS_PER_SEC as int <= u64::MAX - ts) by (nonlinear_arith)
                requires
                    secs as int <= (u64::MAX - ts) as int / NANOS_PER_SEC as int,
            ;
        }
        ts + secs * NANOS_PER_SEC
    }
}

/// Whole seconds from `since` to `now`, zero if `now` is earlier.
pub fn elapsed_secs(since: u64, now: u64) -> (r: u64)
    ensures
        r == elapsed_secs_spec(since, now),
{
    if now >= since {
        (now - since) / NANOS_PER_SEC
    } else {
        0
    }
}

} // verus!
