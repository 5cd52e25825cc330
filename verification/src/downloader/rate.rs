//! Transfer-rate arithmetic shared by the progress reporters.

use vstd::prelude::*;

verus! {

/// `a.saturating_mul(b)` for `u64`.
pub open spec fn sat_mul(a: int, b: int) -> int {
    if a * b > u64::MAX { u64::MAX as int } else { a * b }
}

/// `a.saturating_sub(b)`.
pub open spec fn sat_sub(a: int, b: int) -> int {
    if a >= b { a - b } else { 0 }
}

/// Saturating multiplication.
pub fn saturating_mul(a: u64, b: u64) -> (r: u64)
    ensures
        r == sat_mul(a as int, b as int),
{
    if a == 0 {
        assert(a * b == 0) by (nonlinear_arith) requires a == 0;
        return 0;
    }
    let limit = u64::MAX / a;
    if b > limit {
        assert(a * b > u64::MAX) by (nonlinear_arith)
            requires
                a > 0,
                b > limit,
                limit == u64::MAX / a,
        ;
        u64::MAX
    } else {
        assert(a * b <= u64::MAX) by (nonlinear_arith)
            requires
                a > 0,
                b <= limit,
                limit == u64::MAX / a,
        ;
        a * b
    }
}

/// Elapsed milliseconds as a `u64`: the value when it fits, else 1.
pub open spec fn elapsed_ms_u64(ms: u128) -> u64 {
    if ms <= u64::MAX { ms as u64 } else { 1 }
}

/// Bytes per second from `delta` bytes in `elapsed` milliseconds (0 when no time elapsed):
/// `delta.saturating_mul(1000).checked_div(elapsed).unwrap_or(0)`.
pub open spec fn rate_spec(delta: int, elapsed: int) -> int {
    if elapsed == 0 { 0 } else { sat_mul(delta, 1000) / elapsed }
}

/// Seconds left for `remaining` bytes at `speed` bytes per second (0 when the speed is 0):
/// `remaining.checked_div(speed).unwrap_or(0)`.
pub open spec fn eta_spec(remaining: int, speed: int) -> int {
    if speed == 0 { 0 } else { remaining / speed }
}

/// Converts elapsed milliseconds to `u64` as `u64::try_from(..).unwrap_or(1)` does.
pub fn elapsed_millis(ms: u128) -> (r: u64)
    ensures
        r == elapsed_ms_u64(ms),
{
    if ms <= 18446744073709551615u128 { ms as u64 } else { 1 }
}

/// Bytes per second for `delta` bytes in `elapsed` milliseconds.
pub fn rate_per_sec(delta: u64, elapsed: u64) -> (r: u64)
    ensures
        r == rate_spec(delta as int, elapsed as int),
{
    if elapsed == 0 {
        0
    } else {
        saturating_mul(delta, 1000) / elapsed
    }
}

/// Seconds left for `remaining` bytes at `speed` bytes per second.
pub fn eta_secs(remaining: u64, speed: u64) -> (r: u64)
    ensures
        r == eta_spec(remaining as int, speed as int),
{
    if speed == 0 { 0 } else { remaining / speed }
}

/// Bytes not yet transferred: `total.saturating_sub(done)`.
pub fn remaining_bytes(total: u64, done: u64) -> (r: u64)
    ensures
        r == sat_sub(total as int, done as int),
{
    if total >= done { total - done } else { 0 }
}

} // verus!
