//! Exponential backoff schedule for chunk retries.
//!
//! The wait before retry `n` is `min(base + n*n + jitter, max)`, where the
//! jitter is a fresh random value in `[0, 500]` milliseconds drawn on every
//! attempt.

use rand::Rng;
use vstd::prelude::*;

verus! {

/// Base wait (milliseconds) of the default backoff policy.
pub const BASE_WAIT_TIME: usize = 300;

/// Cap (milliseconds) of the default backoff policy.
pub const MAX_WAIT_TIME: usize = 10_000;

/// Largest jitter value (milliseconds) that may be added to a backoff wait.
pub const MAX_JITTER: usize = 500;

/// The backoff wait, as a mathematical function of the jitter actually drawn:
/// `min(base + n*n + jitter, max)`.
pub open spec fn backoff_wait(base: int, n: int, jitter: int, max: int) -> int {
    if base + n * n + jitter <= max {
        base + n * n + jitter
    } else {
        max
    }
}

/// Relies on `rand::thread_rng` / `Rng::gen_range`: a uniformly random value
/// in the inclusive range `0..=500`. Nothing beyond the bounds is promised of
/// a random draw.
#[verifier::external_body]
fn draw_jitter() -> (r: usize)
    ensures
        r <= MAX_JITTER,
{
    rand::thread_rng().gen_range(0..=MAX_JITTER)
}

/// Deterministic core of the backoff schedule: the wait for retry `n` given
/// the jitter that was drawn for it. A sum beyond the machine range is over
/// `max` in any case, so the cap absorbs it.
pub fn backoff_wait_with_jitter(base_wait_time: usize, n: usize, jitter: usize, max: usize) -> (r:
    usize)
    ensures
        r == backoff_wait(base_wait_time as int, n as int, jitter as int, max as int),
{
    let sum: Option<usize> = match n.checked_mul(n) {
        Some(sq) => match sq.checked_add(base_wait_time) {
            Some(t) => t.checked_add(jitter),
            None => None,
        },
        None => None,
    };
    match sum {
        Some(v) => if v <= max {
            v
        } else {
            max
        },
        None => {
            proof {
                assert(n * n >= 0) by (nonlinear_arith);
            }
            max
        },
    }
}

/// Wait before retry `n`, with a fresh random jitter. Every outcome lies
/// between the jitter-free wait and the wait with maximal jitter, both capped
/// at `max`.
pub fn exponential_backoff(base_wait_time: usize, n: usize, max: usize) -> (r: usize)
    ensures
        backoff_wait(base_wait_time as int, n as int, 0, max as int) <= r,
        r <= backoff_wait(base_wait_time as int, n as int, MAX_JITTER as int, max as int),
        r <= max,
{
    let jitter = draw_jitter();
    proof {
        assert(n * n >= 0) by (nonlinear_arith);
    }
    backoff_wait_with_jitter(base_wait_time, n, jitter, max)
}

/// The wait always lies between `base` and `max`, whatever jitter was
/// drawn; and held at any fixed jitter — in particular its minimum, zero —
/// it is non-decreasing in the retry number.
pub proof fn lemma_backoff_bounds_monotone(base: int, n: int, m: int, jitter: int, max: int)
    requires
        0 <= base <= max,
        0 <= jitter,
        0 <= n <= m,
    ensures
        base <= backoff_wait(base, n, jitter, max) <= max,
        backoff_wait(base, n, jitter, max) <= backoff_wait(base, m, jitter, max),
{
    assert(n * n <= m * m) by (nonlinear_arith)
        requires
            0 <= n <= m,
    ;
    assert(0 <= n * n) by (nonlinear_arith)
        requires
            0 <= n,
    ;
}

} // verus!
