//! Per-chunk state machine.
//!
//! A chunk moves from `Pending` through `Attempting` to `Succeeded`, or on
//! failure either into `Backoff` (a retry is scheduled, a failure permit is
//! held) or into `Aborted` (the fault itself when retry is disabled, retries
//! exhausted, or no failure permit was available).

use vstd::prelude::*;

use crate::errors::{spec_fault_error, ChunkFault, DownloadError};
use crate::planner::ChunkRange;

verus! {

/// Where a chunk stands in its lifetime.
#[derive(Clone, Copy, PartialEq, Eq, Structural, Debug)]
pub enum ChunkState {
    /// Not yet started; holds no permit.
    Pending,
    /// A transfer attempt is in flight; a concurrency permit is held, and a
    /// failure permit too when `retrying`.
    Attempting { retrying: bool },
    /// The last attempt failed; a failure permit is held while the worker
    /// waits out the backoff before the next attempt.
    Backoff,
    /// Terminal: the chunk's bytes were fetched and written.
    Succeeded,
    /// Terminal: the chunk gave up with this error.
    Aborted(DownloadError),
}

/// One chunk's byte range together with its progress.
///
/// `attempts` counts the transfer attempts started so far; the first attempt
/// is number 1 and each retry adds one.
#[derive(Clone, Copy, PartialEq, Eq, Structural, Debug)]
pub struct ChunkTask {
    pub range: ChunkRange,
    pub attempts: usize,
    pub state: ChunkState,
}

impl ChunkTask {
    /// A freshly planned chunk: nothing attempted.
    pub open spec fn spec_new(range: ChunkRange) -> ChunkTask {
        ChunkTask { range, attempts: 0, state: ChunkState::Pending }
    }

    /// The chunk has reached a state from which no transition leaves.
    pub open spec fn is_terminal(&self) -> bool {
        self.state is Succeeded || self.state is Aborted
    }

    /// The chunk holds a concurrency permit: from the start of its first
    /// attempt until it turns terminal.
    pub open spec fn holds_transfer_permit(&self) -> bool {
        self.state is Attempting || self.state is Backoff
    }

    /// The chunk holds a failure permit: from the grant after a failure
    /// until the retry it paid for concludes.
    pub open spec fn holds_failure_permit(&self) -> bool {
        self.state == (ChunkState::Attempting { retrying: true }) || self.state is Backoff
    }
}

/// The task after its first attempt starts.
pub open spec fn spec_start(t: ChunkTask) -> ChunkTask {
    ChunkTask { range: t.range, attempts: 1, state: ChunkState::Attempting { retrying: false } }
}

/// The task after an in-flight attempt concludes.
///
/// `outcome` is `None` on success, or the fault that ended the attempt.
/// `parallel_failures` and `max_retries` are the configured caps, and
/// `granted` says whether a non-blocking failure-permit acquisition
/// succeeded; it only matters when a retry is actually considered.
pub open spec fn spec_finish(
    t: ChunkTask,
    outcome: Option<ChunkFault>,
    parallel_failures: int,
    max_retries: int,
    granted: bool,
) -> ChunkTask {
    match outcome {
        Option::None => ChunkTask { state: ChunkState::Succeeded, ..t },
        Option::Some(fault) => if parallel_failures == 0 {
            ChunkTask {
                state: ChunkState::Aborted(
                    spec_fault_error(
                        fault,
                        t.range.start as int,
                        t.range.stop as int,
                        t.attempts as int,
                    ),
                ),
                ..t
            }
        } else if t.attempts - 1 >= max_retries {
            ChunkTask {
                state: ChunkState::Aborted(
                    DownloadError::RetryExhausted {
                        start: t.range.start,
                        stop: t.range.stop,
                        attempts: t.attempts,
                    },
                ),
                ..t
            }
        } else if granted {
            ChunkTask { state: ChunkState::Backoff, ..t }
        } else {
            ChunkTask {
                state: ChunkState::Aborted(
                    DownloadError::ConcurrencyLimitExceeded {
                        start: t.range.start,
                        stop: t.range.stop,
                    },
                ),
                ..t
            }
        },
    }
}

/// The task after it leaves backoff and starts the retry its failure permit
/// paid for.
pub open spec fn spec_start_retry(t: ChunkTask) -> ChunkTask {
    ChunkTask {
        range: t.range,
        attempts: (t.attempts + 1) as usize,
        state: ChunkState::Attempting { retrying: true },
    }
}

/// One full failure cycle under an available failure permit: the in-flight
/// attempt fails with `fault`, a permit is granted, the backoff passes, and
/// the next attempt starts.
pub open spec fn spec_failure_cycle(
    t: ChunkTask,
    fault: ChunkFault,
    parallel_failures: int,
    max_retries: int,
) -> ChunkTask {
    spec_start_retry(spec_finish(t, Option::Some(fault), parallel_failures, max_retries, true))
}

/// The task after its first attempt and `faults.len()` failure cycles, each
/// granted a failure permit.
pub open spec fn spec_after_failures(
    range: ChunkRange,
    faults: Seq<ChunkFault>,
    parallel_failures: int,
    max_retries: int,
) -> ChunkTask
    decreases faults.len(),
{
    if faults.len() == 0 {
        spec_start(ChunkTask::spec_new(range))
    } else {
        spec_failure_cycle(
            spec_after_failures(range, faults.drop_last(), parallel_failures, max_retries),
            faults.last(),
            parallel_failures,
            max_retries,
        )
    }
}

/// With retry disabled (`parallel_failures == 0` and `max_retries == 0`), a
/// single failure is terminal at once: the chunk aborts with the fault of
/// its only attempt, and no retry was ever recorded.
pub proof fn lemma_no_retry_single_failure(range: ChunkRange, fault: ChunkFault)
    ensures
        ({
            let t = spec_finish(
                spec_start(ChunkTask::spec_new(range)),
                Option::Some(fault),
                0,
                0,
                false,
            );
            &&& t.attempts == 1
            &&& t.state == ChunkState::Aborted(
                spec_fault_error(fault, range.start as int, range.stop as int, 1),
            )
        }),
{
}

/// With retry enabled, a chunk that fails its first `k <= max_retries`
/// attempts and then succeeds is `Succeeded`, with `k + 1` attempts
/// recorded.
pub proof fn lemma_retries_then_success(
    range: ChunkRange,
    faults: Seq<ChunkFault>,
    parallel_failures: int,
    max_retries: int,
)
    requires
        parallel_failures >= 1,
        faults.len() <= max_retries,
        faults.len() + 1 <= usize::MAX,
    ensures
        ({
            let t = spec_after_failures(range, faults, parallel_failures, max_retries);
            let done = spec_finish(t, Option::None, parallel_failures, max_retries, false);
            &&& t.range == range
            &&& t.state is Attempting
            &&& t.attempts == faults.len() + 1
            &&& done.state is Succeeded
            &&& done.attempts == faults.len() + 1
        }),
    decreases faults.len(),
{
    if faults.len() > 0 {
        lemma_retries_then_success(range, faults.drop_last(), parallel_failures, max_retries);
    }
}

/// A chunk that fails once more than `max_retries` allows aborts with
/// `RetryExhausted`, after exactly `max_retries + 1` attempts.
pub proof fn lemma_retries_exhausted(
    range: ChunkRange,
    faults: Seq<ChunkFault>,
    last_fault: ChunkFault,
    parallel_failures: int,
    max_retries: int,
    granted: bool,
)
    requires
        parallel_failures >= 1,
        faults.len() == max_retries,
        faults.len() + 1 <= usize::MAX,
    ensures
        ({
            let t = spec_after_failures(range, faults, parallel_failures, max_retries);
            let done = spec_finish(
                t,
                Option::Some(last_fault),
                parallel_failures,
                max_retries,
                granted,
            );
            &&& done.attempts == max_retries + 1
            &&& done.state == ChunkState::Aborted(
                DownloadError::RetryExhausted {
                    start: range.start,
                    stop: range.stop,
                    attempts: (max_retries + 1) as usize,
                },
            )
        }),
{
    lemma_retries_then_success(range, faults, parallel_failures, max_retries);
}

} // verus!
