//! The state of one whole download run: every chunk's task, and the two
//! permit pools that bound it.
//!
//! The transfer pool caps how many chunks are in flight at once
//! (`max_files`); a worker holds its permit from its first attempt until it
//! turns terminal. The failure pool caps how many chunks are failing at once
//! (`parallel_failures`); it is acquired without waiting after each failure
//! and held only through the backoff and the retry it paid for. The caller
//! drives the run: it starts attempts, reports each attempt's outcome, and
//! performs the waits and transfers the decisions call for.

use vstd::prelude::*;

use crate::backoff::{backoff_wait, exponential_backoff, BASE_WAIT_TIME, MAX_JITTER, MAX_WAIT_TIME};
use crate::config::DownloadConfig;
use crate::errors::{fault_error, ChunkFault, DownloadError, ProbeFault};
use crate::planner::{plan_chunks, planned, ChunkRange};
use crate::probe::{digits_value, probe_total, total_token, wellformed_total};
use crate::worker::{spec_finish, spec_start, spec_start_retry, ChunkState, ChunkTask};

verus! {

/// Transfer permits a task holds (one while in flight, none otherwise).
pub open spec fn transfer_weight(t: ChunkTask) -> int {
    if t.holds_transfer_permit() {
        1
    } else {
        0
    }
}

/// Failure permits a task holds.
pub open spec fn failure_weight(t: ChunkTask) -> int {
    if t.holds_failure_permit() {
        1
    } else {
        0
    }
}

/// Transfer permits held across all tasks.
pub open spec fn count_transfer(s: Seq<ChunkTask>) -> int
    decreases s.len(),
{
    if s.len() == 0 {
        0
    } else {
        transfer_weight(s[0]) + count_transfer(s.drop_first())
    }
}

/// Failure permits held across all tasks.
pub open spec fn count_failing(s: Seq<ChunkTask>) -> int
    decreases s.len(),
{
    if s.len() == 0 {
        0
    } else {
        failure_weight(s[0]) + count_failing(s.drop_first())
    }
}

proof fn lemma_counts_nonneg(s: Seq<ChunkTask>)
    ensures
        count_transfer(s) >= 0,
        count_failing(s) >= 0,
    decreases s.len(),
{
    if s.len() > 0 {
        lemma_counts_nonneg(s.drop_first());
    }
}

proof fn lemma_counts_push(s: Seq<ChunkTask>, t: ChunkTask)
    ensures
        count_transfer(s.push(t)) == count_transfer(s) + transfer_weight(t),
        count_failing(s.push(t)) == count_failing(s) + failure_weight(t),
    decreases s.len(),
{
    if s.len() == 0 {
        assert(s.push(t).drop_first() =~= s);
    } else {
        lemma_counts_push(s.drop_first(), t);
        assert(s.push(t).drop_first() =~= s.drop_first().push(t));
        assert(s.push(t)[0] == s[0]);
    }
}

proof fn lemma_counts_update(s: Seq<ChunkTask>, i: int, t: ChunkTask)
    requires
        0 <= i < s.len(),
    ensures
        count_transfer(s.update(i, t)) == count_transfer(s) - transfer_weight(s[i])
            + transfer_weight(t),
        count_failing(s.update(i, t)) == count_failing(s) - failure_weight(s[i]) + failure_weight(
            t,
        ),
    decreases s.len(),
{
    if i == 0 {
        assert(s.update(0, t).drop_first() =~= s.drop_first());
    } else {
        lemma_counts_update(s.drop_first(), i - 1, t);
        assert(s.update(i, t).drop_first() =~= s.drop_first().update(i - 1, t));
        assert(s.update(i, t)[0] == s[0]);
    }
}

proof fn lemma_counts_member(s: Seq<ChunkTask>, i: int)
    requires
        0 <= i < s.len(),
    ensures
        count_transfer(s) >= transfer_weight(s[i]),
        count_failing(s) >= failure_weight(s[i]),
    decreases s.len(),
{
    lemma_counts_nonneg(s.drop_first());
    if i == 0 {
        lemma_counts_nonneg(s);
    } else {
        lemma_counts_member(s.drop_first(), i - 1);
    }
}

/// What the caller must do after reporting an attempt's outcome.
#[derive(Clone, Copy, PartialEq, Eq, Structural, Debug)]
pub enum AttemptDecision {
    /// The chunk succeeded; nothing more to do for it.
    Completed,
    /// The chunk is in backoff: wait `wait_ms` milliseconds, then start the
    /// retry.
    RetryScheduled { wait_ms: usize },
    /// The chunk aborted; its error is terminal for the run.
    Failed,
}

/// One download run: the per-chunk tasks and the permit pools over them.
pub struct DownloadRun {
    /// Cap on chunks in flight at once.
    pub max_files: usize,
    /// Cap on chunks simultaneously in a failed, retrying state.
    pub parallel_failures: usize,
    /// Cap on retries of each single chunk.
    pub max_retries: usize,
    /// One task per planned chunk, in submission order.
    pub tasks: Vec<ChunkTask>,
    /// Transfer permits currently held.
    pub active: usize,
    /// Failure permits currently held.
    pub failing: usize,
}

impl DownloadRun {
    /// Task-level invariant: the attempt counter fits the task's state and
    /// never passes `max_retries + 1`.
    pub open spec fn task_wf(&self, t: ChunkTask) -> bool {
        match t.state {
            ChunkState::Pending => t.attempts == 0,
            ChunkState::Attempting { retrying } => {
                &&& 1 <= t.attempts <= self.max_retries + 1
                &&& (retrying ==> self.parallel_failures >= 1 && t.attempts >= 2)
            },
            ChunkState::Backoff => {
                &&& 1 <= t.attempts <= self.max_retries
                &&& self.parallel_failures >= 1
            },
            ChunkState::Succeeded => 1 <= t.attempts <= self.max_retries + 1,
            ChunkState::Aborted(_) => t.attempts <= self.max_retries + 1,
        }
    }

    /// Run-level invariant. In particular: the permit counters agree with
    /// the tasks that hold permits, chunks in flight never exceed
    /// `max_files`, and simultaneously failing chunks never exceed
    /// `parallel_failures`.
    pub open spec fn wf(&self) -> bool {
        &&& self.max_files >= 1
        &&& self.parallel_failures <= self.max_files
        &&& (self.parallel_failures == 0 <==> self.max_retries == 0)
        &&& self.max_retries < usize::MAX
        &&& self.active == count_transfer(self.tasks@)
        &&& self.failing == count_failing(self.tasks@)
        &&& self.active <= self.max_files
        &&& self.failing <= self.parallel_failures
        &&& forall|i: int| 0 <= i < self.tasks@.len() ==> self.task_wf(#[trigger] self.tasks@[i])
    }

    /// The number of chunk attempts in flight never exceeds `max_files`,
    /// and the number of simultaneously failing chunks never exceeds
    /// `parallel_failures`: both hold in every reachable state of a run.
    pub proof fn lemma_gates_bounded(&self)
        requires
            self.wf(),
        ensures
            count_transfer(self.tasks@) <= self.max_files,
            count_failing(self.tasks@) <= self.parallel_failures,
    {
    }

    /// Set up a run over the planned chunks. Nothing is in flight and no
    /// permit is held.
    pub fn new_run(
        max_files: usize,
        parallel_failures: usize,
        max_retries: usize,
        ranges: &Vec<ChunkRange>,
    ) -> (r: DownloadRun)
        requires
            max_files >= 1,
            parallel_failures <= max_files,
            parallel_failures == 0 <==> max_retries == 0,
            max_retries < usize::MAX,
        ensures
            r.wf(),
            r.max_files == max_files,
            r.parallel_failures == parallel_failures,
            r.max_retries == max_retries,
            r.active == 0,
            r.failing == 0,
            r.tasks@.len() == ranges@.len(),
            forall|i: int|
                0 <= i < ranges@.len() ==> r.tasks@[i] == ChunkTask::spec_new(ranges@[i]),
    {
        let mut tasks: Vec<ChunkTask> = Vec::new();
        let mut i: usize = 0;
        while i < ranges.len()
            invariant
                0 <= i <= ranges@.len(),
                tasks@.len() == i,
                count_transfer(tasks@) == 0,
                count_failing(tasks@) == 0,
                forall|j: int|
                    0 <= j < i ==> tasks@[j] == ChunkTask::spec_new(ranges@[j]),
            decreases ranges@.len() - i,
        {
            let t = ChunkTask {
                range: ranges[i],
                attempts: 0,
                state: ChunkState::Pending,
            };
            proof {
                lemma_counts_push(tasks@, t);
            }
            tasks.push(t);
            i = i + 1;
        }
        DownloadRun { max_files, parallel_failures, max_retries, tasks, active: 0, failing: 0 }
    }

    /// Start the first pending chunk, if a transfer permit is free. `None`
    /// means either the pool is exhausted — the caller must wait for an
    /// attempt to conclude — or nothing is pending any more.
    pub fn try_start(&mut self) -> (r: Option<usize>)
        requires
            old(self).wf(),
        ensures
            final(self).wf(),
            final(self).max_files == old(self).max_files,
            final(self).parallel_failures == old(self).parallel_failures,
            final(self).max_retries == old(self).max_retries,
            match r {
                Some(i) => {
                    &&& 0 <= i < old(self).tasks@.len()
                    &&& old(self).tasks@[i as int].state is Pending
                    &&& forall|j: int| 0 <= j < i ==> !(old(self).tasks@[j].state is Pending)
                    &&& old(self).active < old(self).max_files
                    &&& final(self).tasks@ == old(self).tasks@.update(
                        i as int,
                        spec_start(old(self).tasks@[i as int]),
                    )
                    &&& final(self).active == old(self).active + 1
                    &&& final(self).failing == old(self).failing
                },
                None => {
                    &&& *final(self) == *old(self)
                    &&& (old(self).active == old(self).max_files || forall|j: int|
                        0 <= j < old(self).tasks@.len() ==> !(old(self).tasks@[j].state
                            is Pending))
                },
            },
    {
        if self.active == self.max_files {
            return None;
        }
        let n = self.tasks.len();
        let mut i: usize = 0;
        while i < n
            invariant
                *self == *old(self),
                self.wf(),
                self.active < self.max_files,
                n == self.tasks@.len(),
                0 <= i <= n,
                forall|j: int| 0 <= j < i ==> !(self.tasks@[j].state is Pending),
            decreases n - i,
        {
            let pending = match self.tasks[i].state {
                ChunkState::Pending => true,
                _ => false,
            };
            if pending {
                let t = self.tasks[i];
                let started = ChunkTask {
                    range: t.range,
                    attempts: 1,
                    state: ChunkState::Attempting { retrying: false },
                };
                proof {
                    lemma_counts_update(self.tasks@, i as int, started);
                }
                self.tasks.set(i, started);
                self.active = self.active + 1;
                return Some(i);
            }
            i = i + 1;
        }
        None
    }

    /// Record the outcome of chunk `idx`'s in-flight attempt and decide what
    /// follows: done, a scheduled retry with its backoff wait, or a terminal
    /// abort. A failure permit held for this attempt returns to the pool
    /// first; a retry is granted only if the pool then still has room.
    pub fn finish_attempt(&mut self, idx: usize, outcome: Option<ChunkFault>) -> (d:
        AttemptDecision)
        requires
            old(self).wf(),
            idx < old(self).tasks@.len(),
            old(self).tasks@[idx as int].state is Attempting,
        ensures
            final(self).wf(),
            final(self).max_files == old(self).max_files,
            final(self).parallel_failures == old(self).parallel_failures,
            final(self).max_retries == old(self).max_retries,
            ({
                let t = old(self).tasks@[idx as int];
                let released = old(self).failing - failure_weight(t);
                let granted = released < old(self).parallel_failures;
                let t2 = spec_finish(
                    t,
                    outcome,
                    old(self).parallel_failures as int,
                    old(self).max_retries as int,
                    granted,
                );
                &&& final(self).tasks@ == old(self).tasks@.update(idx as int, t2)
                &&& final(self).active == old(self).active - transfer_weight(t) + transfer_weight(t2)
                &&& final(self).failing == released + failure_weight(t2)
                &&& match d {
                    AttemptDecision::Completed => t2.state is Succeeded,
                    AttemptDecision::RetryScheduled { wait_ms } => {
                        &&& t2.state is Backoff
                        &&& backoff_wait(
                            BASE_WAIT_TIME as int,
                            t.attempts - 1,
                            0,
                            MAX_WAIT_TIME as int,
                        ) <= wait_ms
                        &&& wait_ms <= backoff_wait(
                            BASE_WAIT_TIME as int,
                            t.attempts - 1,
                            MAX_JITTER as int,
                            MAX_WAIT_TIME as int,
                        )
                    },
                    AttemptDecision::Failed => t2.state is Aborted,
                }
            }),
    {
        let t = self.tasks[idx];
        let retrying = match t.state {
            ChunkState::Attempting { retrying } => retrying,
            _ => false,
        };
        proof {
            lemma_counts_member(self.tasks@, idx as int);
        }
        if retrying {
            self.failing = self.failing - 1;
        }
        match outcome {
            None => {
                let t2 = ChunkTask { state: ChunkState::Succeeded, ..t };
                proof {
                    lemma_counts_update(self.tasks@, idx as int, t2);
                }
                self.tasks.set(idx, t2);
                self.active = self.active - 1;
                AttemptDecision::Completed
            },
            Some(fault) => {
                if self.parallel_failures == 0 {
                    let t2 = ChunkTask {
                        state: ChunkState::Aborted(
                            fault_error(fault, t.range.start, t.range.stop, t.attempts),
                        ),
                        ..t
                    };
                    proof {
                        lemma_counts_update(self.tasks@, idx as int, t2);
                    }
                    self.tasks.set(idx, t2);
                    self.active = self.active - 1;
                    AttemptDecision::Failed
                } else if t.attempts - 1 >= self.max_retries {
                    let t2 = ChunkTask {
                        state: ChunkState::Aborted(
                            DownloadError::RetryExhausted {
                                start: t.range.start,
                                stop: t.range.stop,
                                attempts: t.attempts,
                            },
                        ),
                        ..t
                    };
                    proof {
                        lemma_counts_update(self.tasks@, idx as int, t2);
                    }
                    self.tasks.set(idx, t2);
                    self.active = self.active - 1;
                    AttemptDecision::Failed
                } else if self.failing < self.parallel_failures {
                    let t2 = ChunkTask { state: ChunkState::Backoff, ..t };
                    proof {
                        lemma_counts_update(self.tasks@, idx as int, t2);
                    }
                    self.tasks.set(idx, t2);
                    self.failing = self.failing + 1;
                    let wait = exponential_backoff(BASE_WAIT_TIME, t.attempts - 1, MAX_WAIT_TIME);
                    AttemptDecision::RetryScheduled { wait_ms: wait }
                } else {
                    let t2 = ChunkTask {
                        state: ChunkState::Aborted(
                            DownloadError::ConcurrencyLimitExceeded {
                                start: t.range.start,
                                stop: t.range.stop,
                            },
                        ),
                        ..t
                    };
                    proof {
                        lemma_counts_update(self.tasks@, idx as int, t2);
                    }
                    self.tasks.set(idx, t2);
                    self.active = self.active - 1;
                    AttemptDecision::Failed
                }
            },
        }
    }

    /// Start the retry that chunk `idx`'s backoff was waiting for.
    pub fn start_retry(&mut self, idx: usize)
        requires
            old(self).wf(),
            idx < old(self).tasks@.len(),
            old(self).tasks@[idx as int].state is Backoff,
        ensures
            final(self).wf(),
            final(self).max_files == old(self).max_files,
            final(self).parallel_failures == old(self).parallel_failures,
            final(self).max_retries == old(self).max_retries,
            final(self).tasks@ == old(self).tasks@.update(
                idx as int,
                spec_start_retry(old(self).tasks@[idx as int]),
            ),
            final(self).active == old(self).active,
            final(self).failing == old(self).failing,
    {
        let t = self.tasks[idx];
        let t2 = ChunkTask {
            range: t.range,
            attempts: t.attempts + 1,
            state: ChunkState::Attempting { retrying: true },
        };
        proof {
            lemma_counts_update(self.tasks@, idx as int, t2);
        }
        self.tasks.set(idx, t2);
    }

    /// Record that chunk `idx`'s execution context went away abnormally
    /// while it held its permits: the chunk aborts with `JoinError`.
    pub fn record_join_failure(&mut self, idx: usize)
        requires
            old(self).wf(),
            idx < old(self).tasks@.len(),
            old(self).tasks@[idx as int].holds_transfer_permit(),
        ensures
            final(self).wf(),
            final(self).max_files == old(self).max_files,
            final(self).parallel_failures == old(self).parallel_failures,
            final(self).max_retries == old(self).max_retries,
            ({
                let t = old(self).tasks@[idx as int];
                let t2 = ChunkTask { state: ChunkState::Aborted(DownloadError::JoinError), ..t };
                &&& final(self).tasks@ == old(self).tasks@.update(idx as int, t2)
                &&& final(self).active == old(self).active - 1
                &&& final(self).failing == old(self).failing - failure_weight(t)
            }),
    {
        let t = self.tasks[idx];
        let held_failure = match t.state {
            ChunkState::Attempting { retrying } => retrying,
            ChunkState::Backoff => true,
            _ => false,
        };
        let t2 = ChunkTask { state: ChunkState::Aborted(DownloadError::JoinError), ..t };
        proof {
            lemma_counts_member(self.tasks@, idx as int);
            lemma_counts_update(self.tasks@, idx as int, t2);
        }
        self.tasks.set(idx, t2);
        self.active = self.active - 1;
        if held_failure {
            self.failing = self.failing - 1;
        }
    }

    /// Whether every chunk has reached a terminal state.
    pub fn all_terminal(&self) -> (r: bool)
        ensures
            r == forall|i: int| 0 <= i < self.tasks@.len() ==> (#[trigger] self.tasks@[i]).is_terminal(),
    {
        let n = self.tasks.len();
        let mut i: usize = 0;
        while i < n
            invariant
                n == self.tasks@.len(),
                0 <= i <= n,
                forall|j: int| 0 <= j < i ==> (#[trigger] self.tasks@[j]).is_terminal(),
            decreases n - i,
        {
            let terminal = match self.tasks[i].state {
                ChunkState::Succeeded => true,
                ChunkState::Aborted(_) => true,
                _ => false,
            };
            if !terminal {
                return false;
            }
            i = i + 1;
        }
        true
    }
}

/// The first error among the tasks, in submission order; `None` when no
/// task aborted.
pub open spec fn spec_first_error(s: Seq<ChunkTask>) -> Option<DownloadError>
    decreases s.len(),
{
    if s.len() == 0 {
        Option::None
    } else if s[0].state is Aborted {
        Option::Some(s[0].state->0)
    } else {
        spec_first_error(s.drop_first())
    }
}

proof fn lemma_first_error_skip(s: Seq<ChunkTask>, i: int)
    requires
        0 <= i <= s.len(),
        forall|j: int| 0 <= j < i ==> !((#[trigger] s[j]).state is Aborted),
    ensures
        spec_first_error(s) == spec_first_error(s.subrange(i, s.len() as int)),
    decreases i,
{
    if i > 0 {
        lemma_first_error_skip(s, i - 1);
        let u = s.subrange(i - 1, s.len() as int);
        assert(u[0] == s[i - 1]);
        assert(u.drop_first() =~= s.subrange(i, s.len() as int));
    } else {
        assert(s.subrange(0, s.len() as int) =~= s);
    }
}

impl DownloadRun {
    /// Reduce the terminal states of all chunks to the run's single result:
    /// success when every chunk succeeded, otherwise the first failure in
    /// submission order.
    pub fn aggregate(&self) -> (r: Result<(), DownloadError>)
        requires
            forall|i: int| 0 <= i < self.tasks@.len() ==> (#[trigger] self.tasks@[i]).is_terminal(),
        ensures
            r is Ok <==> forall|i: int|
                0 <= i < self.tasks@.len() ==> (#[trigger] self.tasks@[i]).state is Succeeded,
            match spec_first_error(self.tasks@) {
                Option::Some(e) => r == Result::<(), DownloadError>::Err(e),
                Option::None => r is Ok,
            },
    {
        let n = self.tasks.len();
        let mut i: usize = 0;
        while i < n
            invariant
                n == self.tasks@.len(),
                0 <= i <= n,
                forall|j: int|
                    0 <= j < self.tasks@.len() ==> (#[trigger] self.tasks@[j]).is_terminal(),
                forall|j: int| 0 <= j < i ==> !((#[trigger] self.tasks@[j]).state is Aborted),
            decreases n - i,
        {
            match self.tasks[i].state {
                ChunkState::Aborted(e) => {
                    proof {
                        lemma_first_error_skip(self.tasks@, i as int);
                        let u = self.tasks@.subrange(i as int, self.tasks@.len() as int);
                        assert(u[0] == self.tasks@[i as int]);
                    }
                    return Err(e);
                },
                _ => {},
            }
            i = i + 1;
        }
        proof {
            lemma_first_error_skip(self.tasks@, n as int);
        }
        Ok(())
    }
}

/// Set up the run for a validated configuration from the probe's answer:
/// read the total length out of the content-range header, partition it into
/// chunks, and put every chunk's task in place. Fails exactly when the
/// header is absent or malformed, with the probe error that says which.
pub fn prepare_run(cfg: &DownloadConfig, content_range: Option<&Vec<u8>>) -> (r: Result<
    DownloadRun,
    DownloadError,
>)
    requires
        cfg.wf(),
        cfg.max_retries < usize::MAX,
    ensures
        match r {
            Ok(run) => {
                let length = digits_value(total_token(content_range->0@));
                &&& content_range is Some
                &&& wellformed_total(content_range->0@)
                &&& run.wf()
                &&& run.max_files == cfg.max_files
                &&& run.parallel_failures == cfg.parallel_failures
                &&& run.max_retries == cfg.max_retries
                &&& run.active == 0
                &&& run.failing == 0
                &&& forall|i: int|
                    0 <= i < run.tasks@.len() ==> (#[trigger] run.tasks@[i]).state is Pending
                        && run.tasks@[i].attempts == 0
                &&& planned(
                    run.tasks@.map_values(|t: ChunkTask| t.range),
                    length,
                    cfg.chunk_size as int,
                )
            },
            Err(e) => match content_range {
                Some(h) => !wellformed_total(h@) && e == DownloadError::ProbeError(
                    ProbeFault::MalformedContentRange,
                ),
                None => e == DownloadError::ProbeError(ProbeFault::MissingContentRange),
            },
        },
{
    let length = match probe_total(content_range) {
        Ok(l) => l,
        Err(e) => {
            return Err(e);
        },
    };
    let ranges = plan_chunks(length, cfg.chunk_size);
    let run = DownloadRun::new_run(
        cfg.max_files,
        cfg.parallel_failures,
        cfg.max_retries,
        &ranges,
    );
    proof {
        assert(run.tasks@.map_values(|t: ChunkTask| t.range) =~= ranges@);
    }
    Ok(run)
}

} // verus!
