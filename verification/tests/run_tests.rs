use modeldl::config::DownloadConfig;
use modeldl::errors::{ChunkFault, DownloadError, ProbeFault};
use modeldl::planner::plan_chunks;
use modeldl::run::prepare_run;
use modeldl::worker::ChunkState as St;
use modeldl::progress::ProgressTally;
use modeldl::run::{AttemptDecision, DownloadRun};
use modeldl::worker::ChunkState;
use modeldl::writer::{write_range, zero_buffer};

fn retry_wait(d: AttemptDecision) -> usize {
    match d {
        AttemptDecision::RetryScheduled { wait_ms } => wait_ms,
        other => panic!("expected a scheduled retry, got {:?}", other),
    }
}

#[test]
fn no_retry_single_failure_is_terminal() {
    let ranges = plan_chunks(100, 100);
    let mut run = DownloadRun::new_run(1, 0, 0, &ranges);
    assert_eq!(run.try_start(), Some(0));
    let d = run.finish_attempt(0, Some(ChunkFault::Transport));
    assert_eq!(d, AttemptDecision::Failed);
    assert_eq!(run.tasks[0].attempts, 1);
    assert!(run.all_terminal());
    assert_eq!(
        run.aggregate(),
        Err(DownloadError::TransportError { start: 0, stop: 99, attempts: 1 })
    );
}

#[test]
fn failures_then_success_counts_attempts() {
    let ranges = plan_chunks(10, 10);
    let mut run = DownloadRun::new_run(1, 1, 3, &ranges);
    assert_eq!(run.try_start(), Some(0));

    let w0 = retry_wait(run.finish_attempt(0, Some(ChunkFault::Transport)));
    assert!((300..=800).contains(&w0));
    run.start_retry(0);

    let w1 = retry_wait(run.finish_attempt(0, Some(ChunkFault::Status(500))));
    assert!((301..=801).contains(&w1));
    run.start_retry(0);

    let d = run.finish_attempt(0, None);
    assert_eq!(d, AttemptDecision::Completed);
    assert_eq!(run.tasks[0].attempts, 3);
    assert_eq!(run.tasks[0].state, ChunkState::Succeeded);
    assert!(run.all_terminal());
    assert_eq!(run.aggregate(), Ok(()));
}

#[test]
fn transfer_gate_blocks_at_capacity() {
    let ranges = plan_chunks(20, 10);
    let mut run = DownloadRun::new_run(1, 0, 0, &ranges);
    assert_eq!(run.try_start(), Some(0));
    assert_eq!(run.try_start(), None);
    assert_eq!(run.active, 1);
    assert_eq!(run.finish_attempt(0, None), AttemptDecision::Completed);
    assert_eq!(run.try_start(), Some(1));
    assert_eq!(run.active, 1);
    assert_eq!(run.finish_attempt(1, None), AttemptDecision::Completed);
    assert_eq!(run.aggregate(), Ok(()));
}

#[test]
fn failure_gate_rejects_second_failing_chunk() {
    let ranges = plan_chunks(20, 10);
    let mut run = DownloadRun::new_run(2, 1, 5, &ranges);
    assert_eq!(run.try_start(), Some(0));
    assert_eq!(run.try_start(), Some(1));

    let _w = retry_wait(run.finish_attempt(0, Some(ChunkFault::Transport)));
    assert_eq!(run.failing, 1);

    let d = run.finish_attempt(1, Some(ChunkFault::Transport));
    assert_eq!(d, AttemptDecision::Failed);
    assert_eq!(
        run.tasks[1].state,
        ChunkState::Aborted(DownloadError::ConcurrencyLimitExceeded { start: 10, stop: 19 })
    );

    run.start_retry(0);
    assert_eq!(run.finish_attempt(0, None), AttemptDecision::Completed);
    assert!(run.all_terminal());
    assert_eq!(
        run.aggregate(),
        Err(DownloadError::ConcurrencyLimitExceeded { start: 10, stop: 19 })
    );
}

#[test]
fn failure_permit_returns_after_retry() {
    let ranges = plan_chunks(10, 10);
    let mut run = DownloadRun::new_run(1, 1, 5, &ranges);
    assert_eq!(run.try_start(), Some(0));
    let _ = retry_wait(run.finish_attempt(0, Some(ChunkFault::Transport)));
    assert_eq!(run.failing, 1);
    run.start_retry(0);
    let _ = retry_wait(run.finish_attempt(0, Some(ChunkFault::Transport)));
    assert_eq!(run.failing, 1);
    run.start_retry(0);
    assert_eq!(run.finish_attempt(0, None), AttemptDecision::Completed);
    assert_eq!(run.failing, 0);
}

#[test]
fn join_failure_is_fatal() {
    let ranges = plan_chunks(10, 10);
    let mut run = DownloadRun::new_run(1, 0, 0, &ranges);
    assert_eq!(run.try_start(), Some(0));
    run.record_join_failure(0);
    assert!(run.all_terminal());
    assert_eq!(run.aggregate(), Err(DownloadError::JoinError));
}

#[test]
fn exhausted_chunk_fails_run_but_other_bytes_land() {
    let source: Vec<u8> = (0u8..20).collect();
    let ranges = plan_chunks(20, 8);
    assert_eq!(ranges.len(), 3);

    let mut run = DownloadRun::new_run(2, 1, 2, &ranges);
    assert_eq!(run.try_start(), Some(0));
    assert_eq!(run.try_start(), Some(1));
    assert_eq!(run.finish_attempt(0, None), AttemptDecision::Completed);
    assert_eq!(run.try_start(), Some(2));

    let _ = retry_wait(run.finish_attempt(1, Some(ChunkFault::Status(503))));
    assert_eq!(run.finish_attempt(2, None), AttemptDecision::Completed);
    run.start_retry(1);
    let _ = retry_wait(run.finish_attempt(1, Some(ChunkFault::Status(503))));
    run.start_retry(1);
    let d = run.finish_attempt(1, Some(ChunkFault::Status(503)));
    assert_eq!(d, AttemptDecision::Failed);

    assert!(run.all_terminal());
    assert_eq!(
        run.aggregate(),
        Err(DownloadError::RetryExhausted { start: 8, stop: 15, attempts: 3 })
    );

    // The successful chunks' bytes are present at their offsets even though
    // the run as a whole failed.
    let mut dest = zero_buffer(20);
    for idx in [0usize, 2] {
        let r = ranges[idx];
        let bytes: Vec<u8> = source[r.start..=r.stop].to_vec();
        write_range(&mut dest, r.start, &bytes);
    }
    assert_eq!(&dest[0..8], &source[0..8]);
    assert_eq!(&dest[16..20], &source[16..20]);
    assert!(dest[8..16].iter().all(|&b| b == 0));
}

#[test]
fn round_trip_rebuilds_source_for_any_chunk_size() {
    let source: Vec<u8> = (0..251u32).map(|x| (x * 7 % 256) as u8).collect();
    for &chunk in &[1usize, 3, 7, 40, 100, 251, 1000] {
        let ranges = plan_chunks(source.len(), chunk);
        let mut dest = zero_buffer(source.len());
        for r in &ranges {
            let bytes: Vec<u8> = source[r.start..=r.stop].to_vec();
            write_range(&mut dest, r.start, &bytes);
        }
        assert_eq!(dest, source);
    }
}

#[test]
fn write_range_touches_only_its_window() {
    let mut dest = zero_buffer(10);
    let bytes = vec![9u8, 8, 7];
    write_range(&mut dest, 4, &bytes);
    assert_eq!(dest, vec![0, 0, 0, 0, 9, 8, 7, 0, 0, 0]);
}

fn valid_config(chunk_size: usize, max_files: usize) -> DownloadConfig {
    DownloadConfig {
        url: String::from("http://origin/object"),
        destination: String::from("object.bin"),
        chunk_size,
        max_files,
        parallel_failures: 1,
        max_retries: 2,
        headers: Vec::new(),
    }
}

#[test]
fn prepare_run_plans_from_probe_answer() {
    let cfg = valid_config(8, 2);
    let header = b"bytes 0-0/20".to_vec();
    let run = prepare_run(&cfg, Some(&header)).unwrap();
    assert_eq!(run.tasks.len(), 3);
    assert_eq!(run.active, 0);
    assert_eq!(run.failing, 0);
    for (i, t) in run.tasks.iter().enumerate() {
        assert_eq!(t.state, St::Pending);
        assert_eq!(t.attempts, 0);
        assert_eq!(t.range.start, i * 8);
    }
    assert_eq!(run.tasks[2].range.stop, 19);
}

#[test]
fn prepare_run_surfaces_probe_errors() {
    let cfg = valid_config(8, 2);
    match prepare_run(&cfg, None) {
        Err(e) => assert_eq!(e, DownloadError::ProbeError(ProbeFault::MissingContentRange)),
        Ok(_) => panic!("probe without a header must fail"),
    }
    let bad = b"bytes 0-0/x".to_vec();
    match prepare_run(&cfg, Some(&bad)) {
        Err(e) => assert_eq!(e, DownloadError::ProbeError(ProbeFault::MalformedContentRange)),
        Ok(_) => panic!("malformed total must fail"),
    }
}

#[test]
fn progress_tally_clips_at_total() {
    let mut p = ProgressTally::new(100);
    p.record(60);
    assert_eq!(p.received, 60);
    p.record(60);
    assert_eq!(p.received, 100);
    p.record(1);
    assert_eq!(p.received, 100);
}
