use modeldl::backoff::{backoff_wait_with_jitter, exponential_backoff};
use modeldl::config::DownloadConfig;
use modeldl::errors::{DownloadError, ProbeFault, ValidationFault};
use modeldl::planner::plan_chunks;
use modeldl::probe::probe_total;
use modeldl::request::{probe_header_bytes, range_header_bytes};

fn config(
    chunk_size: usize,
    max_files: usize,
    parallel_failures: usize,
    max_retries: usize,
) -> DownloadConfig {
    DownloadConfig {
        url: String::from("http://origin/object"),
        destination: String::from("object.bin"),
        chunk_size,
        max_files,
        parallel_failures,
        max_retries,
        headers: Vec::new(),
    }
}

#[test]
fn planner_divides_exactly() {
    let ranges = plan_chunks(1000, 400);
    assert_eq!(ranges.len(), 3);
    assert_eq!((ranges[0].start, ranges[0].stop), (0, 399));
    assert_eq!((ranges[1].start, ranges[1].stop), (400, 799));
    assert_eq!((ranges[2].start, ranges[2].stop), (800, 999));
}

#[test]
fn planner_empty_object() {
    let ranges = plan_chunks(0, 64);
    assert!(ranges.is_empty());
}

#[test]
fn planner_single_byte() {
    let ranges = plan_chunks(1, 64);
    assert_eq!(ranges.len(), 1);
    assert_eq!((ranges[0].start, ranges[0].stop), (0, 0));
}

#[test]
fn planner_chunk_larger_than_object() {
    let ranges = plan_chunks(10, 1000);
    assert_eq!(ranges.len(), 1);
    assert_eq!((ranges[0].start, ranges[0].stop), (0, 9));
}

#[test]
fn planner_exact_multiple() {
    let ranges = plan_chunks(100, 25);
    assert_eq!(ranges.len(), 4);
    assert_eq!((ranges[3].start, ranges[3].stop), (75, 99));
}

#[test]
fn planner_covers_every_byte_once() {
    for &(length, chunk) in &[(17usize, 5usize), (64, 64), (65, 64), (3, 1)] {
        let ranges = plan_chunks(length, chunk);
        let mut covered = vec![0u32; length];
        for r in &ranges {
            for j in r.start..=r.stop {
                covered[j] += 1;
            }
        }
        assert!(covered.iter().all(|&c| c == 1));
    }
}

#[test]
fn validation_failures_above_concurrency() {
    let r = config(64, 2, 3, 1).validate();
    assert_eq!(
        r,
        Err(DownloadError::ValidationError(ValidationFault::FailuresExceedConcurrency))
    );
}

#[test]
fn validation_retry_by_halves() {
    let r = config(64, 8, 2, 0).validate();
    assert_eq!(
        r,
        Err(DownloadError::ValidationError(ValidationFault::RetryHalfConfigured))
    );
    let r = config(64, 8, 0, 2).validate();
    assert_eq!(
        r,
        Err(DownloadError::ValidationError(ValidationFault::RetryHalfConfigured))
    );
}

#[test]
fn validation_both_zero_disables_retry() {
    assert_eq!(config(64, 8, 0, 0).validate(), Ok(()));
}

#[test]
fn validation_retry_enabled() {
    assert_eq!(config(64, 8, 4, 3).validate(), Ok(()));
}

#[test]
fn validation_zero_chunk_size() {
    let r = config(0, 8, 0, 0).validate();
    assert_eq!(
        r,
        Err(DownloadError::ValidationError(ValidationFault::ZeroChunkSize))
    );
}

#[test]
fn backoff_formula_exact() {
    assert_eq!(backoff_wait_with_jitter(300, 0, 0, 10_000), 300);
    assert_eq!(backoff_wait_with_jitter(300, 2, 0, 10_000), 304);
    assert_eq!(backoff_wait_with_jitter(300, 7, 123, 10_000), 472);
    assert_eq!(backoff_wait_with_jitter(300, 200, 0, 10_000), 10_000);
}

#[test]
fn backoff_monotone_with_zero_jitter() {
    let mut prev = 0;
    for n in 0..120 {
        let w = backoff_wait_with_jitter(300, n, 0, 10_000);
        assert!((300..=10_000).contains(&w));
        assert!(w >= prev);
        prev = w;
    }
}

#[test]
fn backoff_random_draw_stays_in_window() {
    for n in 0..20 {
        let w = exponential_backoff(300, n, 10_000);
        let low = (300 + n * n).min(10_000);
        let high = (300 + n * n + 500).min(10_000);
        assert!(w >= low && w <= high);
    }
}

#[test]
fn probe_missing_header() {
    assert_eq!(
        probe_total(None),
        Err(DownloadError::ProbeError(ProbeFault::MissingContentRange))
    );
}

#[test]
fn probe_reads_total_after_final_slash() {
    let h = b"bytes 0-0/702517648".to_vec();
    assert_eq!(probe_total(Some(&h)), Ok(702517648));
}

#[test]
fn probe_malformed_totals() {
    for bad in [
        &b""[..],
        &b"bytes 0-0/"[..],
        &b"bytes 0-0/12x3"[..],
        &b"bytes 0-0/-5"[..],
        &b"bytes 0-0/99999999999999999999999999"[..],
    ] {
        let h = bad.to_vec();
        assert_eq!(
            probe_total(Some(&h)),
            Err(DownloadError::ProbeError(ProbeFault::MalformedContentRange))
        );
    }
}

#[test]
fn probe_bare_number_counts_as_total() {
    let h = b"12345".to_vec();
    assert_eq!(probe_total(Some(&h)), Ok(12345));
}

#[test]
fn probe_zero_total() {
    let h = b"bytes 0-0/0".to_vec();
    assert_eq!(probe_total(Some(&h)), Ok(0));
}

#[test]
fn range_header_renders_bounds() {
    assert_eq!(range_header_bytes(400, 799), b"bytes=400-799".to_vec());
    assert_eq!(range_header_bytes(0, 1048575), b"bytes=0-1048575".to_vec());
}

#[test]
fn probe_header_asks_for_first_byte() {
    assert_eq!(probe_header_bytes(), b"bytes=0-0".to_vec());
}

#[test]
fn range_header_round_trips_through_probe_parser() {
    let h = range_header_bytes(0, 702517647);
    let mut with_total = b"bytes 0-0/".to_vec();
    with_total.extend_from_slice(&h[h.iter().position(|&b| b == b'-').unwrap() + 1..]);
    assert_eq!(probe_total(Some(&with_total)), Ok(702517647));
}
