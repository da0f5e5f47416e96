//! Download configuration and its pre-flight validation.

use vstd::prelude::*;

use crate::errors::{DownloadError, ValidationFault};

verus! {

/// Immutable configuration of one chunked download.
///
/// `max_files` caps how many chunk transfers run at once;
/// `parallel_failures` caps how many chunks may be in a failed, retrying
/// state at once; `max_retries` caps the retries of each single chunk.
pub struct DownloadConfig {
    pub url: String,
    pub destination: String,
    pub chunk_size: usize,
    pub max_files: usize,
    pub parallel_failures: usize,
    pub max_retries: usize,
    pub headers: Vec<(String, String)>,
}

/// The configuration invariants: positive chunk size and concurrency cap,
/// no more simultaneous failures than concurrent transfers, and retry
/// all-or-nothing (`parallel_failures == 0` exactly when `max_retries == 0`).
pub open spec fn valid_settings(
    chunk_size: int,
    max_files: int,
    parallel_failures: int,
    max_retries: int,
) -> bool {
    &&& chunk_size >= 1
    &&& max_files >= 1
    &&& parallel_failures <= max_files
    &&& (parallel_failures == 0 <==> max_retries == 0)
}

impl DownloadConfig {
    /// The invariants of this configuration, over its numeric settings.
    pub open spec fn wf(&self) -> bool {
        valid_settings(
            self.chunk_size as int,
            self.max_files as int,
            self.parallel_failures as int,
            self.max_retries as int,
        )
    }

    /// Whether retrying failed chunks is enabled at all.
    pub open spec fn spec_retry_enabled(&self) -> bool {
        self.parallel_failures > 0
    }

    /// Check the configuration invariants, before any network activity.
    /// Returns `Ok` exactly when they all hold, and otherwise the first
    /// violated one, checked in this order: failure cap above the
    /// concurrency cap, retry configured by halves, zero chunk size, zero
    /// concurrency cap.
    pub fn validate(&self) -> (r: Result<(), DownloadError>)
        ensures
            r is Ok <==> self.wf(),
            self.parallel_failures > self.max_files ==> r == Result::<(), DownloadError>::Err(
                DownloadError::ValidationError(ValidationFault::FailuresExceedConcurrency),
            ),
            self.parallel_failures <= self.max_files && ((self.parallel_failures == 0) != (
            self.max_retries == 0)) ==> r == Result::<(), DownloadError>::Err(
                DownloadError::ValidationError(ValidationFault::RetryHalfConfigured),
            ),
            self.parallel_failures <= self.max_files && ((self.parallel_failures == 0) <==> (
            self.max_retries == 0)) && self.chunk_size == 0 ==> r == Result::<
                (),
                DownloadError,
            >::Err(DownloadError::ValidationError(ValidationFault::ZeroChunkSize)),
            self.parallel_failures <= self.max_files && ((self.parallel_failures == 0) <==> (
            self.max_retries == 0)) && self.chunk_size > 0 && self.max_files == 0 ==> r == Result::<
                (),
                DownloadError,
            >::Err(DownloadError::ValidationError(ValidationFault::ZeroMaxFiles)),
    {
        if self.parallel_failures > self.max_files {
            Err(DownloadError::ValidationError(ValidationFault::FailuresExceedConcurrency))
        } else if (self.parallel_failures == 0) != (self.max_retries == 0) {
            Err(DownloadError::ValidationError(ValidationFault::RetryHalfConfigured))
        } else if self.chunk_size == 0 {
            Err(DownloadError::ValidationError(ValidationFault::ZeroChunkSize))
        } else if self.max_files == 0 {
            Err(DownloadError::ValidationError(ValidationFault::ZeroMaxFiles))
        } else {
            Ok(())
        }
    }
}

} // verus!
