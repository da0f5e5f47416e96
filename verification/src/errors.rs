//! Structured error kinds for the downloader.
//!
//! Every error carries plain, typed fields (offsets, attempt counts, status
//! codes) rather than a formatted message.

use vstd::prelude::*;

verus! {

/// Why a configuration was rejected before any work started.
#[derive(Clone, Copy, PartialEq, Eq, Structural, Debug)]
pub enum ValidationFault {
    /// `parallel_failures` exceeds `max_files`.
    FailuresExceedConcurrency,
    /// Exactly one of `parallel_failures` and `max_retries` is zero; retry
    /// is all-or-nothing.
    RetryHalfConfigured,
    /// `chunk_size` is zero.
    ZeroChunkSize,
    /// `max_files` is zero.
    ZeroMaxFiles,
}

/// Why the length probe failed.
#[derive(Clone, Copy, PartialEq, Eq, Structural, Debug)]
pub enum ProbeFault {
    /// The response carried no content-range header.
    MissingContentRange,
    /// The total after the final `/` of the content-range header is not a
    /// parseable non-negative integer.
    MalformedContentRange,
}

/// A single attempt on one chunk can fail in one of these recoverable ways.
#[derive(Clone, Copy, PartialEq, Eq, Structural, Debug)]
pub enum ChunkFault {
    /// The request could not be sent or its response not received.
    Transport,
    /// The origin answered with a non-success HTTP status.
    Status(u16),
    /// Opening, seeking or writing the destination file failed.
    FileIo,
}

/// The single error value describing a whole download.
#[derive(Clone, Copy, PartialEq, Eq, Structural, Debug)]
pub enum DownloadError {
    /// The configuration broke an invariant; nothing was attempted.
    ValidationError(ValidationFault),
    /// The probe request could not establish the object's length.
    ProbeError(ProbeFault),
    /// A chunk's request failed in transit and could not be retried.
    TransportError { start: usize, stop: usize, attempts: usize },
    /// A chunk's request was answered with a non-success status and could
    /// not be retried.
    StatusError { start: usize, stop: usize, attempts: usize, code: u16 },
    /// A chunk's file write failed and could not be retried.
    FileIoError { start: usize, stop: usize, attempts: usize },
    /// A chunk failed more often than `max_retries` allows.
    RetryExhausted { start: usize, stop: usize, attempts: usize },
    /// Too many chunks were failing at once; the failure pool was exhausted.
    ConcurrencyLimitExceeded { start: usize, stop: usize },
    /// A worker's execution context terminated abnormally.
    JoinError,
}

/// The terminal error for a chunk whose latest attempt failed with `fault`
/// and which cannot retry.
pub open spec fn spec_fault_error(fault: ChunkFault, start: int, stop: int, attempts: int)
    -> DownloadError {
    match fault {
        ChunkFault::Transport => DownloadError::TransportError {
            start: start as usize,
            stop: stop as usize,
            attempts: attempts as usize,
        },
        ChunkFault::Status(code) => DownloadError::StatusError {
            start: start as usize,
            stop: stop as usize,
            attempts: attempts as usize,
            code,
        },
        ChunkFault::FileIo => DownloadError::FileIoError {
            start: start as usize,
            stop: stop as usize,
            attempts: attempts as usize,
        },
    }
}

/// Turn the fault of a chunk's final attempt into the download error that
/// reports it.
pub fn fault_error(fault: ChunkFault, start: usize, stop: usize, attempts: usize) -> (r:
    DownloadError)
    ensures
        r == spec_fault_error(fault, start as int, stop as int, attempts as int),
{
    match fault {
        ChunkFault::Transport => DownloadError::TransportError { start, stop, attempts },
        ChunkFault::Status(code) => DownloadError::StatusError { start, stop, attempts, code },
        ChunkFault::FileIo => DownloadError::FileIoError { start, stop, attempts },
    }
}

} // verus!
