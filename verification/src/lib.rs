//! Chunked, bounded-concurrency HTTP downloader core with a versioned model
//! registry around it.
//!
//! The modules here hold the logic of the system: partitioning a byte range
//! into chunks, validating a download configuration, parsing the probe
//! response's content-range header, the per-chunk retry state machine with
//! exponential backoff, the permit pools that bound concurrency and
//! simultaneous failures, the model of the destination file, and the model
//! registry. Network and file I/O live outside the library and hand plain
//! values in and out.

pub mod backoff;
pub mod config;
pub mod errors;
pub mod manager;
pub mod planner;
pub mod progress;
pub mod probe;
pub mod request;
pub mod run;
pub mod worker;
pub mod writer;

pub use backoff::exponential_backoff;
