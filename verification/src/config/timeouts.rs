//! Timeout configuration for resilience.

use vstd::prelude::*;

verus! {

/// Maximum time to wait for format probe in seconds
pub const PROBE_TIMEOUT_SECS: u64 = 10;

/// Maximum time in buffering state before giving up in seconds
pub const BUFFERING_TIMEOUT_SECS: u64 = 15;

/// Time without receiving audio data before considering stream dead
pub const STREAM_STALL_TIMEOUT_SECS: u64 = 5;

/// Base delay between retries in seconds (exponential backoff: 2^n * base)
pub const RETRY_BASE_DELAY_SECS: u64 = 2;

/// Maximum backoff delay in seconds (cap for exponential backoff)
pub const MAX_BACKOFF_SECS: u64 = 10;

/// Connect timeout for reconnection attempts (seconds).
/// Shorter than the initial connect timeout to speed up recovery.
pub const CONNECT_TIMEOUT_SECS: u64 = 5;

/// Buffering duration before the engine signals a stall to the UI (seconds).
/// Short enough to give timely feedback, long enough to avoid false alarms
/// from normal buffering events (HLS gaps, brief hiccups).
pub const BUFFERING_STALL_THRESHOLD_SECS: u64 = 10;

} // verus!
