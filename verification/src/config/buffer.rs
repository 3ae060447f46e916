//! Stream buffer configuration (producer-consumer architecture).

use vstd::prelude::*;

verus! {

/// Maximum buffer size (bytes) — hard cap to prevent unbounded memory growth
pub const MAX_BUFFER_SIZE: usize = 4 * 1024 * 1024;

/// Compact buffer when consumed data exceeds this threshold (bytes)
pub const COMPACTION_THRESHOLD: usize = 2 * 1024 * 1024;

/// Keep this many bytes before read cursor on compaction (safety margin for seeks)
pub const COMPACTION_SAFETY_MARGIN: usize = 64 * 1024;

/// Chunk size for producer reads from inner reader (bytes)
pub const PRODUCER_CHUNK_SIZE: usize = 8 * 1024;

/// Maximum time consumer blocks waiting for data (milliseconds)
pub const CONSUMER_WAIT_TIMEOUT_MS: u64 = 500;

/// High watermark for buffering hysteresis (bytes).
/// Once the buffer empties and enters buffering mode, the consumer blocks
/// until the buffer refills to this level before delivering data again.
/// 64KB provides ~2-4 seconds of buffer for typical radio streams (128-256 kbps).
pub const HIGH_WATERMARK_BYTES: usize = 64 * 1024;

/// Escalation step per underrun (bytes) — each buffer underrun increases the
/// effective watermark by this amount to prevent repeated buffering cycles.
pub const WATERMARK_STEP_BYTES: usize = 64 * 1024;

/// Maximum effective watermark (bytes) — caps escalation to prevent excessive
/// buffering delay. 512KB covers ~32s at 128kbps, enough for max ICY backoff.
pub const MAX_WATERMARK_BYTES: usize = 512 * 1024;

/// Time of continuous buffering before resetting watermark escalations (seconds).
/// After this duration, the outage is considered a network event (not jitter),
/// and the watermark returns to baseline for faster recovery on reconnection.
pub const ESCALATION_DECAY_SECS: u64 = 15;

} // verus!
