//! HLS-related configuration.

use vstd::prelude::*;

verus! {

/// Number of segments to buffer
pub const SEGMENT_BUFFER_SIZE: usize = 3;

/// Segment download timeout in seconds
pub const SEGMENT_TIMEOUT_SECS: u64 = 15;

} // verus!
