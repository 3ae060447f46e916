//! Network-related configuration.

use vstd::prelude::*;

verus! {

/// Connection timeout in seconds
pub const CONNECT_TIMEOUT_SECS: u64 = 10;

/// Read timeout in seconds
pub const READ_TIMEOUT_SECS: u64 = 30;

/// Maximum playlist resolution depth
pub const MAX_PLAYLIST_DEPTH: usize = 5;

} // verus!
