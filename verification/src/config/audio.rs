//! Audio-related configuration.

use vstd::prelude::*;

verus! {

/// FFT window size for visualization
pub const FFT_SIZE: usize = 512;

/// Number of frequency bands in spectrum display
pub const SPECTRUM_BANDS: usize = 16;

} // verus!
