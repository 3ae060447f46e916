//! Audio analysis bookkeeping
//!
//! Which channel a sample belongs to, when a window is full, and which part of the spectrum a
//! display band shows.

use vstd::prelude::*;

use crate::config::audio::{FFT_SIZE, SPECTRUM_BANDS};

verus! {

/// Where a sample goes.
#[derive(Debug, Clone, Copy, PartialEq, Eq, Structural)]
pub struct SampleRoute {
    /// To the left window.
    pub left: bool,
    /// To the right window.
    pub right: bool,
    /// Both windows are full: they are analysed, with the sample count, and emptied.
    pub process: bool,
}

/// Counts samples and the fill of the two windows.
#[derive(Debug, Clone, Copy, PartialEq, Eq, Structural)]
pub struct SampleRouter {
    /// The number of channels of the source.
    pub channels: u16,
    /// How many samples the left window holds.
    pub left: usize,
    /// How many samples the right window holds.
    pub right: usize,
    /// How many samples went through.
    pub sample_count: u64,
}

/// After how many samples both windows are full.
pub open spec fn window_period(channels: u16) -> int {
    if channels == 1 {
        FFT_SIZE as int
    } else {
        2 * FFT_SIZE
    }
}

/// The fill of the windows follows from the sample count: with one channel a sample goes to both
/// windows, otherwise to the left and the right one in turn.
pub open spec fn windows_in_step(s: SampleRouter) -> bool {
    let k = s.sample_count as int % window_period(s.channels);
    if s.channels == 1 {
        s.left == k && s.right == k
    } else {
        s.left == (k + 1) / 2 && s.right == k / 2
    }
}

proof fn lemma_period(n: int, channels: u16)
    ensures
        n % window_period(channels) == if channels == 1 {
            n % 512
        } else {
            n % 1024
        },
{
    assert(window_period(channels) == if channels == 1 {
        512int
    } else {
        1024
    });
}

impl SampleRouter {
    /// A router with empty windows.
    pub fn new(channels: u16) -> (r: Self)
        ensures
            r == (SampleRouter { channels, left: 0, right: 0, sample_count: 0 }),
            windows_in_step(r),
    {
        proof {
            lemma_period(0, channels);
        }
        SampleRouter { channels, left: 0, right: 0, sample_count: 0 }
    }

    /// A sample went through.
    pub fn on_sample(&mut self) -> (r: SampleRoute)
        requires
            windows_in_step(*old(self)),
            old(self).sample_count < u64::MAX,
        ensures
            windows_in_step(*final(self)),
            final(self).channels == old(self).channels,
            final(self).sample_count == old(self).sample_count + 1,
            r.left == (old(self).channels == 1 || old(self).left == old(self).right),
            r.right == (old(self).channels == 1 || old(self).left != old(self).right),
            r.process == (final(self).sample_count as int % window_period(old(self).channels) == 0),
    {
        proof {
            lemma_period(self.sample_count as int, self.channels);
            lemma_period(self.sample_count + 1, self.channels);
        }
        self.sample_count = self.sample_count + 1;
        let mut route: SampleRoute = SampleRoute { left: false, right: false, process: false };
        if self.channels == 1 {
            self.left = self.left + 1;
            self.right = self.right + 1;
            route.left = true;
            route.right = true;
        } else if self.left == self.right {
            self.left = self.left + 1;
            route.left = true;
        } else {
            self.right = self.right + 1;
            route.right = true;
        }
        if self.left >= FFT_SIZE && self.right >= FFT_SIZE {
            route.process = true;
            self.left = 0;
            self.right = 0;
        }
        route
    }
}

/// Where display band `band` begins in the lower half of the spectrum: the bands widen with the
/// square of the frequency.
pub open spec fn band_start(band: int) -> int {
    band * band * (FFT_SIZE / 2) as int / (SPECTRUM_BANDS * SPECTRUM_BANDS) as int
}

/// The part of the lower half of the spectrum that a display band shows: from the first index up
/// to, and without, the second. It is never empty.
pub fn band_range(band: usize) -> (r: (usize, usize))
    requires
        band < SPECTRUM_BANDS,
    ensures
        r.0 == band_start(band as int),
        r.1 == band_start(band + 1),
        r.0 < r.1 <= FFT_SIZE / 2,
{
    proof {
        lemma_band_start(band as int);
        lemma_band_start(band + 1);
    }
    let nyquist: usize = FFT_SIZE / 2;
    let scale: usize = SPECTRUM_BANDS * SPECTRUM_BANDS;
    let low: usize = band * band;
    let high: usize = (band + 1) * (band + 1);
    assert(high == low + 2 * band + 1) by (nonlinear_arith)
        requires
            low == band * band,
            high == (band + 1) * (band + 1),
    ;
    (low * nyquist / scale, high * nyquist / scale)
}

proof fn lemma_band_start(band: int)
    requires
        0 <= band <= SPECTRUM_BANDS,
    ensures
        band_start(band) == band * band,
        0 <= band * band <= 256,
{
    assert(0 <= band * band <= 256) by (nonlinear_arith)
        requires
            0 <= band <= 16,
    ;
    assert((FFT_SIZE / 2) as int == 256);
    assert((SPECTRUM_BANDS * SPECTRUM_BANDS) as int == 256);
    let square = band * band;
    assert(square * 256 / 256 == square);
}

/// The bands follow each other without gap or overlap, and cover the lower half of the spectrum.
pub proof fn law_bands_cover_the_spectrum()
    ensures
        band_start(0) == 0,
        band_start(SPECTRUM_BANDS as int) == FFT_SIZE / 2,
        forall|band: int| 0 <= band < SPECTRUM_BANDS ==> band_start(band) < #[trigger] band_start(
            band + 1,
        ),
{
    lemma_band_start(0);
    lemma_band_start(SPECTRUM_BANDS as int);
    assert forall|band: int| 0 <= band < SPECTRUM_BANDS implies band_start(band)
        < #[trigger] band_start(band + 1) by {
        lemma_band_start(band);
        lemma_band_start(band + 1);
        assert((band + 1) * (band + 1) == band * band + 2 * band + 1) by (nonlinear_arith);
    }
}

/// The sample count that is published with an analysis grows by one window at a time: every
/// window's worth of samples is analysed once, and none earlier.
pub proof fn law_analysis_period(s: SampleRouter)
    requires
        windows_in_step(s),
    ensures
        s.left < FFT_SIZE || s.right < FFT_SIZE,
        s.left <= FFT_SIZE,
        s.right <= s.left <= s.right + 1,
        s.sample_count as int % window_period(s.channels) == 0 <==> s.left == 0 && s.right == 0,
{
    lemma_period(s.sample_count as int, s.channels);
}

/// The windows hold 512 samples each. With one channel every sample goes to both, which are full
/// after 512; otherwise the samples go to the left and the right one in turn, beginning with the
/// left, and both are full after 1024.
pub proof fn law_samples_take_turns(s: SampleRouter)
    requires
        windows_in_step(s),
    ensures
        s.channels == 1 ==> s.left == s.right && s.left == s.sample_count % 512,
        s.channels != 1 ==> (s.left == s.right <==> s.sample_count % 2 == 0) && s.left + s.right
            == s.sample_count % 1024,
        window_period(s.channels) == if s.channels == 1 {
            512int
        } else {
            1024
        },
{
    lemma_period(s.sample_count as int, s.channels);
}

/// A band begins at the square of its number, so that each is wider than the one before by two.
pub proof fn law_bands_widen_evenly(band: int)
    requires
        0 <= band,
        band + 2 <= SPECTRUM_BANDS,
    ensures
        band_start(band) == band * band,
        band_start(band + 2) - band_start(band + 1) == band_start(band + 1) - band_start(band) + 2,
{
    lemma_band_start(band);
    lemma_band_start(band + 1);
    lemma_band_start(band + 2);
    assert((band + 2) * (band + 2) - (band + 1) * (band + 1) == (band + 1) * (band + 1) - band
        * band + 2) by (nonlinear_arith);
}

} // verus!
