//! Bands centred on equally spaced points of the mel scale.

use crate::config::AudioVisualizerConfig;
use crate::frequency_analyzer::utils::{band_count, band_value, measure_band, zero_fill, zero_filled};
use vstd::prelude::*;

verus! {

/// Number of bins a mel band reaches to either side of its position.
pub const MEL_HALF_WIDTH: usize = 3;

/// The mel strategy.
///
/// With `mel(f) = 2595 log10(1 + f / 700)`, band `i` of `n` is centred on the
/// frequency whose mel value lies the fraction `i / (n - 1)` of the way from
/// that of `min_freq` to that of `max_freq`; both components of `edges[i]`
/// hold the bin of that frequency. The band reaches [`MEL_HALF_WIDTH`] bins
/// to either side of its position, except that the first band starts at
/// `min_bin` and the last band ends at `max_bin`.
#[derive(Clone, Copy, Debug, Default)]
pub struct MelAnalyzer;

impl MelAnalyzer {
    /// First bin of band `i`.
    pub open spec fn band_start(i: int, edges: Seq<(usize, usize)>, min_bin: usize) -> int {
        if i == 0 {
            min_bin as int
        } else if edges[i].0 >= MEL_HALF_WIDTH {
            edges[i].0 - MEL_HALF_WIDTH
        } else {
            0
        }
    }

    /// End bin (exclusive) of band `i` out of `count`.
    pub open spec fn band_end(i: int, count: nat, edges: Seq<(usize, usize)>, max_bin: usize) -> int {
        if i == count - 1 {
            max_bin as int
        } else if edges[i].1 + MEL_HALF_WIDTH <= max_bin {
            edges[i].1 + MEL_HALF_WIDTH
        } else {
            max_bin as int
        }
    }

    /// One measurement per band, each over the band's own run of bins.
    pub open spec fn measurements(
        spectrum: Seq<u32>,
        config: AudioVisualizerConfig,
        edges: Seq<(usize, usize)>,
        min_bin: usize,
        max_bin: usize,
    ) -> Seq<Option<u32>> {
        let count = band_count(config.num_bands, edges.len());
        Seq::new(
            count,
            |i: int|
                band_value(
                    spectrum,
                    Self::band_start(i, edges, min_bin),
                    Self::band_end(i, count, edges, max_bin),
                ),
        )
    }

    /// The bands of a spectrum: every band, with zero for the unmeasured ones.
    pub open spec fn bands(
        spectrum: Seq<u32>,
        config: AudioVisualizerConfig,
        edges: Seq<(usize, usize)>,
        min_bin: usize,
        max_bin: usize,
    ) -> Seq<u32> {
        zero_fill(Self::measurements(spectrum, config, edges, min_bin, max_bin))
    }

    /// Reduces a spectrum to bands on the mel scale.
    pub fn compute_bands(
        &self,
        spectrum: &[u32],
        config: &AudioVisualizerConfig,
        edges: &[(usize, usize)],
        min_bin: usize,
        max_bin: usize,
    ) -> (bands: Vec<u32>)
        requires
            max_bin <= spectrum@.len(),
        ensures
            bands@ == Self::bands(spectrum@, *config, edges@, min_bin, max_bin),
            bands@.len() == band_count(config.num_bands, edges@.len()),
    {
        let count = if config.num_bands <= edges.len() {
            config.num_bands
        } else {
            edges.len()
        };
        let mut m: Vec<Option<u32>> = Vec::new();
        let mut i: usize = 0;
        while i < count
            invariant
                i <= count <= edges@.len(),
                count == band_count(config.num_bands, edges@.len()),
                max_bin <= spectrum@.len(),
                m@.len() == i,
                forall|k: int|
                    0 <= k < i ==> m@[k] == band_value(
                        spectrum@,
                        Self::band_start(k, edges@, min_bin),
                        Self::band_end(k, count as nat, edges@, max_bin),
                    ),
            decreases count - i,
        {
            let edge = edges[i];
            let start = if i == 0 {
                min_bin
            } else if edge.0 >= MEL_HALF_WIDTH {
                edge.0 - MEL_HALF_WIDTH
            } else {
                0
            };
            let end = if i == count - 1 {
                max_bin
            } else if edge.1 <= max_bin && max_bin - edge.1 >= MEL_HALF_WIDTH {
                edge.1 + MEL_HALF_WIDTH
            } else {
                max_bin
            };
            m.push(measure_band(spectrum, start, end));
            i = i + 1;
        }
        proof {
            assert(m@ =~= Self::measurements(spectrum@, *config, edges@, min_bin, max_bin));
        }
        zero_filled(&m)
    }
}

} // verus!
