//! One band per standard octave centre frequency.

use crate::config::AudioVisualizerConfig;
use crate::frequency_analyzer::utils::{band_count, compute_octave_bands, octave_bands};
use vstd::prelude::*;

verus! {

/// The full-octave strategy.
///
/// Band `i` belongs to the `i`-th centre frequency `c` of
/// [`generate_octave_centers`] and is positioned at `edges[i]`, the
/// bins of `c / 2^(1/2)` and `c * 2^(1/2)`. A band is the mean over the bins
/// of the spectrum that its position holds; the analysed bin range plays no
/// part.
#[derive(Clone, Copy, Debug, Default)]
pub struct FullOctaveAnalyzer;

impl FullOctaveAnalyzer {
    /// The bands of a spectrum: one per position, at most `num_bands`.
    pub open spec fn bands(
        spectrum: Seq<u32>,
        config: AudioVisualizerConfig,
        edges: Seq<(usize, usize)>,
    ) -> Seq<u32> {
        octave_bands(spectrum, edges, band_count(config.num_bands, edges.len()))
    }

    /// Reduces a spectrum to full-octave bands.
    pub fn compute_bands(
        &self,
        spectrum: &[u32],
        config: &AudioVisualizerConfig,
        edges: &[(usize, usize)],
        _min_bin: usize,
        _max_bin: usize,
    ) -> (bands: Vec<u32>)
        ensures
            bands@ == Self::bands(spectrum@, *config, edges@),
            bands@.len() <= config.num_bands,
    {
        compute_octave_bands(spectrum, edges, config.num_bands)
    }
}

} // verus!
