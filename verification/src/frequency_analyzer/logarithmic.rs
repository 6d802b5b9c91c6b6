//! Bands on a logarithmic frequency scale, with optional interpolation of
//! the bands that are too narrow to hold a bin.

use crate::config::AudioVisualizerConfig;
use crate::frequency_analyzer::utils::{
    band_count, clamped_measurements, compact, count_measured, interpolate, interpolated,
    lemma_compact_len, lemma_interpolated_between_neighbours, lemma_next_measured,
    lemma_prev_measured, measure_clamped, measured_only, next_measured, prev_measured, zero_fill,
    zero_filled,
};
use vstd::prelude::*;

verus! {

/// The logarithmic strategy.
///
/// Band `i` is positioned at `edges[i]`, the bins of the frequencies
/// `min_freq * (max_freq / min_freq)^(i / n)` and
/// `min_freq * (max_freq / min_freq)^((i + 1) / n)`.
#[derive(Clone, Copy, Debug, Default)]
pub struct LogarithmicAnalyzer;

impl LogarithmicAnalyzer {
    /// The measurements the output is built from: one per band, each taken
    /// over the band's position confined to `min_bin..max_bin`.
    pub open spec fn measurements(
        spectrum: Seq<u32>,
        config: AudioVisualizerConfig,
        edges: Seq<(usize, usize)>,
        min_bin: usize,
        max_bin: usize,
    ) -> Seq<Option<u32>> {
        measure_clamped(
            spectrum,
            edges,
            band_count(config.num_bands, edges.len()),
            min_bin,
            max_bin,
        )
    }

    /// The bands of a spectrum: with interpolation on, every band, the
    /// unmeasured ones filled in from their neighbours; otherwise the
    /// measured bands alone when unmeasured bands are skipped, and every band
    /// with zero for the unmeasured ones when they are not.
    pub open spec fn bands(
        spectrum: Seq<u32>,
        config: AudioVisualizerConfig,
        edges: Seq<(usize, usize)>,
        min_bin: usize,
        max_bin: usize,
    ) -> Seq<u32> {
        let m = Self::measurements(spectrum, config, edges, min_bin, max_bin);
        if config.interpolate_bands {
            interpolate(m)
        } else if config.skip_non_processed {
            compact(m)
        } else {
            zero_fill(m)
        }
    }

    /// Reduces a spectrum to bands on the logarithmic scale.
    pub fn compute_bands(
        &self,
        spectrum: &[u32],
        config: &AudioVisualizerConfig,
        edges: &[(usize, usize)],
        min_bin: usize,
        max_bin: usize,
    ) -> (bands: Vec<u32>)
        requires
            max_bin <= spectrum@.len(),
        ensures
            bands@ == Self::bands(spectrum@, *config, edges@, min_bin, max_bin),
            bands@.len() <= config.num_bands,
    {
        let m = clamped_measurements(spectrum, edges, config.num_bands, min_bin, max_bin);
        proof {
            lemma_compact_len(m@);
        }
        if config.interpolate_bands {
            interpolated(&m)
        } else if config.skip_non_processed {
            measured_only(&m)
        } else {
            zero_filled(&m)
        }
    }
}

/// With interpolation on, a band that cannot be measured but has a measured
/// band on both sides is given a value between the values of the nearest
/// such bands, inclusive.
pub proof fn lemma_logarithmic_interpolation_between(
    spectrum: Seq<u32>,
    config: AudioVisualizerConfig,
    edges: Seq<(usize, usize)>,
    min_bin: usize,
    max_bin: usize,
    i: int,
)
    requires
        config.interpolate_bands,
        0 <= i < band_count(config.num_bands, edges.len()),
        LogarithmicAnalyzer::measurements(spectrum, config, edges, min_bin, max_bin)[i] is None,
        prev_measured(
            LogarithmicAnalyzer::measurements(spectrum, config, edges, min_bin, max_bin),
            i,
        ) >= 0,
        next_measured(
            LogarithmicAnalyzer::measurements(spectrum, config, edges, min_bin, max_bin),
            i,
        ) < band_count(config.num_bands, edges.len()),
    ensures
        ({
            let m = LogarithmicAnalyzer::measurements(spectrum, config, edges, min_bin, max_bin);
            let bands = LogarithmicAnalyzer::bands(spectrum, config, edges, min_bin, max_bin);
            let p = prev_measured(m, i);
            let q = next_measured(m, i);
            &&& 0 <= p < i < q < bands.len()
            &&& bands[p] == m[p].unwrap()
            &&& bands[q] == m[q].unwrap()
            &&& bands[p] <= bands[q] ==> bands[p] <= bands[i] <= bands[q]
            &&& bands[q] <= bands[p] ==> bands[q] <= bands[i] <= bands[p]
        }),
{
    let m = LogarithmicAnalyzer::measurements(spectrum, config, edges, min_bin, max_bin);
    lemma_prev_measured(m, i);
    lemma_next_measured(m, i);
    lemma_interpolated_between_neighbours(m, i);
}

/// With interpolation off and skipping on, the output holds one band per
/// measured band: it is strictly shorter than `num_bands` as soon as one
/// band cannot be measured.
pub proof fn lemma_logarithmic_skip_shortens(
    spectrum: Seq<u32>,
    config: AudioVisualizerConfig,
    edges: Seq<(usize, usize)>,
    min_bin: usize,
    max_bin: usize,
    i: int,
)
    requires
        !config.interpolate_bands,
        config.skip_non_processed,
        0 <= i < band_count(config.num_bands, edges.len()),
        LogarithmicAnalyzer::measurements(spectrum, config, edges, min_bin, max_bin)[i] is None,
    ensures
        LogarithmicAnalyzer::bands(spectrum, config, edges, min_bin, max_bin).len()
            < config.num_bands,
        LogarithmicAnalyzer::bands(spectrum, config, edges, min_bin, max_bin).len()
            == count_measured(
            LogarithmicAnalyzer::measurements(spectrum, config, edges, min_bin, max_bin),
        ),
{
    let m = LogarithmicAnalyzer::measurements(spectrum, config, edges, min_bin, max_bin);
    assert(0 <= i < m.len() && m[i] is None);
    lemma_compact_len(m);
}

} // verus!
