//! Bands of equal width in bins.

use crate::config::AudioVisualizerConfig;
use crate::frequency_analyzer::utils::{
    band_value, compact, lemma_compact_all_measured, lemma_compact_len, lemma_mean_range_constant,
    measure_band, measured_only, zero_fill, zero_filled,
};
use vstd::prelude::*;

verus! {

/// The linear strategy: the analysed bins `min_bin..max_bin` are cut into
/// `num_bands` runs of equal width, left to right.
#[derive(Clone, Copy, Debug, Default)]
pub struct LinearAnalyzer;

impl LinearAnalyzer {
    /// Width of every band in bins: the number of analysed bins divided by
    /// the number of bands, rounded down.
    pub open spec fn bins_per_band(num_bands: usize, min_bin: usize, max_bin: usize) -> int {
        if max_bin <= min_bin {
            0
        } else if num_bands == 0 {
            max_bin - min_bin
        } else {
            (max_bin - min_bin) / (num_bands as int)
        }
    }

    /// First bin of band `i`.
    pub open spec fn band_start(i: int, num_bands: usize, min_bin: usize, max_bin: usize) -> int {
        min_bin + i * Self::bins_per_band(num_bands, min_bin, max_bin)
    }

    /// End bin (exclusive) of band `i`.
    pub open spec fn band_end(i: int, num_bands: usize, min_bin: usize, max_bin: usize) -> int {
        let end = Self::band_start(i, num_bands, min_bin, max_bin) + Self::bins_per_band(
            num_bands,
            min_bin,
            max_bin,
        );
        if end <= max_bin {
            end
        } else {
            max_bin as int
        }
    }

    /// One measurement per band, each over the band's own run of bins.
    pub open spec fn measurements(
        spectrum: Seq<u32>,
        config: AudioVisualizerConfig,
        min_bin: usize,
        max_bin: usize,
    ) -> Seq<Option<u32>> {
        Seq::new(
            config.num_bands as nat,
            |i: int|
                band_value(
                    spectrum,
                    Self::band_start(i, config.num_bands, min_bin, max_bin),
                    Self::band_end(i, config.num_bands, min_bin, max_bin),
                ),
        )
    }

    /// The bands of a spectrum: one per measured band when unmeasured bands
    /// are skipped, otherwise every band with zero for the unmeasured ones.
    pub open spec fn bands(
        spectrum: Seq<u32>,
        config: AudioVisualizerConfig,
        min_bin: usize,
        max_bin: usize,
    ) -> Seq<u32> {
        let m = Self::measurements(spectrum, config, min_bin, max_bin);
        if config.skip_non_processed {
            compact(m)
        } else {
            zero_fill(m)
        }
    }

    /// Reduces a spectrum to bands of equal width. The band positions are
    /// not consulted.
    pub fn compute_bands(
        &self,
        spectrum: &[u32],
        config: &AudioVisualizerConfig,
        _edges: &[(usize, usize)],
        min_bin: usize,
        max_bin: usize,
    ) -> (bands: Vec<u32>)
        requires
            max_bin <= spectrum@.len(),
        ensures
            bands@ == Self::bands(spectrum@, *config, min_bin, max_bin),
            bands@.len() <= config.num_bands,
    {
        let n = config.num_bands;
        let span: usize = if max_bin <= min_bin {
            0
        } else {
            max_bin - min_bin
        };
        let width: usize = if n == 0 {
            span
        } else {
            span / n
        };
        assert(width == Self::bins_per_band(n, min_bin, max_bin));
        assert(n * width <= span) by (nonlinear_arith)
            requires
                n == 0 || width == span / n,
                n >= 0,
                span >= 0,
        ;
        let mut m: Vec<Option<u32>> = Vec::new();
        let mut start: usize = min_bin;
        let mut i: usize = 0;
        while i < n
            invariant
                i <= n,
                n == config.num_bands,
                max_bin <= spectrum@.len(),
                width == Self::bins_per_band(n, min_bin, max_bin),
                n * width <= span,
                min_bin + span <= usize::MAX,
                start == min_bin + i * width,
                m@.len() == i,
                forall|k: int|
                    0 <= k < i ==> m@[k] == band_value(
                        spectrum@,
                        Self::band_start(k, n, min_bin, max_bin),
                        Self::band_end(k, n, min_bin, max_bin),
                    ),
            decreases n - i,
        {
            assert((i + 1) * width <= n * width && (i + 1) * width == i * width + width)
                by (nonlinear_arith)
                requires
                    i + 1 <= n,
                    width >= 0,
            ;
            let next = start + width;
            let end = if next <= max_bin {
                next
            } else {
                max_bin
            };
            m.push(measure_band(spectrum, start, end));
            start = next;
            i = i + 1;
        }
        proof {
            lemma_compact_len(m@);
            assert(m@ =~= Self::measurements(spectrum@, *config, min_bin, max_bin));
        }
        if config.skip_non_processed {
            measured_only(&m)
        } else {
            zero_filled(&m)
        }
    }
}

/// When there are at least as many analysed bins as bands and every analysed
/// bin holds the same magnitude, every band equals that magnitude exactly.
pub proof fn lemma_linear_constant_spectrum(
    spectrum: Seq<u32>,
    config: AudioVisualizerConfig,
    min_bin: usize,
    max_bin: usize,
    magnitude: u32,
)
    requires
        max_bin <= spectrum.len(),
        1 <= config.num_bands <= max_bin - min_bin,
        forall|j: int| min_bin <= j < max_bin ==> spectrum[j] == magnitude,
    ensures
        LinearAnalyzer::bands(spectrum, config, min_bin, max_bin).len() == config.num_bands,
        forall|i: int|
            0 <= i < config.num_bands ==> LinearAnalyzer::bands(
                spectrum,
                config,
                min_bin,
                max_bin,
            )[i] == magnitude,
{
    let n = config.num_bands;
    let span = max_bin - min_bin;
    let width = LinearAnalyzer::bins_per_band(n, min_bin, max_bin);
    assert(width >= 1 && n * width <= span) by (nonlinear_arith)
        requires
            1 <= n <= span,
            width == span / (n as int),
    ;
    let m = LinearAnalyzer::measurements(spectrum, config, min_bin, max_bin);
    assert forall|i: int| 0 <= i < n implies m[i] == Some(magnitude) by {
        let start = LinearAnalyzer::band_start(i, n, min_bin, max_bin);
        let end = LinearAnalyzer::band_end(i, n, min_bin, max_bin);
        assert(0 <= i * width && (i + 1) * width <= n * width && (i + 1) * width == i * width
            + width) by (nonlinear_arith)
            requires
                0 <= i < n,
                width >= 1,
        ;
        assert(min_bin <= start < end <= max_bin);
        lemma_mean_range_constant(spectrum, start, end, magnitude);
    }
    lemma_compact_all_measured(m);
}

} // verus!
