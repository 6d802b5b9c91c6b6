//! Bands of equal width on the Bark scale.

use crate::audio_processor::FFT_SIZE;
use crate::config::AudioVisualizerConfig;
use crate::frequency_analyzer::utils::{
    band_count, clamped_measurements, compact, lemma_compact_len, measure_clamped, measured_only,
    zero_fill, zero_filled,
};
use vstd::prelude::*;

verus! {

/// The frequency, in millihertz, at which the Bark scale bends: the 1960 Hz
/// of `bark(f) = 26.81 f / (1960 + f) - 0.53`.
pub const BARK_KNEE: u32 = 1_960_000;

/// The Bark strategy.
///
/// With `bark(f) = 26.81 f / (1960 + f) - 0.53`, the Bark interval between
/// the configured frequencies is cut into equal segments; band `i` is
/// positioned at `edges[i]`, the bins of its segment's two end frequencies.
/// [`BarkAnalyzer::edges`] computes these positions exactly.
#[derive(Clone, Copy, Debug, Default)]
pub struct BarkAnalyzer;

impl BarkAnalyzer {
    /// Numerator of the frequency of edge `i` out of `n` segments between
    /// the frequencies `low` and `high`.
    ///
    /// The edge lies at the frequency `f` with
    /// `bark(f) = bark(low) + (i / n) (bark(high) - bark(low))`. Solving for
    /// `f` gives the weighted mean of `low` and `high` with the weights
    /// `(n - i) (1960 + high)` and `i (1960 + low)`; the factor 26.81 and the
    /// offset 0.53 cancel. This is the sum of the weighted frequencies.
    pub open spec fn edge_numerator(i: int, n: int, low: u32, high: u32) -> int {
        (n - i) * (BARK_KNEE + high) * low + i * (BARK_KNEE + low) * high
    }

    /// Denominator of the frequency of edge `i`: the sum of the two weights.
    pub open spec fn edge_denominator(i: int, n: int, low: u32, high: u32) -> int {
        (n - i) * (BARK_KNEE + high) + i * (BARK_KNEE + low)
    }

    /// The bin that holds the frequency of edge `i`: the frequency divided
    /// by the bin width `sample_rate / FFT_SIZE`, rounded down.
    pub open spec fn edge_bin(i: int, n: int, low: u32, high: u32, sample_rate: u32) -> int {
        Self::edge_numerator(i, n, low, high) * FFT_SIZE / (Self::edge_denominator(i, n, low, high)
            * 1000 * sample_rate)
    }

    /// The positions of all bands: band `i` reaches from the bin of edge
    /// `i` to the bin of edge `i + 1`.
    pub open spec fn positions(config: AudioVisualizerConfig, sample_rate: u32) -> Seq<
        (usize, usize),
    > {
        Seq::new(
            config.num_bands as nat,
            |i: int|
                (
                    saturated(
                        Self::edge_bin(
                            i,
                            config.num_bands as int,
                            config.min_freq,
                            config.max_freq,
                            sample_rate,
                        ),
                    ),
                    saturated(
                        Self::edge_bin(
                            i + 1,
                            config.num_bands as int,
                            config.min_freq,
                            config.max_freq,
                            sample_rate,
                        ),
                    ),
                ),
        )
    }

    /// Computes the bin of edge `i`.
    fn bin_of_edge(i: u32, n: u32, low: u32, high: u32, sample_rate: u32) -> (bin: usize)
        requires
            i <= n,
            1 <= n,
            sample_rate > 0,
        ensures
            bin == saturated(Self::edge_bin(i as int, n as int, low, high, sample_rate)),
    {
        let knee = BARK_KNEE as u128;
        let rest = (n - i) as u128;
        let above_high = knee + high as u128;
        let above_low = knee + low as u128;
        assert(rest * above_high <= 0xffff_ffff * 0x1_ffff_ffff && i * above_low <= 0xffff_ffff
            * 0x1_ffff_ffff && rest * above_high + i * above_low >= 1_960_000)
            by (nonlinear_arith)
            requires
                1_960_000 <= above_high <= 0x1_ffff_ffff,
                1_960_000 <= above_low <= 0x1_ffff_ffff,
                0 <= rest <= 0xffff_ffff,
                0 <= i <= 0xffff_ffff,
                rest + i >= 1,
        ;
        let low_weight = rest * above_high;
        let high_weight = (i as u128) * above_low;
        assert(low_weight * low <= 0xffff_ffff * 0x1_ffff_ffff * 0xffff_ffff && high_weight * high
            <= 0xffff_ffff * 0x1_ffff_ffff * 0xffff_ffff) by (nonlinear_arith)
            requires
                0 <= low_weight <= 0xffff_ffff * 0x1_ffff_ffff,
                0 <= high_weight <= 0xffff_ffff * 0x1_ffff_ffff,
                0 <= high <= 0xffff_ffff,
                0 <= low <= 0xffff_ffff,
        ;
        let numerator = low_weight * (low as u128) + high_weight * (high as u128);
        let denominator = low_weight + high_weight;
        assert(numerator == Self::edge_numerator(i as int, n as int, low, high) && denominator
            == Self::edge_denominator(i as int, n as int, low, high)) by (nonlinear_arith)
            requires
                numerator == low_weight * low + high_weight * high,
                denominator == low_weight + high_weight,
                low_weight == rest * above_high,
                high_weight == i * above_low,
                above_high == BARK_KNEE + high,
                above_low == BARK_KNEE + low,
                rest == n - i,
        ;
        assert(denominator * 1000 * sample_rate <= 2 * 0xffff_ffff * 0x1_ffff_ffff * 1000
            * 0xffff_ffff && denominator * 1000 * sample_rate > 0) by (nonlinear_arith)
            requires
                1_960_000 <= denominator <= 2 * 0xffff_ffff * 0x1_ffff_ffff,
                0 < sample_rate <= 0xffff_ffff,
        ;
        let window = FFT_SIZE as u128;
        assert(window == 1024);
        let bin = numerator * window / (denominator * 1000 * (sample_rate as u128));
        if bin <= usize::MAX as u128 {
            bin as usize
        } else {
            usize::MAX
        }
    }

    /// Computes the positions of all bands for a stream of the given sample
    /// rate. There are none to compute when the sample rate is zero, and
    /// none can be computed for more than `u32::MAX` bands.
    pub fn edges(config: &AudioVisualizerConfig, sample_rate: u32) -> (edges: Option<
        Vec<(usize, usize)>,
    >)
        ensures
            edges is None <==> sample_rate == 0 || config.num_bands > u32::MAX,
            edges matches Some(e) ==> e@ == Self::positions(*config, sample_rate),
    {
        if sample_rate == 0 || config.num_bands > u32::MAX as usize {
            return None;
        }
        let n = config.num_bands as u32;
        let mut edges: Vec<(usize, usize)> = Vec::new();
        let mut i: u32 = 0;
        while i < n
            invariant
                i <= n,
                n == config.num_bands,
                sample_rate > 0,
                edges@.len() == i,
                forall|k: int|
                    0 <= k < i ==> edges@[k] == Self::positions(*config, sample_rate)[k],
            decreases n - i,
        {
            let start = Self::bin_of_edge(i, n, config.min_freq, config.max_freq, sample_rate);
            let end = Self::bin_of_edge(i + 1, n, config.min_freq, config.max_freq, sample_rate);
            edges.push((start, end));
            i = i + 1;
        }
        proof {
            assert(edges@ =~= Self::positions(*config, sample_rate));
        }
        Some(edges)
    }

    /// The bands of a spectrum: one per measured band when unmeasured bands
    /// are skipped, otherwise every band with zero for the unmeasured ones.
    pub open spec fn bands(
        spectrum: Seq<u32>,
        config: AudioVisualizerConfig,
        edges: Seq<(usize, usize)>,
        min_bin: usize,
        max_bin: usize,
    ) -> Seq<u32> {
        let m = measure_clamped(
            spectrum,
            edges,
            band_count(config.num_bands, edges.len()),
            min_bin,
            max_bin,
        );
        if config.skip_non_processed {
            compact(m)
        } else {
            zero_fill(m)
        }
    }

    /// Reduces a spectrum to bands on the Bark scale.
    pub fn compute_bands(
        &self,
        spectrum: &[u32],
        config: &AudioVisualizerConfig,
        edges: &[(usize, usize)],
        min_bin: usize,
        max_bin: usize,
    ) -> (bands: Vec<u32>)
        requires
            max_bin <= spectrum@.len(),
        ensures
            bands@ == Self::bands(spectrum@, *config, edges@, min_bin, max_bin),
            bands@.len() <= config.num_bands,
    {
        let m = clamped_measurements(spectrum, edges, config.num_bands, min_bin, max_bin);
        proof {
            lemma_compact_len(m@);
        }
        if config.skip_non_processed {
            measured_only(&m)
        } else {
            zero_filled(&m)
        }
    }
}

/// A bin index as a `usize`: the index itself, or the largest `usize` when
/// it does not fit.
pub open spec fn saturated(bin: int) -> usize {
    if bin <= usize::MAX {
        bin as usize
    } else {
        usize::MAX
    }
}

/// The edges cut the Bark interval into equal segments.
///
/// Write `f = x / y` for the frequency of edge `i`, with `x` its numerator
/// and `y` its denominator. Since
/// `bark(f) - bark(g) = 26.81 * 1960 (f - g) / ((1960 + f) (1960 + g))`, the
/// equation `n (bark(f) - bark(low)) = i (bark(high) - bark(low))` is, with
/// all denominators multiplied out, the equation stated here. The first
/// edge is the lower frequency and the last edge the upper one.
pub proof fn lemma_bark_edges_equally_spaced(i: int, n: int, low: u32, high: u32)
    requires
        0 <= i <= n,
        1 <= n,
    ensures
        ({
            let x = BarkAnalyzer::edge_numerator(i, n, low, high);
            let y = BarkAnalyzer::edge_denominator(i, n, low, high);
            &&& y > 0
            &&& n * (x - low * y) * (BARK_KNEE + high) == i * (high - low) * (BARK_KNEE * y + x)
            &&& i == 0 ==> x == low * y
            &&& i == n ==> x == high * y
        }),
{
    let k = BARK_KNEE as int;
    let a = low as int;
    let b = high as int;
    let x = BarkAnalyzer::edge_numerator(i, n, low, high);
    let y = BarkAnalyzer::edge_denominator(i, n, low, high);
    assert(y >= k) by (nonlinear_arith)
        requires
            y == (n - i) * (k + b) + i * (k + a),
            0 <= i <= n,
            1 <= n,
            k > 0,
            a >= 0,
            b >= 0,
    ;
    assert(x - a * y == i * (k + a) * (b - a)) by (nonlinear_arith)
        requires
            x == (n - i) * (k + b) * a + i * (k + a) * b,
            y == (n - i) * (k + b) + i * (k + a),
    ;
    assert(k * y + x == n * (k + a) * (k + b)) by (nonlinear_arith)
        requires
            x == (n - i) * (k + b) * a + i * (k + a) * b,
            y == (n - i) * (k + b) + i * (k + a),
    ;
    assert(n * (i * (k + a) * (b - a)) * (k + b) == i * (b - a) * (n * (k + a) * (k + b)))
        by (nonlinear_arith);
    if i == 0 {
        assert(i * (k + a) * (b - a) == 0) by (nonlinear_arith)
            requires
                i == 0,
        ;
    }
    if i == n {
        assert(x == b * y) by (nonlinear_arith)
            requires
                x == (n - i) * (k + b) * a + i * (k + a) * b,
                y == (n - i) * (k + b) + i * (k + a),
                i == n,
        ;
    }
}

} // verus!
