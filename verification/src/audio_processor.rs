//! Sample accumulation and amplitude post-processing.
//!
//! [`SampleAccumulator`] turns sample blocks of any size into analysis
//! windows. [`AudioProcessor`] owns the displayed band values: it maps a
//! spectrum to bands, applies gain and the amplitude mapping, and blends the
//! result into the previous values.

use crate::config::{AudioVisualizerConfig, FrequencyScale};
use crate::distance;
use crate::frequency_analyzer::{analyzer_for, select_analyzer, Analyzer};
use crate::UNIT;
use std::collections::VecDeque;
use vstd::prelude::*;

verus! {

/// Largest number of samples the accumulator retains.
pub const BUFFER_SIZE: usize = 2048;

/// Number of samples in one analysis window.
pub const FFT_SIZE: usize = 1024;

/// A band value times the gain, rounded down.
pub open spec fn gained(value: u32, gain: u32) -> int {
    value * gain / (UNIT as int)
}

/// `v` limited to full scale.
pub open spec fn clamp_unit(v: int) -> int {
    if v <= UNIT {
        v
    } else {
        UNIT as int
    }
}

/// The moving average of one band: the mean of the previous value, weighted
/// by `smoothing`, and the new value, weighted by the rest of the unit,
/// rounded towards the new value. Put otherwise: the band keeps the fraction
/// `smoothing` of its distance from the new value, rounded down.
pub open spec fn smoothed(previous: u32, processed: u32, smoothing: u32) -> int {
    if previous <= processed {
        processed - (processed - previous) * smoothing / (UNIT as int)
    } else {
        processed + (previous - processed) * smoothing / (UNIT as int)
    }
}

/// The value of a band after `cycles` processing cycles that all present
/// the same new value `target`, starting from `previous`.
pub open spec fn smoothed_repeatedly(previous: u32, target: u32, smoothing: u32, cycles: nat) -> int
    decreases cycles,
{
    if cycles == 0 {
        previous as int
    } else {
        smoothed(
            smoothed_repeatedly(previous, target, smoothing, (cycles - 1) as nat) as u32,
            target,
            smoothing,
        )
    }
}

/// One smoothing step is the weighted mean
/// `(previous * smoothing + processed * (UNIT - smoothing)) / UNIT`, off by
/// less than one unit and never on the far side of the new value.
pub proof fn lemma_smoothed_is_weighted_mean(previous: u32, processed: u32, smoothing: u32)
    requires
        smoothing <= UNIT,
    ensures
        ({
            let exact = previous * smoothing + processed * (UNIT - smoothing);
            let value = smoothed(previous, processed, smoothing);
            &&& distance(value * UNIT, exact) < UNIT
            &&& previous <= processed ==> exact <= value * UNIT
            &&& processed <= previous ==> value * UNIT <= exact
        }),
{
    let u = UNIT as int;
    let s = smoothing as int;
    let p = previous as int;
    let x = processed as int;
    let exact = p * s + x * (u - s);
    let value = smoothed(previous, processed, smoothing);
    if p <= x {
        let d = x - p;
        let q = d * s / u;
        assert(q * u <= d * s < q * u + u) by (nonlinear_arith)
            requires
                q == d * s / u,
                u > 0,
        ;
        assert(exact == x * u - d * s && (x - q) * u == x * u - q * u) by (nonlinear_arith)
            requires
                exact == p * s + x * (u - s),
                d == x - p,
        ;
        assert(value == x - q);
        assert(value * u == x * u - q * u);
        if d == 0 {
            assert(d * s == 0) by (nonlinear_arith)
                requires
                    d == 0,
            ;
        }
    } else {
        let d = p - x;
        let q = d * s / u;
        assert(q * u <= d * s < q * u + u) by (nonlinear_arith)
            requires
                q == d * s / u,
                u > 0,
        ;
        assert(exact == x * u + d * s && (x + q) * u == x * u + q * u) by (nonlinear_arith)
            requires
                exact == p * s + x * (u - s),
                d == p - x,
        ;
        assert(value == x + q);
        assert(value * u == x * u + q * u);
    }
}

/// One smoothing step shrinks the distance to the new value to the fraction
/// `smoothing` of what it was, rounded down. So the step lands between the
/// previous value and the new value, never past the new value, and with a
/// smoothing weight below one it lands strictly closer unless the band is
/// there already.
pub proof fn lemma_smoothed_contracts(previous: u32, processed: u32, smoothing: u32)
    requires
        smoothing <= UNIT,
    ensures
        distance(smoothed(previous, processed, smoothing), processed as int) == distance(
            previous as int,
            processed as int,
        ) * smoothing / (UNIT as int),
        distance(smoothed(previous, processed, smoothing), processed as int) <= distance(
            previous as int,
            processed as int,
        ),
        smoothing < UNIT && previous != processed ==> distance(
            smoothed(previous, processed, smoothing),
            processed as int,
        ) < distance(previous as int, processed as int),
        previous <= processed ==> previous <= smoothed(previous, processed, smoothing)
            <= processed,
        processed <= previous ==> processed <= smoothed(previous, processed, smoothing)
            <= previous,
{
    let u = UNIT as int;
    let s = smoothing as int;
    let d = distance(previous as int, processed as int);
    let q = d * s / u;
    assert(0 <= q <= d) by (nonlinear_arith)
        requires
            q == d * s / u,
            0 <= s <= u,
            u > 0,
            d >= 0,
    ;
    if s < u && d > 0 {
        assert(q < d) by (nonlinear_arith)
            requires
                q == d * s / u,
                0 <= s < u,
                d > 0,
        ;
    }
}

/// One smoothing step lands between the previous value and the new value,
/// both included: it moves towards the new value and never past it.
pub proof fn lemma_smoothed_between(previous: u32, processed: u32, smoothing: u32)
    requires
        smoothing <= UNIT,
    ensures
        previous <= processed ==> previous <= smoothed(previous, processed, smoothing)
            <= processed,
        processed <= previous ==> processed <= smoothed(previous, processed, smoothing)
            <= previous,
{
    lemma_smoothed_contracts(previous, processed, smoothing);
}

/// Under a constant input the band value moves monotonically towards the
/// input and never overshoots it: every cycle's value lies between the
/// value of the cycle before and the input.
pub proof fn lemma_smoothing_is_monotonic(previous: u32, target: u32, smoothing: u32, cycles: nat)
    requires
        smoothing <= UNIT,
    ensures
        ({
            let now = smoothed_repeatedly(previous, target, smoothing, cycles);
            let next = smoothed_repeatedly(previous, target, smoothing, cycles + 1);
            &&& previous <= target ==> previous <= now <= next <= target
            &&& target <= previous ==> target <= next <= now <= previous
        }),
    decreases cycles,
{
    if cycles > 0 {
        lemma_smoothing_is_monotonic(previous, target, smoothing, (cycles - 1) as nat);
    }
    let now = smoothed_repeatedly(previous, target, smoothing, cycles);
    lemma_smoothed_between(now as u32, target, smoothing);
}

/// Under a constant input the band value converges to the input: every
/// cycle brings it at least one unit closer until it is there, so after as
/// many cycles as the band initially lay units away it equals the input and
/// stays there.
pub proof fn lemma_smoothing_converges(previous: u32, target: u32, smoothing: u32, cycles: nat)
    requires
        smoothing < UNIT,
    ensures
        smoothed_repeatedly(previous, target, smoothing, cycles) == target || distance(
            smoothed_repeatedly(previous, target, smoothing, cycles),
            target as int,
        ) + cycles <= distance(previous as int, target as int),
        cycles >= distance(previous as int, target as int) ==> smoothed_repeatedly(
            previous,
            target,
            smoothing,
            cycles,
        ) == target,
    decreases cycles,
{
    if cycles > 0 {
        let before = smoothed_repeatedly(previous, target, smoothing, (cycles - 1) as nat);
        lemma_smoothing_converges(previous, target, smoothing, (cycles - 1) as nat);
        lemma_smoothing_is_monotonic(previous, target, smoothing, (cycles - 1) as nat);
        lemma_smoothed_contracts(before as u32, target, smoothing);
    }
}

/// Multiplies a band value by the gain.
pub fn apply_gain(value: u32, gain: u32) -> (scaled: u64)
    ensures
        scaled == gained(value, gain),
{
    assert(value * gain <= 0xffff_ffff * 0xffff_ffff) by (nonlinear_arith)
        requires
            value <= 0xffff_ffff,
            gain <= 0xffff_ffff,
    ;
    (value as u64) * (gain as u64) / (UNIT as u64)
}

/// Maps a gained band value to a linear amplitude: the value itself, limited
/// to full scale.
pub fn linear_amplitude(scaled: u64) -> (amplitude: u32)
    ensures
        amplitude == clamp_unit(scaled as int),
        amplitude <= UNIT,
{
    if scaled <= UNIT as u64 {
        scaled as u32
    } else {
        UNIT
    }
}

/// The level, in millidecibels, that maps to the amplitude zero: -60 dB.
pub const DECIBEL_FLOOR: i32 = -60_000;

/// The amplitude of a level given in millidecibels: the range from
/// [`DECIBEL_FLOOR`] to 0 dB is laid linearly onto zero to full scale,
/// rounded down; levels outside the range get the nearer end.
pub open spec fn decibel_mapped(millidecibels: i32) -> int {
    if millidecibels <= DECIBEL_FLOOR {
        0
    } else if millidecibels >= 0 {
        UNIT as int
    } else {
        (millidecibels - DECIBEL_FLOOR) * UNIT / (0 - DECIBEL_FLOOR)
    }
}

/// The decibel amplitude of a gained band whose level is `millidecibels`:
/// zero for a band at zero, whatever level is given for it, otherwise the
/// amplitude of the level.
pub open spec fn decibel_amplitude_of(scaled: u64, millidecibels: i32) -> int {
    if scaled == 0 {
        0
    } else {
        decibel_mapped(millidecibels)
    }
}

/// The decibel amplitudes of gained bands and their levels, for as many
/// bands as have both.
pub open spec fn decibel_all(scaled: Seq<u64>, millidecibels: Seq<i32>) -> Seq<u32> {
    Seq::new(
        if scaled.len() <= millidecibels.len() {
            scaled.len()
        } else {
            millidecibels.len()
        },
        |i: int| decibel_amplitude_of(scaled[i], millidecibels[i]) as u32,
    )
}

/// The decibel mapping sends -60 dB and everything below to zero, 0 dB and
/// everything above to full scale, and never maps a higher level to a lower
/// amplitude. A band at zero maps to zero.
pub proof fn lemma_decibel_mapping(lower: i32, higher: i32, scaled: u64)
    requires
        lower <= higher,
    ensures
        decibel_mapped(DECIBEL_FLOOR) == 0,
        decibel_mapped(0) == UNIT,
        0 <= decibel_mapped(lower) <= decibel_mapped(higher) <= UNIT,
        lower <= DECIBEL_FLOOR ==> decibel_mapped(lower) == 0,
        higher >= 0 ==> decibel_mapped(higher) == UNIT,
        decibel_amplitude_of(0, lower) == 0,
        0 <= decibel_amplitude_of(scaled, lower) <= decibel_amplitude_of(scaled, higher) <= UNIT,
{
}

/// Maps the level of a gained band to its decibel amplitude.
pub fn decibel_amplitude(scaled: u64, millidecibels: i32) -> (amplitude: u32)
    ensures
        amplitude == decibel_amplitude_of(scaled, millidecibels),
        amplitude <= UNIT,
{
    if scaled == 0 || millidecibels <= DECIBEL_FLOOR {
        0
    } else if millidecibels >= 0 {
        UNIT
    } else {
        let above_floor = (millidecibels - DECIBEL_FLOOR) as u64;
        assert(0 < above_floor < 60_000);
        let unit: u64 = 1_000_000;
        assert(unit == UNIT);
        (above_floor * unit / 60_000) as u32
    }
}

/// Maps the levels of gained bands to their decibel amplitudes, for as many
/// bands as have a level.
pub fn decibel_amplitudes(scaled: &[u64], millidecibels: &[i32]) -> (amplitudes: Vec<u32>)
    ensures
        amplitudes@ == decibel_all(scaled@, millidecibels@),
{
    let count = if scaled.len() <= millidecibels.len() {
        scaled.len()
    } else {
        millidecibels.len()
    };
    let mut amplitudes: Vec<u32> = Vec::new();
    let mut i: usize = 0;
    while i < count
        invariant
            i <= count,
            count <= scaled@.len(),
            count <= millidecibels@.len(),
            count == decibel_all(scaled@, millidecibels@).len(),
            amplitudes@.len() == i,
            forall|k: int|
                0 <= k < i ==> amplitudes@[k] == decibel_all(scaled@, millidecibels@)[k],
        decreases count - i,
    {
        amplitudes.push(decibel_amplitude(scaled[i], millidecibels[i]));
        i = i + 1;
    }
    proof {
        assert(amplitudes@ =~= decibel_all(scaled@, millidecibels@));
    }
    amplitudes
}

/// Blends a new band value into the previous one.
pub fn smooth(previous: u32, processed: u32, smoothing: u32) -> (value: u32)
    requires
        smoothing <= UNIT,
    ensures
        value == smoothed(previous, processed, smoothing),
        previous <= processed ==> previous <= value <= processed,
        processed <= previous ==> processed <= value <= previous,
        smoothing < UNIT && previous != processed ==> distance(value as int, processed as int)
            < distance(previous as int, processed as int),
{
    proof {
        lemma_smoothed_contracts(previous, processed, smoothing);
    }
    if previous <= processed {
        let gap = (processed - previous) as u64;
        assert(gap * smoothing <= 0xffff_ffff * 1_000_000 && gap * smoothing / 1_000_000 <= gap)
            by (nonlinear_arith)
            requires
                0 <= gap <= 0xffff_ffff,
                0 <= smoothing <= 1_000_000,
        ;
        let kept = gap * (smoothing as u64) / (UNIT as u64);
        processed - kept as u32
    } else {
        let gap = (previous - processed) as u64;
        assert(gap * smoothing <= 0xffff_ffff * 1_000_000 && gap * smoothing / 1_000_000 <= gap)
            by (nonlinear_arith)
            requires
                0 <= gap <= 0xffff_ffff,
                0 <= smoothing <= 1_000_000,
        ;
        let kept = gap * (smoothing as u64) / (UNIT as u64);
        processed + kept as u32
    }
}

/// The last `limit` items of `s`, or all of `s` when it holds no more than that.
pub open spec fn most_recent<T>(s: Seq<T>, limit: nat) -> Seq<T> {
    if s.len() <= limit {
        s
    } else {
        s.skip(s.len() - limit)
    }
}

/// A bounded buffer that absorbs sample blocks of any size and hands out
/// fixed-size analysis windows. It retains the most recent [`BUFFER_SIZE`]
/// samples; older ones are dropped.
pub struct SampleAccumulator<T> {
    buffer: VecDeque<T>,
}

impl<T> View for SampleAccumulator<T> {
    type V = Seq<T>;

    /// The retained samples, oldest first.
    closed spec fn view(&self) -> Seq<T> {
        self.buffer@
    }
}

impl<T: Copy> SampleAccumulator<T> {
    /// The invariant of the accumulator: it holds no more samples than its
    /// capacity. Every accumulator made and changed by the functions below
    /// satisfies it.
    pub closed spec fn well_formed(&self) -> bool {
        self.buffer@.len() <= BUFFER_SIZE
    }

    /// An accumulator that holds no samples.
    pub fn new() -> (accumulator: Self)
        ensures
            accumulator.well_formed(),
            accumulator@ == Seq::<T>::empty(),
    {
        SampleAccumulator { buffer: VecDeque::new() }
    }

    /// The number of retained samples.
    pub fn len(&self) -> (len: usize)
        requires
            self.well_formed(),
        ensures
            len == self@.len(),
            len <= BUFFER_SIZE,
    {
        self.buffer.len()
    }

    /// Appends a block of samples, dropping the oldest samples beyond the
    /// buffer's capacity.
    pub fn ingest(&mut self, samples: &[T])
        requires
            old(self).well_formed(),
        ensures
            final(self).well_formed(),
            final(self)@ == most_recent(old(self)@ + samples@, BUFFER_SIZE as nat),
    {
        let ghost before = self.buffer@;
        let mut i: usize = 0;
        while i < samples.len()
            invariant
                i <= samples@.len(),
                self.buffer@.len() <= BUFFER_SIZE,
                self.buffer@ == most_recent(before + samples@.take(i as int), BUFFER_SIZE as nat),
            decreases samples.len() - i,
        {
            let ghost joined = before + samples@.take(i as int);
            proof {
                assert(before + samples@.take(i + 1) == joined.push(samples@[i as int]));
            }
            if self.buffer.len() == BUFFER_SIZE {
                let _ = self.buffer.pop_front();
            }
            self.buffer.push_back(samples[i]);
            proof {
                assert(self.buffer@ == most_recent(
                    joined.push(samples@[i as int]),
                    BUFFER_SIZE as nat,
                ));
            }
            i = i + 1;
        }
        proof {
            assert(samples@.take(samples@.len() as int) == samples@);
        }
    }

    /// The most recent [`FFT_SIZE`] samples, oldest first, once that many are
    /// held; nothing before.
    pub fn ready_window(&self) -> (window: Option<Vec<T>>)
        ensures
            window is Some <==> self@.len() >= FFT_SIZE,
            window matches Some(w) ==> w@ == most_recent(self@, FFT_SIZE as nat),
    {
        let len = self.buffer.len();
        if len < FFT_SIZE {
            return None;
        }
        let first = len - FFT_SIZE;
        let mut window: Vec<T> = Vec::new();
        let mut i: usize = 0;
        while i < FFT_SIZE
            invariant
                i <= FFT_SIZE,
                len == self.buffer@.len(),
                first + FFT_SIZE == len,
                window@.len() == i,
                forall|k: int| 0 <= k < i ==> window@[k] == self.buffer@[first + k],
            decreases FFT_SIZE - i,
        {
            window.push(self.buffer[first + i]);
            i = i + 1;
        }
        proof {
            assert(window@ == most_recent(self@, FFT_SIZE as nat));
        }
        Some(window)
    }
}

/// Index of the spectrum bin that holds the frequency `freq` (in
/// millihertz): the frequency divided by the bin width
/// `sample_rate / FFT_SIZE`, rounded down.
pub open spec fn frequency_bin(freq: u32, sample_rate: u32) -> int {
    freq * FFT_SIZE / (1000 * sample_rate)
}

/// The bins `(min_bin, max_bin)` of the configured frequency range in a
/// spectrum of `spectrum_len` bins, the upper one limited to the last bin of
/// the spectrum; nothing when the sample rate is zero, the spectrum is empty
/// or the upper bin does not lie above the lower.
pub open spec fn analysed_bins(
    config: AudioVisualizerConfig,
    sample_rate: u32,
    spectrum_len: usize,
) -> Option<(usize, usize)> {
    if sample_rate == 0 || spectrum_len == 0 {
        None
    } else {
        let low = frequency_bin(config.min_freq, sample_rate);
        let high = frequency_bin(config.max_freq, sample_rate);
        let last = spectrum_len - 1;
        let limited = if high <= last {
            high
        } else {
            last
        };
        if limited <= low {
            None
        } else {
            Some((low as usize, limited as usize))
        }
    }
}

/// Finds the bins of the configured frequency range.
pub fn bin_bounds(config: &AudioVisualizerConfig, sample_rate: u32, spectrum_len: usize) -> (bins:
    Option<(usize, usize)>)
    ensures
        bins == analysed_bins(*config, sample_rate, spectrum_len),
        bins matches Some((low, high)) ==> low < high < spectrum_len,
{
    if sample_rate == 0 || spectrum_len == 0 {
        return None;
    }
    let width: u64 = 1000 * (sample_rate as u64);
    let window: u64 = FFT_SIZE as u64;
    assert(window == 1024);
    let low: u64 = (config.min_freq as u64) * window / width;
    let high: u64 = (config.max_freq as u64) * window / width;
    let last = spectrum_len - 1;
    let limited: usize = if high <= last as u64 {
        high as usize
    } else {
        last
    };
    if limited as u64 <= low {
        None
    } else {
        Some((low as usize, limited))
    }
}

/// `count` bands at zero.
pub open spec fn silent(count: nat) -> Seq<u32> {
    Seq::new(count, |i: int| 0u32)
}

/// Every band times the gain.
pub open spec fn gained_all(raw: Seq<u32>, gain: u32) -> Seq<u64> {
    Seq::new(raw.len(), |i: int| gained(raw[i], gain) as u64)
}

/// The linear amplitude of every band: the band times the gain, limited to
/// full scale.
pub open spec fn linear_all(raw: Seq<u32>, gain: u32) -> Seq<u32> {
    Seq::new(raw.len(), |i: int| clamp_unit(gained(raw[i], gain)) as u32)
}

/// The displayed bands after blending in new amplitudes: each band that has
/// a new amplitude becomes the moving average of its previous value and that
/// amplitude limited to full scale; the others keep their value.
pub open spec fn smoothed_all(previous: Seq<u32>, processed: Seq<u32>, smoothing: u32) -> Seq<u32> {
    Seq::new(
        previous.len(),
        |i: int|
            if i < processed.len() {
                smoothed(previous[i], clamp_unit(processed[i] as int) as u32, smoothing) as u32
            } else {
                previous[i]
            },
    )
}

/// What is left to do after the gain stage of a processing cycle.
#[derive(Debug)]
pub enum AmplitudeStep {
    /// Linear amplitude is configured: the bands were mapped and blended
    /// into the displayed values. Nothing is left to do.
    Smoothed,
    /// Decibel amplitude is configured: these are the bands times the gain.
    /// The displayed values are unchanged until the level of each, in
    /// millidecibels relative to full scale, is handed to
    /// [`AudioProcessor::smooth_decibels`].
    Decibel(Vec<u64>),
}

impl AmplitudeStep {
    /// Whether this is the step that the amplitude stage hands back for the
    /// bands `raw` under `config`: [`AmplitudeStep::Smoothed`] with linear
    /// amplitude, and with decibel amplitude the bands times the gain.
    pub open spec fn follows(self, config: AudioVisualizerConfig, raw: Seq<u32>) -> bool {
        match self {
            AmplitudeStep::Smoothed => config.linear_amplitude,
            AmplitudeStep::Decibel(scaled) => !config.linear_amplitude && scaled@ == gained_all(
                raw,
                config.gain,
            ),
        }
    }
}

/// What an [`AudioProcessor`] holds.
pub struct AudioProcessorView {
    /// The displayed band values, left to right.
    pub bands: Seq<u32>,
    pub config: AudioVisualizerConfig,
    pub sample_rate: u32,
}

/// The owner of the displayed band values, which persist from one
/// processing cycle to the next.
pub struct AudioProcessor {
    bands: Vec<u32>,
    config: AudioVisualizerConfig,
    sample_rate: u32,
}

impl View for AudioProcessor {
    type V = AudioProcessorView;

    closed spec fn view(&self) -> AudioProcessorView {
        AudioProcessorView {
            bands: self.bands@,
            config: self.config,
            sample_rate: self.sample_rate,
        }
    }
}

impl AudioProcessorView {
    /// The invariant of a processor: there is one displayed value per
    /// configured band, none above full scale, and the smoothing weight is
    /// below one.
    pub open spec fn well_formed(self) -> bool {
        &&& self.bands.len() == self.config.num_bands
        &&& self.config.smoothing < UNIT
        &&& forall|i: int| 0 <= i < self.bands.len() ==> self.bands[i] <= UNIT
    }

    /// The state after the amplitude stage has seen the bands `raw`: with
    /// linear amplitude the displayed values are blended with the linear
    /// amplitudes; with decibel amplitude nothing changes yet.
    pub open spec fn after_amplitude_processing(self, raw: Seq<u32>) -> AudioProcessorView {
        if self.config.linear_amplitude {
            AudioProcessorView {
                bands: smoothed_all(
                    self.bands,
                    linear_all(raw, self.config.gain),
                    self.config.smoothing,
                ),
                ..self
            }
        } else {
            self
        }
    }
}

/// Blending keeps the number of bands and keeps every band at or below
/// full scale.
pub proof fn lemma_smoothed_all_bounded(previous: Seq<u32>, processed: Seq<u32>, smoothing: u32)
    requires
        smoothing <= UNIT,
        forall|i: int| 0 <= i < previous.len() ==> previous[i] <= UNIT,
    ensures
        smoothed_all(previous, processed, smoothing).len() == previous.len(),
        forall|i: int|
            0 <= i < previous.len() ==> #[trigger] smoothed_all(previous, processed, smoothing)[i]
                <= UNIT,
{
    assert forall|i: int| 0 <= i < previous.len() implies #[trigger] smoothed_all(
        previous,
        processed,
        smoothing,
    )[i] <= UNIT by {
        if i < processed.len() {
            lemma_smoothed_between(
                previous[i],
                clamp_unit(processed[i] as int) as u32,
                smoothing,
            );
        }
    }
}

impl AudioProcessor {
    /// A processor with every band at zero.
    pub fn new(config: AudioVisualizerConfig, sample_rate: u32) -> (processor: Self)
        requires
            config.smoothing < UNIT,
        ensures
            processor@.well_formed(),
            processor@.config == config,
            processor@.sample_rate == sample_rate,
            processor@.bands == silent(config.num_bands as nat),
    {
        AudioProcessor { bands: zero_bands(config.num_bands), config, sample_rate }
    }

    /// The displayed band values.
    pub fn get_bands(&self) -> (bands: Vec<u32>)
        ensures
            bands@ == self@.bands,
    {
        self.bands.clone()
    }

    /// The current configuration.
    pub fn get_config(&self) -> (config: AudioVisualizerConfig)
        ensures
            config == self@.config,
    {
        self.config
    }

    /// The sample rate of the analysed stream, in hertz.
    pub fn get_sample_rate(&self) -> (sample_rate: u32)
        ensures
            sample_rate == self@.sample_rate,
    {
        self.sample_rate
    }

    /// Whether outgoing packets carry the interpolation flag.
    pub fn get_interpolated_log(&self) -> (flag: bool)
        ensures
            flag == self@.config.interpolated_log(),
    {
        self.config.interpolate_bands && matches!(self.config.frequency_scale, FrequencyScale::Log)
    }

    /// The strategy the current configuration selects.
    pub fn analyzer(&self) -> (analyzer: Analyzer)
        ensures
            analyzer == analyzer_for(self@.config.mode, self@.config.frequency_scale),
    {
        select_analyzer(self.config.mode, self.config.frequency_scale)
    }

    /// Replaces the configuration. The displayed values survive unless the
    /// number of bands changes, in which case they start again from zero.
    pub fn update_config(&mut self, config: AudioVisualizerConfig)
        requires
            old(self)@.well_formed(),
            config.smoothing < UNIT,
        ensures
            final(self)@.well_formed(),
            final(self)@.config == config,
            final(self)@.sample_rate == old(self)@.sample_rate,
            final(self)@.bands == if config.num_bands != old(self)@.config.num_bands {
                silent(config.num_bands as nat)
            } else {
                old(self)@.bands
            },
    {
        if config.num_bands != self.config.num_bands {
            self.bands = zero_bands(config.num_bands);
        }
        self.config = config;
    }

    /// Blends new amplitudes into the displayed values, in place. Amplitudes
    /// above full scale count as full scale; bands without a new amplitude
    /// keep their value.
    pub fn smooth_bands(&mut self, processed: &[u32])
        requires
            old(self)@.well_formed(),
        ensures
            final(self)@.well_formed(),
            final(self)@ == (AudioProcessorView {
                bands: smoothed_all(old(self)@.bands, processed@, old(self)@.config.smoothing),
                ..old(self)@
            }),
    {
        let ghost before = self.bands@;
        let ghost entry = self@;
        let smoothing = self.config.smoothing;
        let count = if processed.len() <= self.bands.len() {
            processed.len()
        } else {
            self.bands.len()
        };
        proof {
            lemma_smoothed_all_bounded(before, processed@, smoothing);
        }
        let mut i: usize = 0;
        while i < count
            invariant
                i <= count,
                count <= processed@.len(),
                count <= before.len(),
                smoothing < UNIT,
                self@.config == entry.config,
                self@.sample_rate == entry.sample_rate,
                self.bands@.len() == before.len(),
                forall|k: int|
                    0 <= k < i ==> self.bands@[k] == smoothed_all(before, processed@, smoothing)[k],
                forall|k: int| i <= k < before.len() ==> self.bands@[k] == before[k],
            decreases count - i,
        {
            let amplitude = if processed[i] <= UNIT {
                processed[i]
            } else {
                UNIT
            };
            let value = smooth(self.bands[i], amplitude, smoothing);
            self.bands.set(i, value);
            i = i + 1;
        }
        proof {
            assert(self.bands@ =~= smoothed_all(before, processed@, smoothing));
        }
    }

    /// Finishes a cycle with decibel amplitude: maps the level of every
    /// gained band to its amplitude and blends the amplitudes into the
    /// displayed values.
    pub fn smooth_decibels(&mut self, scaled: &[u64], millidecibels: &[i32])
        requires
            old(self)@.well_formed(),
        ensures
            final(self)@.well_formed(),
            final(self)@ == (AudioProcessorView {
                bands: smoothed_all(
                    old(self)@.bands,
                    decibel_all(scaled@, millidecibels@),
                    old(self)@.config.smoothing,
                ),
                ..old(self)@
            }),
    {
        let amplitudes = decibel_amplitudes(scaled, millidecibels);
        self.smooth_bands(amplitudes.as_slice());
    }

    /// Runs the amplitude stage on freshly mapped bands: gain, then the
    /// amplitude mapping, then smoothing. With linear amplitude all of it
    /// happens here; with decibel amplitude the gained bands are handed
    /// back for their levels and the displayed values wait for
    /// [`AudioProcessor::smooth_decibels`].
    pub fn apply_amplitude_processing(&mut self, bands: &[u32]) -> (step: AmplitudeStep)
        requires
            old(self)@.well_formed(),
        ensures
            final(self)@.well_formed(),
            final(self)@ == old(self)@.after_amplitude_processing(bands@),
            step.follows(old(self)@.config, bands@),
    {
        let gain = self.config.gain;
        if self.config.linear_amplitude {
            let mut processed: Vec<u32> = Vec::new();
            let mut i: usize = 0;
            while i < bands.len()
                invariant
                    i <= bands@.len(),
                    processed@.len() == i,
                    forall|k: int| 0 <= k < i ==> processed@[k] == linear_all(bands@, gain)[k],
                decreases bands.len() - i,
            {
                processed.push(linear_amplitude(apply_gain(bands[i], gain)));
                i = i + 1;
            }
            proof {
                assert(processed@ =~= linear_all(bands@, gain));
            }
            self.smooth_bands(processed.as_slice());
            AmplitudeStep::Smoothed
        } else {
            let mut scaled: Vec<u64> = Vec::new();
            let mut i: usize = 0;
            while i < bands.len()
                invariant
                    i <= bands@.len(),
                    scaled@.len() == i,
                    forall|k: int| 0 <= k < i ==> scaled@[k] == gained_all(bands@, gain)[k],
                decreases bands.len() - i,
            {
                scaled.push(apply_gain(bands[i], gain));
                i = i + 1;
            }
            proof {
                assert(scaled@ =~= gained_all(bands@, gain));
            }
            AmplitudeStep::Decibel(scaled)
        }
    }

    /// Runs one processing cycle on a spectrum: finds the analysed bins,
    /// maps the spectrum to bands with the configured strategy and runs the
    /// amplitude stage on them. Does nothing and returns nothing when there
    /// are no bins to analyse.
    pub fn compute_bands(&mut self, spectrum: &[u32], edges: &[(usize, usize)]) -> (step: Option<
        AmplitudeStep,
    >)
        requires
            old(self)@.well_formed(),
        ensures
            final(self)@.well_formed(),
            match analysed_bins(old(self)@.config, old(self)@.sample_rate, spectrum@.len() as usize) {
                None => step is None && final(self)@ == old(self)@,
                Some((min_bin, max_bin)) => {
                    let raw = analyzer_for(
                        old(self)@.config.mode,
                        old(self)@.config.frequency_scale,
                    ).bands(spectrum@, old(self)@.config, edges@, min_bin, max_bin);
                    &&& final(self)@ == old(self)@.after_amplitude_processing(raw)
                    &&& step is Some
                    &&& step.unwrap().follows(old(self)@.config, raw)
                },
            },
    {
        match bin_bounds(&self.config, self.sample_rate, spectrum.len()) {
            None => None,
            Some((min_bin, max_bin)) => {
                let analyzer = self.analyzer();
                let raw = analyzer.compute_bands(spectrum, &self.config, edges, min_bin, max_bin);
                Some(self.apply_amplitude_processing(raw.as_slice()))
            },
        }
    }
}

/// Makes `count` bands at zero.
pub fn zero_bands(count: usize) -> (bands: Vec<u32>)
    ensures
        bands@ == silent(count as nat),
{
    let mut bands: Vec<u32> = Vec::new();
    let mut i: usize = 0;
    while i < count
        invariant
            i <= count,
            bands@.len() == i,
            forall|k: int| 0 <= k < i ==> bands@[k] == 0,
        decreases count - i,
    {
        bands.push(0);
        i = i + 1;
    }
    proof {
        assert(bands@ =~= silent(count as nat));
    }
    bands
}

} // verus!
