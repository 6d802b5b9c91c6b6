//! The six band mapping strategies and their selection.
//!
//! Every strategy turns a magnitude spectrum into at most `num_bands` band
//! values, each the mean magnitude over a run of bins. Where a band lies on
//! the frequency axis is given by `edges`: one pair of bin indices per band,
//! the bins of the band's lower and upper frequency.

use crate::config::{AudioVisualizerConfig, FrequencyScale, Mode};
use crate::frequency_analyzer::bark::BarkAnalyzer;
use crate::frequency_analyzer::full_octave::FullOctaveAnalyzer;
use crate::frequency_analyzer::linear::LinearAnalyzer;
use crate::frequency_analyzer::logarithmic::LogarithmicAnalyzer;
use crate::frequency_analyzer::mel::MelAnalyzer;
use crate::frequency_analyzer::third_octave::ThirdOctaveAnalyzer;
use vstd::prelude::*;

pub mod bark;
pub mod full_octave;
pub mod linear;
pub mod logarithmic;
pub mod mel;
pub mod third_octave;
pub mod utils;

verus! {

/// The band mapping strategies.
#[derive(Clone, Copy, Debug, PartialEq, Eq, Structural)]
pub enum Analyzer {
    Logarithmic,
    Linear,
    Bark,
    Mel,
    ThirdOctave,
    FullOctave,
}

/// The strategy that a mode and a frequency scale select: the two octave
/// modes select their own strategies whatever the scale; the discrete mode
/// selects the strategy of the scale.
pub open spec fn analyzer_for(mode: Mode, scale: FrequencyScale) -> Analyzer {
    match mode {
        Mode::ThirdOctave => Analyzer::ThirdOctave,
        Mode::FullOctave => Analyzer::FullOctave,
        Mode::Discrete => match scale {
            FrequencyScale::Linear => Analyzer::Linear,
            FrequencyScale::Bark => Analyzer::Bark,
            FrequencyScale::Mel => Analyzer::Mel,
            FrequencyScale::Log => Analyzer::Logarithmic,
        },
    }
}

/// Selects the strategy for a mode and a frequency scale.
pub fn select_analyzer(mode: Mode, scale: FrequencyScale) -> (analyzer: Analyzer)
    ensures
        analyzer == analyzer_for(mode, scale),
{
    match mode {
        Mode::ThirdOctave => Analyzer::ThirdOctave,
        Mode::FullOctave => Analyzer::FullOctave,
        Mode::Discrete => match scale {
            FrequencyScale::Linear => Analyzer::Linear,
            FrequencyScale::Bark => Analyzer::Bark,
            FrequencyScale::Mel => Analyzer::Mel,
            FrequencyScale::Log => Analyzer::Logarithmic,
        },
    }
}

/// Selects the strategy for a mode code and a frequency scale name.
pub fn get_analyzer(mode: u8, frequency_scale: &str) -> (analyzer: Analyzer)
    ensures
        analyzer == analyzer_for(Mode::of_code(mode), FrequencyScale::of_name(frequency_scale@)),
{
    select_analyzer(Mode::from_code(mode), FrequencyScale::from_name(frequency_scale))
}

impl Analyzer {
    /// Whether this strategy confines its bands to the analysed bins
    /// `min_bin..max_bin`. The two octave strategies do not.
    pub open spec fn uses_bin_range(self) -> bool {
        !(self is ThirdOctave) && !(self is FullOctave)
    }

    /// The bands this strategy produces.
    pub open spec fn bands(
        self,
        spectrum: Seq<u32>,
        config: AudioVisualizerConfig,
        edges: Seq<(usize, usize)>,
        min_bin: usize,
        max_bin: usize,
    ) -> Seq<u32> {
        match self {
            Analyzer::Logarithmic => LogarithmicAnalyzer::bands(
                spectrum,
                config,
                edges,
                min_bin,
                max_bin,
            ),
            Analyzer::Linear => LinearAnalyzer::bands(spectrum, config, min_bin, max_bin),
            Analyzer::Bark => BarkAnalyzer::bands(spectrum, config, edges, min_bin, max_bin),
            Analyzer::Mel => MelAnalyzer::bands(spectrum, config, edges, min_bin, max_bin),
            Analyzer::ThirdOctave => ThirdOctaveAnalyzer::bands(spectrum, config, edges),
            Analyzer::FullOctave => FullOctaveAnalyzer::bands(spectrum, config, edges),
        }
    }

    /// Reduces a spectrum to bands with this strategy.
    pub fn compute_bands(
        &self,
        spectrum: &[u32],
        config: &AudioVisualizerConfig,
        edges: &[(usize, usize)],
        min_bin: usize,
        max_bin: usize,
    ) -> (bands: Vec<u32>)
        requires
            self.uses_bin_range() ==> max_bin <= spectrum@.len(),
        ensures
            bands@ == self.bands(spectrum@, *config, edges@, min_bin, max_bin),
            bands@.len() <= config.num_bands,
    {
        match self {
            Analyzer::Logarithmic => LogarithmicAnalyzer.compute_bands(
                spectrum,
                config,
                edges,
                min_bin,
                max_bin,
            ),
            Analyzer::Linear => LinearAnalyzer.compute_bands(
                spectrum,
                config,
                edges,
                min_bin,
                max_bin,
            ),
            Analyzer::Bark => BarkAnalyzer.compute_bands(spectrum, config, edges, min_bin, max_bin),
            Analyzer::Mel => MelAnalyzer.compute_bands(spectrum, config, edges, min_bin, max_bin),
            Analyzer::ThirdOctave => ThirdOctaveAnalyzer.compute_bands(
                spectrum,
                config,
                edges,
                min_bin,
                max_bin,
            ),
            Analyzer::FullOctave => FullOctaveAnalyzer.compute_bands(
                spectrum,
                config,
                edges,
                min_bin,
                max_bin,
            ),
        }
    }
}

} // verus!
