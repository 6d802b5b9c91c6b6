//! The analysis configuration: one immutable snapshot per processing cycle.

use crate::UNIT;
use vstd::prelude::*;

verus! {

/// How the frequency axis is divided into bands.
#[derive(Clone, Copy, Debug, PartialEq, Eq, Structural)]
pub enum Mode {
    /// Bands follow the configured frequency scale.
    Discrete,
    /// One band per standard third-octave centre frequency.
    ThirdOctave,
    /// One band per standard octave centre frequency.
    FullOctave,
}

/// The frequency scale used when the mode is [`Mode::Discrete`].
#[derive(Clone, Copy, Debug, PartialEq, Eq, Structural)]
pub enum FrequencyScale {
    Log,
    Linear,
    Bark,
    Mel,
}

impl Mode {
    /// The mode a numeric code stands for: 1 is third-octave, 2 is full
    /// octave, every other code is discrete.
    pub open spec fn of_code(code: u8) -> Mode {
        if code == 1 {
            Mode::ThirdOctave
        } else if code == 2 {
            Mode::FullOctave
        } else {
            Mode::Discrete
        }
    }

    /// Reads a mode from its numeric code.
    pub fn from_code(code: u8) -> (mode: Mode)
        ensures
            mode == Mode::of_code(code),
    {
        if code == 1 {
            Mode::ThirdOctave
        } else if code == 2 {
            Mode::FullOctave
        } else {
            Mode::Discrete
        }
    }

    /// The numeric code of this mode: 0, 1 or 2.
    pub fn code(&self) -> (code: u8)
        ensures
            Mode::of_code(code) == *self,
            code == match *self {
                Mode::Discrete => 0u8,
                Mode::ThirdOctave => 1u8,
                Mode::FullOctave => 2u8,
            },
    {
        match self {
            Mode::Discrete => 0,
            Mode::ThirdOctave => 1,
            Mode::FullOctave => 2,
        }
    }
}

impl FrequencyScale {
    /// The scale a name stands for: `linear`, `bark` and `mel` name their
    /// scales, every other name the logarithmic scale.
    pub open spec fn of_name(name: Seq<char>) -> FrequencyScale {
        if name == "linear"@ {
            FrequencyScale::Linear
        } else if name == "bark"@ {
            FrequencyScale::Bark
        } else if name == "mel"@ {
            FrequencyScale::Mel
        } else {
            FrequencyScale::Log
        }
    }

    /// Reads a scale from its name.
    pub fn from_name(name: &str) -> (scale: FrequencyScale)
        ensures
            scale == FrequencyScale::of_name(name@),
    {
        let name = name.to_owned();
        if name == "linear".to_owned() {
            FrequencyScale::Linear
        } else if name == "bark".to_owned() {
            FrequencyScale::Bark
        } else if name == "mel".to_owned() {
            FrequencyScale::Mel
        } else {
            FrequencyScale::Log
        }
    }

    /// The name of this scale.
    pub fn name(&self) -> (name: &'static str)
        ensures
            name@ == match *self {
                FrequencyScale::Log => "log"@,
                FrequencyScale::Linear => "linear"@,
                FrequencyScale::Bark => "bark"@,
                FrequencyScale::Mel => "mel"@,
            },
    {
        match self {
            FrequencyScale::Log => "log",
            FrequencyScale::Linear => "linear",
            FrequencyScale::Bark => "bark",
            FrequencyScale::Mel => "mel",
        }
    }
}

/// Each scale's name reads back as that scale.
pub proof fn lemma_scale_names_round_trip()
    ensures
        FrequencyScale::of_name("log"@) == FrequencyScale::Log,
        FrequencyScale::of_name("linear"@) == FrequencyScale::Linear,
        FrequencyScale::of_name("bark"@) == FrequencyScale::Bark,
        FrequencyScale::of_name("mel"@) == FrequencyScale::Mel,
{
    reveal_strlit("log");
    reveal_strlit("linear");
    reveal_strlit("bark");
    reveal_strlit("mel");
    assert("log"@.len() == 3);
    assert("linear"@.len() == 6);
    assert("bark"@.len() == 4);
    assert("mel"@.len() == 3);
    assert("log"@[0] == 'l');
    assert("mel"@[0] == 'm');
}

/// One snapshot of the analysis settings.
///
/// Amplitude-like fields (`gain`, `smoothing`) count millionths, so
/// `1_000_000` is the factor 1.0; frequencies count millihertz.
#[derive(Clone, Copy, Debug, PartialEq, Eq, Structural)]
pub struct AudioVisualizerConfig {
    /// Number of bands to produce.
    pub num_bands: usize,
    /// Multiplier applied to every band, in millionths.
    pub gain: u32,
    /// Weight of the previous value in the moving average, in millionths.
    pub smoothing: u32,
    /// Lower end of the analysed range, in millihertz.
    pub min_freq: u32,
    /// Upper end of the analysed range, in millihertz.
    pub max_freq: u32,
    pub mode: Mode,
    /// `true` for linear amplitude, `false` for decibel amplitude.
    pub linear_amplitude: bool,
    pub frequency_scale: FrequencyScale,
    /// Whether bands that cannot be measured are filled in from their neighbours.
    pub interpolate_bands: bool,
    /// Whether bands that cannot be measured are left out of the output.
    pub skip_non_processed: bool,
}

impl AudioVisualizerConfig {
    /// The settings a fresh installation starts with.
    pub open spec fn initial() -> AudioVisualizerConfig {
        AudioVisualizerConfig {
            num_bands: 64,
            gain: 2_000_000,
            smoothing: 800_000,
            min_freq: 20_000,
            max_freq: 20_000_000,
            mode: Mode::Discrete,
            linear_amplitude: false,
            frequency_scale: FrequencyScale::Log,
            interpolate_bands: true,
            skip_non_processed: true,
        }
    }

    /// Whether every field lies in its natural range: at least one band, a
    /// positive gain, a smoothing weight below one, and a non-empty
    /// frequency range.
    pub open spec fn valid(&self) -> bool {
        &&& self.num_bands >= 1
        &&& self.gain > 0
        &&& self.smoothing < UNIT
        &&& self.min_freq < self.max_freq
    }

    /// Checks that every field lies in its natural range.
    pub fn is_valid(&self) -> (ok: bool)
        ensures
            ok == self.valid(),
    {
        self.num_bands >= 1 && self.gain > 0 && self.smoothing < UNIT && self.min_freq
            < self.max_freq
    }

    /// Whether the interpolation flag of an outgoing packet is set:
    /// interpolation is on and the frequency scale is logarithmic.
    pub open spec fn interpolated_log(&self) -> bool {
        self.interpolate_bands && self.frequency_scale == FrequencyScale::Log
    }
}

impl Default for AudioVisualizerConfig {
    fn default() -> (config: AudioVisualizerConfig)
        ensures
            config == AudioVisualizerConfig::initial(),
            config.valid(),
    {
        AudioVisualizerConfig {
            num_bands: 64,
            gain: 2_000_000,
            smoothing: 800_000,
            min_freq: 20_000,
            max_freq: 20_000_000,
            mode: Mode::Discrete,
            linear_amplitude: false,
            frequency_scale: FrequencyScale::Log,
            interpolate_bands: true,
            skip_non_processed: true,
        }
    }
}

} // verus!
