use audio_visualizer::config::{AudioVisualizerConfig, FrequencyScale, Mode};
use audio_visualizer::UNIT;

#[test]
fn unit_is_one_million() {
    assert_eq!(UNIT, 1_000_000);
}

#[test]
fn default_config_values() {
    let c = AudioVisualizerConfig::default();
    assert_eq!(c.num_bands, 64);
    assert_eq!(c.gain, 2_000_000);
    assert_eq!(c.smoothing, 800_000);
    assert_eq!(c.min_freq, 20_000);
    assert_eq!(c.max_freq, 20_000_000);
    assert_eq!(c.mode, Mode::Discrete);
    assert!(!c.linear_amplitude);
    assert_eq!(c.frequency_scale, FrequencyScale::Log);
    assert!(c.interpolate_bands);
    assert!(c.skip_non_processed);
    assert!(c.is_valid());
}

#[test]
fn is_valid_checks_every_range() {
    let c = AudioVisualizerConfig::default();
    assert!(!AudioVisualizerConfig { num_bands: 0, ..c }.is_valid());
    assert!(!AudioVisualizerConfig { gain: 0, ..c }.is_valid());
    assert!(!AudioVisualizerConfig { smoothing: 1_000_000, ..c }.is_valid());
    assert!(AudioVisualizerConfig { smoothing: 999_999, ..c }.is_valid());
    assert!(AudioVisualizerConfig { smoothing: 0, ..c }.is_valid());
    assert!(!AudioVisualizerConfig { min_freq: 20_000_000, ..c }.is_valid());
    assert!(!AudioVisualizerConfig { min_freq: 30_000, max_freq: 20_000, ..c }.is_valid());
}

#[test]
fn mode_codes() {
    assert_eq!(Mode::from_code(0), Mode::Discrete);
    assert_eq!(Mode::from_code(1), Mode::ThirdOctave);
    assert_eq!(Mode::from_code(2), Mode::FullOctave);
    assert_eq!(Mode::from_code(3), Mode::Discrete);
    assert_eq!(Mode::from_code(255), Mode::Discrete);
    for mode in [Mode::Discrete, Mode::ThirdOctave, Mode::FullOctave] {
        assert_eq!(Mode::from_code(mode.code()), mode);
    }
    assert_eq!(Mode::Discrete.code(), 0);
    assert_eq!(Mode::ThirdOctave.code(), 1);
    assert_eq!(Mode::FullOctave.code(), 2);
}

#[test]
fn scale_names() {
    assert_eq!(FrequencyScale::from_name("log"), FrequencyScale::Log);
    assert_eq!(FrequencyScale::from_name("linear"), FrequencyScale::Linear);
    assert_eq!(FrequencyScale::from_name("bark"), FrequencyScale::Bark);
    assert_eq!(FrequencyScale::from_name("mel"), FrequencyScale::Mel);
    assert_eq!(FrequencyScale::from_name("MEL"), FrequencyScale::Log);
    assert_eq!(FrequencyScale::from_name(""), FrequencyScale::Log);
    assert_eq!(FrequencyScale::from_name("linear "), FrequencyScale::Log);
    for scale in [FrequencyScale::Log, FrequencyScale::Linear, FrequencyScale::Bark, FrequencyScale::Mel] {
        assert_eq!(FrequencyScale::from_name(scale.name()), scale);
    }
    assert_eq!(FrequencyScale::Log.name(), "log");
    assert_eq!(FrequencyScale::Bark.name(), "bark");
}
