use audio_visualizer::audio_processor::{
    apply_gain, bin_bounds, decibel_amplitude, decibel_amplitudes, linear_amplitude, smooth,
    zero_bands, AmplitudeStep, AudioProcessor, SampleAccumulator, BUFFER_SIZE, DECIBEL_FLOOR,
    FFT_SIZE,
};
use audio_visualizer::config::{AudioVisualizerConfig, FrequencyScale, Mode};
use audio_visualizer::frequency_analyzer::Analyzer;

fn linear_config(num_bands: usize) -> AudioVisualizerConfig {
    AudioVisualizerConfig {
        num_bands,
        gain: 1_000_000,
        smoothing: 500_000,
        linear_amplitude: true,
        frequency_scale: FrequencyScale::Linear,
        ..AudioVisualizerConfig::default()
    }
}

#[test]
fn window_and_buffer_sizes() {
    assert_eq!(FFT_SIZE, 1024);
    assert_eq!(BUFFER_SIZE, 2048);
}

#[test]
fn apply_gain_multiplies_and_rounds_down() {
    assert_eq!(apply_gain(500_000, 2_000_000), 1_000_000);
    assert_eq!(apply_gain(3, 500_000), 1);
    assert_eq!(apply_gain(1, 999_999), 0);
    assert_eq!(apply_gain(0, 2_000_000), 0);
    assert_eq!(apply_gain(123_456, 1_000_000), 123_456);
    assert_eq!(apply_gain(u32::MAX, u32::MAX), 18_446_744_065_119);
}

#[test]
fn linear_amplitude_limits_to_full_scale() {
    assert_eq!(linear_amplitude(0), 0);
    assert_eq!(linear_amplitude(999_999), 999_999);
    assert_eq!(linear_amplitude(1_000_000), 1_000_000);
    assert_eq!(linear_amplitude(1_000_001), 1_000_000);
    assert_eq!(linear_amplitude(u64::MAX), 1_000_000);
}

#[test]
fn smooth_is_the_weighted_mean() {
    assert_eq!(smooth(0, 1_000_000, 800_000), 200_000);
    assert_eq!(smooth(200_000, 1_000_000, 800_000), 360_000);
    assert_eq!(smooth(1_000_000, 0, 800_000), 800_000);
    assert_eq!(smooth(400_000, 600_000, 500_000), 500_000);
    assert_eq!(smooth(7, 8, 500_000), 8);
    assert_eq!(smooth(8, 7, 500_000), 7);
    assert_eq!(smooth(0, 10, 333_333), 7);
    assert_eq!(smooth(10, 0, 333_333), 3);
}

#[test]
fn smooth_rounds_towards_the_new_value() {
    assert_eq!(smooth(0, 3, 500_000), 2);
    assert_eq!(smooth(3, 0, 500_000), 1);
    assert_eq!(smooth(0, 1, 999_999), 1);
    assert_eq!(smooth(1, 0, 999_999), 0);
    assert_eq!(smooth(0, 1_000_000, 999_999), 1);
    assert_eq!(smooth(1_000_000, 0, 999_999), 999_999);
}

#[test]
fn smooth_with_extreme_weights() {
    assert_eq!(smooth(123, 456_789, 0), 456_789);
    assert_eq!(smooth(123, 456_789, 1_000_000), 123);
    assert_eq!(smooth(u32::MAX, u32::MAX, 999_999), u32::MAX);
}

#[test]
fn smoothing_converges_monotonically_from_below() {
    let target = 750_000u32;
    let mut value = 100_000u32;
    for _ in 0..200 {
        let next = smooth(value, target, 800_000);
        assert!(next >= value);
        assert!(next <= target);
        value = next;
    }
    assert_eq!(value, target);
}

#[test]
fn smoothing_with_the_heaviest_weight_still_arrives() {
    let target = 40u32;
    let mut value = 0u32;
    for cycle in 1..=40u32 {
        value = smooth(value, target, 999_999);
        assert_eq!(value, cycle);
    }
    assert_eq!(smooth(value, target, 999_999), target);
}

#[test]
fn smoothing_converges_monotonically_from_above() {
    let target = 250_000u32;
    let mut value = 1_000_000u32;
    for _ in 0..200 {
        let next = smooth(value, target, 800_000);
        assert!(next <= value);
        assert!(next >= target);
        value = next;
    }
    assert_eq!(value, target);
}

#[test]
fn smoothing_stays_at_the_target() {
    assert_eq!(smooth(640_000, 640_000, 800_000), 640_000);
    assert_eq!(smooth(0, 0, 123_456), 0);
}

#[test]
fn decibel_amplitude_end_points() {
    assert_eq!(DECIBEL_FLOOR, -60_000);
    assert_eq!(decibel_amplitude(1_000_000, 0), 1_000_000);
    assert_eq!(decibel_amplitude(1_000, -60_000), 0);
    assert_eq!(decibel_amplitude(1, -120_000), 0);
    assert_eq!(decibel_amplitude(1, i32::MIN), 0);
    assert_eq!(decibel_amplitude(4_000_000, 12_041), 1_000_000);
    assert_eq!(decibel_amplitude(u64::MAX, i32::MAX), 1_000_000);
}

#[test]
fn decibel_amplitude_is_linear_in_the_level() {
    assert_eq!(decibel_amplitude(500_000, -6_021), 899_650);
    assert_eq!(decibel_amplitude(100_000, -20_000), 666_666);
    assert_eq!(decibel_amplitude(31_623, -30_000), 500_000);
    assert_eq!(decibel_amplitude(10_000, -40_000), 333_333);
    assert_eq!(decibel_amplitude(1_001, -59_999), 16);
    assert_eq!(decibel_amplitude(999_999, -1), 999_983);
}

#[test]
fn decibel_amplitude_of_a_silent_band_is_zero() {
    assert_eq!(decibel_amplitude(0, 0), 0);
    assert_eq!(decibel_amplitude(0, -200_000), 0);
    assert_eq!(decibel_amplitude(0, i32::MAX), 0);
}

#[test]
fn decibel_amplitude_is_monotonic() {
    let mut previous = 0u32;
    let mut level = -70_000i32;
    while level <= 5_000 {
        let amplitude = decibel_amplitude(1, level);
        assert!(amplitude >= previous);
        assert!(amplitude <= 1_000_000);
        previous = amplitude;
        level += 137;
    }
    assert_eq!(previous, 1_000_000);
}

#[test]
fn decibel_amplitudes_pairs_bands_with_levels() {
    assert_eq!(
        decibel_amplitudes(&[0, 100_000, 1_000_000], &[-20_000, -20_000, 0]),
        vec![0, 666_666, 1_000_000]
    );
    assert_eq!(decibel_amplitudes(&[5, 5, 5], &[0]), vec![1_000_000]);
    assert_eq!(decibel_amplitudes(&[5], &[0, 0, 0]), vec![1_000_000]);
    assert_eq!(decibel_amplitudes(&[], &[]), Vec::<u32>::new());
}

#[test]
fn smooth_decibels_maps_then_blends() {
    let c = AudioVisualizerConfig { linear_amplitude: false, ..linear_config(3) };
    let mut p = AudioProcessor::new(c, 48_000);
    p.smooth_decibels(&[1_000_000, 100_000, 0], &[0, -20_000, 0]);
    assert_eq!(p.get_bands(), vec![500_000, 333_333, 0]);
    p.smooth_decibels(&[1_000_000], &[-30_000]);
    assert_eq!(p.get_bands(), vec![500_000, 333_333, 0]);
    p.smooth_decibels(&[1_000_000, 1], &[-60_000]);
    assert_eq!(p.get_bands(), vec![250_000, 333_333, 0]);
}

#[test]
fn bin_bounds_of_the_default_range() {
    let c = AudioVisualizerConfig::default();
    assert_eq!(bin_bounds(&c, 48_000, 512), Some((0, 426)));
    assert_eq!(bin_bounds(&c, 44_100, 512), Some((0, 464)));
    assert_eq!(bin_bounds(&c, 22_050, 512), Some((0, 511)));
}

#[test]
fn bin_bounds_round_down() {
    let c = AudioVisualizerConfig {
        min_freq: 1_000_000,
        max_freq: 2_000_000,
        ..AudioVisualizerConfig::default()
    };
    assert_eq!(bin_bounds(&c, 48_000, 512), Some((21, 42)));
    let exact = AudioVisualizerConfig { min_freq: 46_875, max_freq: 93_750, ..c };
    assert_eq!(bin_bounds(&exact, 48_000, 512), Some((1, 2)));
    let below = AudioVisualizerConfig { min_freq: 46_874, max_freq: 93_749, ..c };
    assert_eq!(bin_bounds(&below, 48_000, 512), Some((0, 1)));
}

#[test]
fn bin_bounds_degenerate_inputs() {
    let c = AudioVisualizerConfig::default();
    assert_eq!(bin_bounds(&c, 0, 512), None);
    assert_eq!(bin_bounds(&c, 48_000, 0), None);
    assert_eq!(bin_bounds(&c, 48_000, 1), None);
    assert_eq!(bin_bounds(&c, 48_000, 2), Some((0, 1)));
    let inverted = AudioVisualizerConfig { min_freq: 5_000_000, max_freq: 1_000_000, ..c };
    assert_eq!(bin_bounds(&inverted, 48_000, 512), None);
    let equal = AudioVisualizerConfig { min_freq: 1_000_000, max_freq: 1_000_000, ..c };
    assert_eq!(bin_bounds(&equal, 48_000, 512), None);
    let wide = AudioVisualizerConfig { min_freq: 0, max_freq: u32::MAX, ..c };
    assert_eq!(bin_bounds(&wide, 1, 512), Some((0, 511)));
}

#[test]
fn zero_bands_makes_zeros() {
    assert_eq!(zero_bands(0), Vec::<u32>::new());
    assert_eq!(zero_bands(3), vec![0, 0, 0]);
}

#[test]
fn new_processor_starts_silent() {
    let c = AudioVisualizerConfig::default();
    let p = AudioProcessor::new(c, 48_000);
    assert_eq!(p.get_bands(), vec![0u32; 64]);
    assert_eq!(p.get_config(), c);
    assert_eq!(p.get_sample_rate(), 48_000);
    assert_eq!(p.analyzer(), Analyzer::Logarithmic);
    let none = AudioProcessor::new(AudioVisualizerConfig { num_bands: 0, ..c }, 48_000);
    assert!(none.get_bands().is_empty());
}

#[test]
fn interpolated_log_needs_interpolation_and_log_scale() {
    let c = AudioVisualizerConfig::default();
    assert!(AudioProcessor::new(c, 48_000).get_interpolated_log());
    let off = AudioVisualizerConfig { interpolate_bands: false, ..c };
    assert!(!AudioProcessor::new(off, 48_000).get_interpolated_log());
    for scale in [FrequencyScale::Linear, FrequencyScale::Bark, FrequencyScale::Mel] {
        let other = AudioVisualizerConfig { frequency_scale: scale, ..c };
        assert!(!AudioProcessor::new(other, 48_000).get_interpolated_log());
    }
    let octave = AudioVisualizerConfig { mode: Mode::ThirdOctave, ..c };
    assert!(AudioProcessor::new(octave, 48_000).get_interpolated_log());
}

#[test]
fn smooth_bands_blends_in_place() {
    let mut p = AudioProcessor::new(linear_config(3), 48_000);
    p.smooth_bands(&[1_000_000, 500_000, 0]);
    assert_eq!(p.get_bands(), vec![500_000, 250_000, 0]);
    p.smooth_bands(&[1_000_000, 500_000, 0]);
    assert_eq!(p.get_bands(), vec![750_000, 375_000, 0]);
}

#[test]
fn smooth_bands_limits_amplitudes_to_full_scale() {
    let mut p = AudioProcessor::new(linear_config(2), 48_000);
    p.smooth_bands(&[2_000_000, u32::MAX]);
    assert_eq!(p.get_bands(), vec![500_000, 500_000]);
}

#[test]
fn smooth_bands_with_fewer_or_more_amplitudes() {
    let mut p = AudioProcessor::new(linear_config(3), 48_000);
    p.smooth_bands(&[1_000_000]);
    assert_eq!(p.get_bands(), vec![500_000, 0, 0]);
    p.smooth_bands(&[1_000_000, 1_000_000, 1_000_000, 1_000_000, 1_000_000]);
    assert_eq!(p.get_bands(), vec![750_000, 500_000, 500_000]);
    p.smooth_bands(&[]);
    assert_eq!(p.get_bands(), vec![750_000, 500_000, 500_000]);
}

#[test]
fn amplitude_processing_linear() {
    let c = AudioVisualizerConfig { gain: 2_000_000, ..linear_config(3) };
    let mut p = AudioProcessor::new(c, 48_000);
    let step = p.apply_amplitude_processing(&[100_000, 400_000, 900_000]);
    assert!(matches!(step, AmplitudeStep::Smoothed));
    assert_eq!(p.get_bands(), vec![100_000, 400_000, 500_000]);
}

#[test]
fn amplitude_processing_decibel_hands_back_gained_bands() {
    let c = AudioVisualizerConfig { gain: 2_000_000, linear_amplitude: false, ..linear_config(3) };
    let mut p = AudioProcessor::new(c, 48_000);
    p.smooth_bands(&[200_000, 200_000, 200_000]);
    let step = p.apply_amplitude_processing(&[100_000, 400_000, 900_000]);
    match step {
        AmplitudeStep::Decibel(scaled) => assert_eq!(scaled, vec![200_000u64, 800_000, 1_800_000]),
        AmplitudeStep::Smoothed => panic!("decibel amplitude is configured"),
    }
    assert_eq!(p.get_bands(), vec![100_000, 100_000, 100_000]);
    p.smooth_bands(&[1_000_000, 500_000, 100_000]);
    assert_eq!(p.get_bands(), vec![550_000, 300_000, 100_000]);
}

#[test]
fn update_config_keeps_bands_when_the_count_is_unchanged() {
    let mut p = AudioProcessor::new(linear_config(2), 48_000);
    p.smooth_bands(&[1_000_000, 1_000_000]);
    let c = AudioVisualizerConfig { gain: 3_000_000, smoothing: 100_000, ..linear_config(2) };
    p.update_config(c);
    assert_eq!(p.get_config(), c);
    assert_eq!(p.get_bands(), vec![500_000, 500_000]);
    assert_eq!(p.get_sample_rate(), 48_000);
}

#[test]
fn update_config_resets_bands_when_the_count_changes() {
    let mut p = AudioProcessor::new(linear_config(2), 48_000);
    p.smooth_bands(&[1_000_000, 1_000_000]);
    p.update_config(linear_config(5));
    assert_eq!(p.get_bands(), vec![0u32; 5]);
    p.update_config(linear_config(1));
    assert_eq!(p.get_bands(), vec![0u32]);
}

#[test]
fn compute_bands_linear_cycle() {
    let mut p = AudioProcessor::new(linear_config(2), 48_000);
    let spectrum = vec![400_000u32; 512];
    let step = p.compute_bands(&spectrum, &[]);
    assert!(matches!(step, Some(AmplitudeStep::Smoothed)));
    assert_eq!(p.get_bands(), vec![200_000, 200_000]);
    p.compute_bands(&spectrum, &[]);
    assert_eq!(p.get_bands(), vec![300_000, 300_000]);
}

#[test]
fn compute_bands_without_bins_changes_nothing() {
    let mut p = AudioProcessor::new(linear_config(2), 0);
    p.smooth_bands(&[1_000_000, 1_000_000]);
    assert!(p.compute_bands(&vec![400_000u32; 512], &[]).is_none());
    assert_eq!(p.get_bands(), vec![500_000, 500_000]);
    let mut q = AudioProcessor::new(linear_config(2), 48_000);
    assert!(q.compute_bands(&[], &[]).is_none());
    assert_eq!(q.get_bands(), vec![0, 0]);
}

#[test]
fn compute_bands_skipped_bands_leave_the_tail_untouched() {
    let c = AudioVisualizerConfig {
        frequency_scale: FrequencyScale::Bark,
        skip_non_processed: true,
        ..linear_config(3)
    };
    let mut p = AudioProcessor::new(c, 48_000);
    p.smooth_bands(&[800_000, 800_000, 800_000]);
    let spectrum = vec![200_000u32; 512];
    let edges = [(0, 4), (4, 4), (4, 9)];
    p.compute_bands(&spectrum, &edges);
    assert_eq!(p.get_bands(), vec![300_000, 300_000, 400_000]);
}

#[test]
fn compute_bands_decibel_cycle() {
    let c = AudioVisualizerConfig { num_bands: 4, ..AudioVisualizerConfig::default() };
    let mut p = AudioProcessor::new(c, 48_000);
    let mut spectrum = vec![0u32; 512];
    spectrum[10] = 300_000;
    spectrum[11] = 500_000;
    let edges = [(0, 2), (2, 2), (10, 12), (12, 600)];
    match p.compute_bands(&spectrum, &edges) {
        Some(AmplitudeStep::Decibel(scaled)) => assert_eq!(scaled, vec![0u64, 400_000, 800_000, 0]),
        _ => panic!("decibel amplitude is configured"),
    }
    assert_eq!(p.get_bands(), vec![0u32; 4]);
}

#[test]
fn accumulator_starts_empty() {
    let a: SampleAccumulator<f32> = SampleAccumulator::new();
    assert_eq!(a.len(), 0);
    assert!(a.ready_window().is_none());
}

#[test]
fn accumulator_hands_out_a_window_once_full_enough() {
    let mut a: SampleAccumulator<i32> = SampleAccumulator::new();
    let first: Vec<i32> = (0..1000).collect();
    a.ingest(&first);
    assert_eq!(a.len(), 1000);
    assert!(a.ready_window().is_none());
    let second: Vec<i32> = (1000..1024).collect();
    a.ingest(&second);
    assert_eq!(a.ready_window().unwrap(), (0..1024).collect::<Vec<i32>>());
    let third: Vec<i32> = (1024..1100).collect();
    a.ingest(&third);
    assert_eq!(a.len(), 1100);
    assert_eq!(a.ready_window().unwrap(), (76..1100).collect::<Vec<i32>>());
}

#[test]
fn accumulator_drops_the_oldest_samples() {
    let mut a: SampleAccumulator<i32> = SampleAccumulator::new();
    let block: Vec<i32> = (0..3000).collect();
    a.ingest(&block);
    assert_eq!(a.len(), 2048);
    assert_eq!(a.ready_window().unwrap(), (1976..3000).collect::<Vec<i32>>());
    a.ingest(&[-1, -2]);
    assert_eq!(a.len(), 2048);
    let window = a.ready_window().unwrap();
    assert_eq!(window.len(), 1024);
    assert_eq!(window[0], 1978);
    assert_eq!(window[1021], 2999);
    assert_eq!(window[1022], -1);
    assert_eq!(window[1023], -2);
}

#[test]
fn accumulator_takes_empty_and_float_blocks() {
    let mut a: SampleAccumulator<f32> = SampleAccumulator::new();
    a.ingest(&[]);
    assert_eq!(a.len(), 0);
    a.ingest(&vec![0.5f32; 1024]);
    assert_eq!(a.ready_window().unwrap(), vec![0.5f32; 1024]);
}
