use audio_visualizer::audio_processor::{
    bin_bounds, AmplitudeStep, AudioProcessor, SampleAccumulator, FFT_SIZE,
};
use audio_visualizer::config::AudioVisualizerConfig;
use audio_visualizer::frequency_analyzer::logarithmic::LogarithmicAnalyzer;
use audio_visualizer::network::CompactAudioPacket;
use rustfft::num_complex::Complex;
use rustfft::FftPlanner;

const SAMPLE_RATE: u32 = 48_000;

fn sine_block(frequency: f32, count: usize) -> Vec<f32> {
    (0..count)
        .map(|i| (2.0 * std::f32::consts::PI * frequency * i as f32 / SAMPLE_RATE as f32).sin())
        .collect()
}

fn magnitude_spectrum(window: &[f32]) -> Vec<u32> {
    let n = window.len();
    let mut input: Vec<Complex<f32>> = window
        .iter()
        .enumerate()
        .map(|(i, &sample)| {
            let angle = 2.0 * std::f32::consts::PI * i as f32 / (n - 1) as f32;
            Complex::new(sample * 0.5 * (1.0 - angle.cos()), 0.0)
        })
        .collect();
    FftPlanner::new().plan_fft_forward(n).process(&mut input);
    input
        .iter()
        .take(n / 2)
        .map(|c| (c.norm() / n as f32 * 2.0 * 1_000_000.0).round() as u32)
        .collect()
}

fn logarithmic_edges(config: &AudioVisualizerConfig, resolution: f32) -> Vec<(usize, usize)> {
    let low = (config.min_freq as f32 / 1000.0).ln();
    let range = (config.max_freq as f32 / 1000.0).ln() - low;
    (0..config.num_bands)
        .map(|i| {
            let start = (low + i as f32 / config.num_bands as f32 * range).exp();
            let end = (low + (i + 1) as f32 / config.num_bands as f32 * range).exp();
            ((start / resolution) as usize, (end / resolution) as usize)
        })
        .collect()
}

fn millidecibels(scaled: u64) -> i32 {
    let db = 20.0 * (scaled as f64 / 1_000_000.0 + 1e-10).log10();
    (db * 1000.0).round() as i32
}

#[test]
fn frequency_resolution_at_48_khz() {
    let resolution = SAMPLE_RATE as f32 / FFT_SIZE as f32;
    assert_eq!(resolution, 46.875);
    let config = AudioVisualizerConfig::default();
    assert_eq!(bin_bounds(&config, SAMPLE_RATE, FFT_SIZE / 2), Some((0, 426)));
}

#[test]
fn sine_at_1_khz_peaks_in_its_logarithmic_band() {
    let config = AudioVisualizerConfig {
        interpolate_bands: false,
        skip_non_processed: false,
        ..AudioVisualizerConfig::default()
    };
    let resolution = SAMPLE_RATE as f32 / FFT_SIZE as f32;
    let mut accumulator: SampleAccumulator<f32> = SampleAccumulator::new();
    accumulator.ingest(&sine_block(1000.0, FFT_SIZE));
    let window = accumulator.ready_window().unwrap();
    let spectrum = magnitude_spectrum(&window);
    assert_eq!(spectrum.len(), 512);
    let edges = logarithmic_edges(&config, resolution);
    let (min_bin, max_bin) = bin_bounds(&config, SAMPLE_RATE, spectrum.len()).unwrap();
    let bands = LogarithmicAnalyzer.compute_bands(&spectrum, &config, &edges, min_bin, max_bin);
    assert_eq!(bands.len(), 64);

    let expected = (0..64)
        .find(|&i| {
            let start = 20.0 * 1000f32.powf(i as f32 / 64.0);
            let end = 20.0 * 1000f32.powf((i + 1) as f32 / 64.0);
            start <= 1000.0 && 1000.0 < end
        })
        .unwrap();
    assert_eq!(expected, 36);
    let peak = bands[expected];
    assert!(peak > 250_000, "peak {}", peak);
    for (i, &band) in bands.iter().enumerate() {
        if i != expected {
            assert!(band * 10 < peak, "band {} holds {} against a peak of {}", i, band, peak);
        }
        if i + 3 < expected || i > expected + 3 {
            assert!(band * 500 < peak, "band {} holds {} against a peak of {}", i, band, peak);
        }
    }
}

#[test]
fn sine_at_1_khz_reaches_the_wire() {
    let config = AudioVisualizerConfig::default();
    let resolution = SAMPLE_RATE as f32 / FFT_SIZE as f32;
    let mut processor = AudioProcessor::new(config, SAMPLE_RATE);
    let mut accumulator: SampleAccumulator<f32> = SampleAccumulator::new();
    let edges = logarithmic_edges(&config, resolution);
    let block = sine_block(1000.0, 4800);
    for chunk in block.chunks(480) {
        accumulator.ingest(chunk);
        if let Some(window) = accumulator.ready_window() {
            let spectrum = magnitude_spectrum(&window);
            match processor.compute_bands(&spectrum, &edges) {
                Some(AmplitudeStep::Decibel(scaled)) => {
                    let levels: Vec<i32> = scaled.iter().map(|&v| millidecibels(v)).collect();
                    processor.smooth_decibels(&scaled, &levels);
                }
                Some(AmplitudeStep::Smoothed) => panic!("decibel amplitude is configured"),
                None => panic!("the default range holds bins"),
            }
        }
    }
    let bands = processor.get_bands();
    assert_eq!(bands.len(), 64);
    let loudest = (0..64).max_by_key(|&i| bands[i]).unwrap();
    assert_eq!(loudest, 36);
    assert!(bands.iter().all(|&b| b <= 1_000_000));

    let packet = CompactAudioPacket::new(&bands, processor.get_interpolated_log(), 1_700_000_000);
    let decoded = CompactAudioPacket::from_bytes(&packet.to_bytes()).unwrap();
    assert_eq!(decoded.num_bands(), 64);
    assert_eq!(decoded.flags(), 1);
    assert_eq!(decoded.timestamp(), 1_700_000_000);
    let loudest_byte = (0..64).max_by_key(|&i| decoded.bands()[i]).unwrap();
    assert_eq!(loudest_byte, 36);
    for (i, &byte) in decoded.bands().iter().enumerate() {
        let error = (byte as i64 * 1_000_000 - bands[i] as i64 * 255).abs();
        assert!(error <= 500_000);
    }
}
