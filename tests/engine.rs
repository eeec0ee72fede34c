use rustfft::num_complex::Complex;
use rustfft::FftPlanner;
use spectrogram::{
    frame_count, frame_windows, generate_spectrogram, normalization, saturate_channel,
    ConfigError, Normalization, ShapeError, Spectrogram, StftConfig, HOP_SIZE, WINDOW_SIZE,
};

fn sine(freq: f32, sample_rate: f32, len: usize) -> Vec<f32> {
    (0..len)
        .map(|i| (2.0 * std::f32::consts::PI * freq * i as f32 / sample_rate).sin())
        .collect()
}

fn fft_spectrogram(samples: &Vec<f32>) -> Spectrogram<f32> {
    let mut planner = FftPlanner::new();
    let fft = planner.plan_fft_forward(WINDOW_SIZE);
    generate_spectrogram(samples, &StftConfig::standard(), |window: Vec<f32>| {
        let mut buffer: Vec<Complex<f32>> = window.iter().map(|&x| Complex::new(x, 0.0)).collect();
        fft.process(&mut buffer);
        buffer.iter().map(|c| c.norm()).collect::<Vec<f32>>()
    })
    .unwrap()
}

fn peak_bin(spectrum: &Vec<f32>, bins: usize) -> usize {
    let mut best = 0;
    for b in 1..bins {
        if spectrum[b] > spectrum[best] {
            best = b;
        }
    }
    best
}

#[test]
fn config_standard_values() {
    let c = StftConfig::standard();
    assert_eq!(c.window_size, 1024);
    assert_eq!(c.hop_size, 512);
    assert_eq!(WINDOW_SIZE, 1024);
    assert_eq!(HOP_SIZE, 512);
    assert_eq!(c.visible_bins(), 512);
}

#[test]
fn config_validation() {
    assert_eq!(StftConfig::new(8, 4), Ok(StftConfig { window_size: 8, hop_size: 4 }));
    assert_eq!(StftConfig::new(8, 8), Ok(StftConfig { window_size: 8, hop_size: 8 }));
    assert_eq!(StftConfig::new(0, 4), Err(ConfigError::ZeroWindow));
    assert_eq!(StftConfig::new(8, 0), Err(ConfigError::ZeroHop));
    assert_eq!(StftConfig::new(8, 9), Err(ConfigError::HopExceedsWindow));
}

#[test]
fn frame_count_formula() {
    let c = StftConfig::standard();
    assert_eq!(frame_count(0, &c), 0);
    assert_eq!(frame_count(1023, &c), 0);
    assert_eq!(frame_count(1024, &c), 1);
    assert_eq!(frame_count(1535, &c), 1);
    assert_eq!(frame_count(1536, &c), 2);
    assert_eq!(frame_count(2560, &c), 4);
    assert_eq!(frame_count(88200, &c), 171);
}

#[test]
fn frame_windows_overlap() {
    let c = StftConfig::new(4, 2).unwrap();
    let samples: Vec<u32> = (0..10).collect();
    let w = frame_windows(&samples, &c);
    assert_eq!(
        w,
        vec![vec![0, 1, 2, 3], vec![2, 3, 4, 5], vec![4, 5, 6, 7], vec![6, 7, 8, 9]]
    );
    let samples: Vec<u32> = (0..9).collect();
    assert_eq!(frame_windows(&samples, &c).len(), 3);
}

#[test]
fn frame_windows_short_input_is_empty() {
    let c = StftConfig::standard();
    let samples = vec![0.5f32; 1023];
    assert!(frame_windows(&samples, &c).is_empty());
    let s = fft_spectrogram(&samples);
    assert_eq!(s.frame_count(), 0);
}

#[test]
fn engine_frame_count_and_shape() {
    let samples = sine(440.0, 44100.0, 5000);
    let s = fft_spectrogram(&samples);
    assert_eq!(s.frame_count(), (5000 - 1024) / 512 + 1);
    assert_eq!(s.window_size(), 1024);
    for i in 0..s.frame_count() {
        assert_eq!(s.frame(i).len(), 1024);
    }
}

#[test]
fn engine_rejects_wrong_spectrum_length() {
    let c = StftConfig::new(4, 2).unwrap();
    let samples: Vec<i32> = (0..10).collect();
    let r = generate_spectrogram(&samples, &c, |w: Vec<i32>| w[..3].to_vec());
    assert_eq!(r.err(), Some(ShapeError::SpectrumLength { frame: 0, len: 3 }));
}

#[test]
fn engine_applies_transform_per_window() {
    let c = StftConfig::new(4, 2).unwrap();
    let samples: Vec<i32> = (0..8).collect();
    let s = generate_spectrogram(&samples, &c, |w: Vec<i32>| w.iter().map(|x| x * 10).collect())
        .unwrap();
    assert_eq!(s.frame_count(), 3);
    assert_eq!(s.frame(1), &vec![20, 30, 40, 50]);
    assert_eq!(*s.get(2, 3), 70);
}

#[test]
fn magnitudes_are_non_negative() {
    let mut samples = sine(1234.0, 44100.0, 4096);
    for (i, x) in samples.iter_mut().enumerate() {
        *x -= (i % 7) as f32 * 0.1;
    }
    let s = fft_spectrogram(&samples);
    for i in 0..s.frame_count() {
        assert!(s.frame(i).iter().all(|&m| m >= 0.0));
    }
}

#[test]
fn sine_peak_at_expected_bin() {
    let samples = sine(1000.0, 8000.0, 8192);
    let s = fft_spectrogram(&samples);
    let expected = (1000.0f32 * 1024.0 / 8000.0).round() as usize;
    for i in 0..s.frame_count() {
        let p = peak_bin(s.frame(i), 512);
        assert!(p + 1 >= expected && p <= expected + 1);
    }
}

#[test]
fn two_second_440_hz_scenario() {
    let samples = sine(440.0, 44100.0, 88200);
    let s = fft_spectrogram(&samples);
    assert_eq!(s.frame_count(), 171);
    for i in 0..171 {
        assert_eq!(s.frame(i).len(), 1024);
        let p = peak_bin(s.frame(i), 512);
        assert!((9..=11).contains(&p));
    }
}

#[test]
fn engine_is_deterministic() {
    let samples = sine(440.0, 44100.0, 20000);
    let a = fft_spectrogram(&samples);
    let b = fft_spectrogram(&samples);
    assert_eq!(a.frame_count(), b.frame_count());
    for i in 0..a.frame_count() {
        let ab: Vec<u32> = a.frame(i).iter().map(|m| m.to_bits()).collect();
        let bb: Vec<u32> = b.frame(i).iter().map(|m| m.to_bits()).collect();
        assert_eq!(ab, bb);
    }
}

#[test]
fn spectrogram_push_checks_length() {
    let mut s: Spectrogram<u8> = Spectrogram::new(3);
    assert_eq!(s.push(vec![1, 2, 3]), Ok(()));
    assert_eq!(s.push(vec![1, 2]), Err(ShapeError::SpectrumLength { frame: 1, len: 2 }));
    assert_eq!(s.frame_count(), 1);
    assert_eq!(s.push(vec![4, 5, 6]), Ok(()));
    assert_eq!(s.frame(1), &vec![4, 5, 6]);
}

#[test]
fn normalization_cases() {
    assert_eq!(normalization(&vec![]), Normalization::Empty);
    assert_eq!(normalization(&vec![vec![], vec![]]), Normalization::Empty);
    assert_eq!(normalization(&vec![vec![7, 7], vec![], vec![7]]), Normalization::Flat { level: 7 });
    assert_eq!(
        normalization(&vec![vec![5, 9], vec![], vec![3, 4]]),
        Normalization::Spread { min: 3, max: 9 }
    );
}

#[test]
fn normalization_on_float_magnitudes() {
    let mags: Vec<Vec<f32>> = vec![vec![0.25, 12.5, 0.0], vec![3.0, 1e-3, 700.0]];
    let keys: Vec<Vec<u32>> =
        mags.iter().map(|r| r.iter().map(|m| m.to_bits()).collect()).collect();
    match normalization(&keys) {
        Normalization::Spread { min, max } => {
            assert_eq!(f32::from_bits(min), 0.0);
            assert_eq!(f32::from_bits(max), 700.0);
        }
        other => panic!("unexpected {:?}", other),
    }
}

#[test]
fn intensity_is_monotonic() {
    let mags: Vec<f32> = vec![0.0, 0.5, 2.0, 3.75, 10.0];
    let keys: Vec<Vec<u32>> = vec![mags.iter().map(|m| m.to_bits()).collect()];
    let (min, max) = match normalization(&keys) {
        Normalization::Spread { min, max } => (f32::from_bits(min), f32::from_bits(max)),
        other => panic!("unexpected {:?}", other),
    };
    let intensities: Vec<f32> = mags.iter().map(|m| (m - min) / (max - min)).collect();
    for w in intensities.windows(2) {
        assert!(w[0] <= w[1]);
    }
    assert_eq!(intensities[0], 0.0);
    assert_eq!(intensities[4], 1.0);
}

#[test]
fn color_channels_at_zero_and_one() {
    let channel = |base: f32, coef: f32, intensity: f32| {
        saturate_channel((base - coef * intensity * 255.0) as i64)
    };
    assert_eq!(channel(92.0, 5.0, 0.0), 92);
    assert_eq!(channel(22.0, 3.0, 0.0), 22);
    assert_eq!(channel(127.0, 10.0, 0.0), 127);
    assert_eq!((92.0f32 - 5.0 * 1.0 * 255.0) as i64, -1183);
    assert_eq!(channel(92.0, 5.0, 1.0), 0);
    assert_eq!(channel(22.0, 3.0, 1.0), 0);
    assert_eq!(channel(127.0, 10.0, 1.0), 0);
}

#[test]
fn saturate_channel_bounds() {
    assert_eq!(saturate_channel(-1183), 0);
    assert_eq!(saturate_channel(-1), 0);
    assert_eq!(saturate_channel(0), 0);
    assert_eq!(saturate_channel(200), 200);
    assert_eq!(saturate_channel(255), 255);
    assert_eq!(saturate_channel(256), 255);
    assert_eq!(saturate_channel(i64::MAX), 255);
}
