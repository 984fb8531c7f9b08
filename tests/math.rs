use std::f64::consts::PI;

#[test]
fn test_expected_middle_c_calculation() {
    let midi_note = 60;
    let expected_freq = 440.0 * 2.0_f64.powf((midi_note as f64 - 69.0) / 12.0);
    assert!((expected_freq - 261.63).abs() < 0.1, "MIDI note 60 should be ~261.63 Hz");

    let coarse_0_freq = expected_freq * 0.5;
    assert!((coarse_0_freq - 130.81).abs() < 1.0, "Coarse 0 should be ~130.81 Hz");
}

#[test]
fn test_sine_wave_samples() {
    let frequency = 261.63;
    let sample_rate = 44100.0;
    let amplitude = 0.5;

    for i in 0..10 {
        let t = i as f64 / sample_rate;
        let sample = amplitude * (2.0 * PI * frequency * t).sin();
        println!("Sample {}: t={:.6}s, value={:.6}", i, t, sample);
    }

    let period_samples = sample_rate / frequency;
    println!("Complete cycle every {:.1} samples", period_samples);
}

#[test]
fn test_phase_increment_calculation() {
    let freq_hz = 130.30;
    let sample_rate = 44100.0;

    let phase_inc = ((freq_hz * 65536.0) / sample_rate) as i32;

    assert!(phase_inc >= 190 && phase_inc <= 200, "Phase increment should be ~193");
}

#[test]
fn test_basic_frequency_calculation() {
    let expected_base_freq = 440.0 * 2.0_f64.powf((60.0 - 69.0) / 12.0);
    assert!((expected_base_freq - 261.63).abs() < 0.1, "Base frequency calculation is wrong");

    let coarse_0_freq = expected_base_freq * 0.5;
    let coarse_1_freq = expected_base_freq * 1.0;

    assert!((coarse_0_freq - 130.81).abs() < 1.0, "Coarse 0 frequency wrong");
    assert!((coarse_1_freq - 261.63).abs() < 1.0, "Coarse 1 frequency wrong");
}

#[test]
fn test_expected_vs_actual() {
    let expected_freq = 261.63;
    let sample_rate = 44100.0;

    for i in 0..5 {
        let t = i as f64 / sample_rate;
        let expected = 0.5 * (2.0 * PI * expected_freq * t).sin();
        println!("Sample {}: {:.6}", i, expected);
    }
}

fn simple_sine() {
    let sample_rate = 44100.0;
    let frequency = 261.63;
    let amplitude = 0.5;
    for i in 0..10 {
        let t = i as f64 / sample_rate;
        let sample = amplitude * (2.0 * PI * frequency * t).sin();
        println!("Sample {}: t={:.6}s, value={:.6}", i, t, sample);
    }
    println!("Expected period: {:.1} samples", sample_rate / frequency);
}

fn dx7_frequency_calc() {
    let base_freq = 440.0 * 2.0_f64.powf((60.0 - 69.0) / 12.0);
    for (desc, ratio) in [("0 (0.5x)", 0.5), ("1 (1.0x)", 1.0), ("2 (2.0x)", 2.0), ("3 (3.0x)", 3.0)].iter() {
        println!("Coarse {}: {:.2} Hz", desc, base_freq * ratio);
    }
}

#[test]
fn test_all() {
    simple_sine();
    dx7_frequency_calc();
}
