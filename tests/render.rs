use dx7tv::sysex::{pack_voice_data, parse_sysex_message, unpack_voice_data, Dx7Patch, SysexError};
use dx7tv::synth::{Dx7Synth, RenderError, FULL_SCALE, SILENCE_THRESHOLD};

const RATE: u32 = 48000;

fn sine_patch(alg: u8) -> Dx7Patch {
    let mut patch = Dx7Patch::new("SINE");
    patch.global.algorithm = alg;
    let op = &mut patch.operators[0];
    op.rates.attack = 99;
    op.rates.decay1 = 99;
    op.rates.decay2 = 99;
    op.rates.release = 99;
    op.levels.attack = 99;
    op.levels.decay1 = 99;
    op.levels.decay2 = 99;
    op.levels.release = 0;
    op.output_level = 99;
    op.coarse_freq = 1;
    op.fine_freq = 0;
    op.detune = 7;
    patch
}

fn render(patch: Dx7Patch, note: u8, gate: usize, cap: usize) -> Vec<i32> {
    let mut synth = Dx7Synth::new(RATE, cap);
    synth.load_patch(patch).unwrap();
    synth.render_note(note, 127, gate).unwrap()
}

fn to_float(v: &[i32]) -> Vec<f64> {
    v.iter().map(|&s| s as f64 / FULL_SCALE as f64).collect()
}

fn rising_crossings(v: &[f64]) -> usize {
    v.windows(2).filter(|w| w[0] < 0.0 && w[1] >= 0.0).count()
}

fn magnitude_at(v: &[f64], freq: f64) -> f64 {
    let w = 2.0 * std::f64::consts::PI * freq / RATE as f64;
    let (mut re, mut im) = (0.0, 0.0);
    for (n, &x) in v.iter().enumerate() {
        re += x * (w * n as f64).cos();
        im -= x * (w * n as f64).sin();
    }
    (re * re + im * im).sqrt() / v.len() as f64
}

#[test]
fn pure_sine_is_440_hz() {
    let out = render(sine_patch(31), 69, RATE as usize, 3 * RATE as usize);
    let f = to_float(&out[..RATE as usize]);
    let crossings = rising_crossings(&f);
    assert!((438..=442).contains(&crossings), "crossings {}", crossings);
    let peak = magnitude_at(&f, 440.0);
    for probe in [220.0, 660.0, 880.0, 1320.0, 2000.0] {
        assert!(magnitude_at(&f, probe) < peak * 0.01, "content at {}", probe);
    }
}

#[test]
fn coarse_two_doubles_the_pitch() {
    let mut patch = sine_patch(31);
    patch.operators[0].coarse_freq = 2;
    let out = render(patch, 60, RATE as usize, 3 * RATE as usize);
    let f = to_float(&out[..RATE as usize]);
    let crossings = rising_crossings(&f) as f64;
    assert!((crossings - 523.26).abs() <= 3.0, "crossings {}", crossings);
}

#[test]
fn an_octave_up_doubles_the_frequency() {
    let low = render(sine_patch(31), 57, RATE as usize, 3 * RATE as usize);
    let high = render(sine_patch(31), 69, RATE as usize, 3 * RATE as usize);
    let a = rising_crossings(&to_float(&low[..RATE as usize])) as f64;
    let b = rising_crossings(&to_float(&high[..RATE as usize])) as f64;
    assert!((b / a - 2.0).abs() < 0.01, "{} {}", a, b);
}

#[test]
fn two_operator_fm_has_sidebands() {
    let mut patch = sine_patch(4);
    let m = &mut patch.operators[1];
    m.rates.attack = 99;
    m.rates.decay1 = 99;
    m.rates.decay2 = 99;
    m.rates.release = 99;
    m.levels.attack = 99;
    m.levels.decay1 = 99;
    m.levels.decay2 = 99;
    m.levels.release = 0;
    m.output_level = 70;
    m.coarse_freq = 2;
    m.detune = 7;
    let out = render(patch, 69, RATE as usize, 3 * RATE as usize);
    let f = to_float(&out[..RATE as usize]);
    let peaks: Vec<f64> = [440.0, 1320.0, 2200.0].iter().map(|&h| magnitude_at(&f, h)).collect();
    let top = peaks.iter().cloned().fold(0.0, f64::max);
    for p in &peaks {
        assert!(*p > top * 0.01, "{:?}", peaks);
    }
}

#[test]
fn feedback_spreads_the_spectrum() {
    let mut patch = Dx7Patch::new("FEEDBACK");
    patch.global.algorithm = 6;
    patch.global.feedback = 7;
    let op = &mut patch.operators[5];
    op.rates.attack = 99;
    op.levels.attack = 99;
    op.levels.decay1 = 99;
    op.levels.decay2 = 99;
    op.output_level = 99;
    op.coarse_freq = 1;
    op.detune = 7;
    patch.operators[4] = patch.operators[5];
    let c = &mut patch.operators[2];
    c.rates.attack = 99;
    c.levels.attack = 99;
    c.levels.decay1 = 99;
    c.levels.decay2 = 99;
    c.output_level = 99;
    c.coarse_freq = 1;
    c.detune = 7;
    let out = render(patch, 69, RATE as usize, 3 * RATE as usize);
    let f = to_float(&out[..RATE as usize / 2]);
    let harmonics: Vec<f64> = (1..=18).map(|k| magnitude_at(&f, 440.0 * k as f64)).collect();
    let top = harmonics.iter().cloned().fold(0.0, f64::max);
    let strong = harmonics.iter().filter(|&&m| m > top * 0.003).count();
    assert!(strong >= 10, "{:?}", harmonics);
}

#[test]
fn detuned_carriers_stay_near_440() {
    let mut patch = sine_patch(31);
    patch.operators[1] = patch.operators[0];
    patch.operators[1].detune = 8;
    let out = render(patch, 69, 2 * RATE as usize, 3 * RATE as usize);
    let f = to_float(&out[..2 * RATE as usize]);
    let crossings = rising_crossings(&f) as f64 / 2.0;
    assert!((crossings - 440.0).abs() <= 5.0, "{}", crossings);
}

#[test]
fn envelope_peaks_early_and_dies_away() {
    let mut patch = sine_patch(31);
    let op = &mut patch.operators[0];
    op.rates.attack = 90;
    op.rates.decay1 = 70;
    op.rates.decay2 = 60;
    op.rates.release = 50;
    op.levels.attack = 99;
    op.levels.decay1 = 80;
    op.levels.decay2 = 60;
    op.levels.release = 0;
    let out = render(patch, 60, RATE as usize, 3 * RATE as usize);
    assert!(out.len() <= 3 * RATE as usize);
    let f = to_float(&out);
    let win = RATE as usize / 20;
    let rms: Vec<f64> = f.chunks(win).map(|c| (c.iter().map(|x| x * x).sum::<f64>() / c.len() as f64).sqrt()).collect();
    let peak = rms.iter().enumerate().fold((0, 0.0), |a, (i, &r)| if r > a.1 { (i, r) } else { a }).0;
    assert!(peak * win < RATE as usize / 5, "peak window {}", peak);
    assert!(rms[rms.len() - 1] < rms[peak] * 0.01);
}

#[test]
fn every_sample_is_in_range_and_within_the_cap() {
    for alg in [0u8, 4, 6, 15, 31] {
        for note in [0u8, 60, 127] {
            let mut patch = sine_patch(alg);
            patch.global.feedback = 7;
            for k in 1..6 {
                patch.operators[k] = patch.operators[0];
            }
            let out = render(patch, note, 2400, 24000);
            assert!(out.len() >= 2400 && out.len() <= 24000);
            assert!(out.iter().all(|&s| -FULL_SCALE <= s && s < FULL_SCALE));
        }
    }
}

#[test]
fn rendering_is_deterministic() {
    let a = render(sine_patch(4), 64, 4800, 48000);
    let b = render(sine_patch(4), 64, 4800, 48000);
    assert_eq!(a, b);
}

#[test]
fn zero_output_levels_are_silent() {
    let mut patch = sine_patch(31);
    patch.operators[0].output_level = 0;
    let out = render(patch, 69, 4800, 48000);
    assert!(out.iter().all(|&s| s.abs() <= SILENCE_THRESHOLD));
}

#[test]
fn release_reaches_silence_before_the_cap() {
    let out = render(sine_patch(31), 69, 4800, 10 * RATE as usize);
    assert!(out.len() < 10 * RATE as usize);
    let tail = &out[out.len() - 100..];
    assert!(tail.iter().all(|&s| s.abs() <= SILENCE_THRESHOLD));
}

#[test]
fn render_errors() {
    let mut synth = Dx7Synth::new(RATE, 48000);
    assert_eq!(synth.render_note(60, 100, 480), Err(RenderError::NoPatch));
    synth.load_patch(sine_patch(31)).unwrap();
    assert_eq!(synth.current_patch_name(), Some("SINE"));
    assert_eq!(synth.render_note(128, 100, 480), Err(RenderError::InvalidMidiNote));
    assert_eq!(synth.render_note(60, 128, 480), Err(RenderError::InvalidVelocity));
    assert_eq!(synth.render_note(60, 100, 0), Err(RenderError::InvalidDuration));
    assert_eq!(synth.render_note(60, 100, 48001), Err(RenderError::InvalidDuration));
    assert!(synth.render_note(60, 100, 480).is_ok());
}

#[test]
fn synth_creation() {
    let synth = Dx7Synth::new(44100, 441000);
    assert_eq!(synth.sample_rate(), 44100);
    assert_eq!(synth.max_length_samples(), 441000);
}

#[test]
fn patch_loading() {
    let mut synth = Dx7Synth::new(44100, 44100);
    let mut patch_data = [0u8; 155];
    patch_data[145..155].copy_from_slice(b"TEST PATCH");
    patch_data[134] = 5;
    patch_data[137] = 50;
    let patch = Dx7Patch::from_data(&patch_data).unwrap();
    assert_eq!(patch.name, "TEST PATCH");
    synth.load_patch(patch).unwrap();
    assert_eq!(synth.current_patch_name(), Some("TEST PATCH"));
}

#[test]
fn blank_name_reads_as_init_voice() {
    let data = [0u8; 155];
    let patch = Dx7Patch::from_data(&data).unwrap();
    assert_eq!(patch.name, "INIT VOICE");
    let mut padded = [0u8; 155];
    padded[145..155].copy_from_slice(b"  BRASS \0\0");
    assert_eq!(Dx7Patch::from_data(&padded).unwrap().name, "BRASS");
}

#[test]
fn short_voice_is_refused() {
    assert!(matches!(Dx7Patch::from_data(&[0u8; 154]), Err(SysexError::VoiceTooShort)));
}

#[test]
fn pack_then_unpack_gives_the_voice_back() {
    let mut voice = [0u8; 155];
    for op in 0..6 {
        let b = op * 21;
        for i in 0..11 {
            voice[b + i] = (op * 11 + i) as u8;
        }
        voice[b + 11] = 2;
        voice[b + 12] = 3;
        voice[b + 13] = 5;
        voice[b + 14] = 1;
        voice[b + 15] = 6;
        voice[b + 16] = 99;
        voice[b + 17] = 1;
        voice[b + 18] = 17;
        voice[b + 19] = 42;
        voice[b + 20] = 9;
    }
    for i in 126..142 {
        voice[i] = i as u8;
    }
    voice[145..155].copy_from_slice(b"E.PIANO  1");
    voice[142..145].copy_from_slice(b"E.P");
    let packed = pack_voice_data(&voice).unwrap();
    assert_eq!(packed.len(), 128);
    assert_eq!(packed[11], 2 | (3 << 2));
    let unpacked = unpack_voice_data(&packed).unwrap();
    assert_eq!(unpacked, voice.to_vec());
}

#[test]
fn sysex_message_errors() {
    assert_eq!(parse_sysex_message(&[0xF0, 0x43, 0, 0, 0xF7]).err(), Some(SysexError::MessageTooShort));
    assert_eq!(parse_sysex_message(&[0xF1, 0x43, 0, 0, 0, 0xF7]).err(), Some(SysexError::InvalidStart));
    assert_eq!(parse_sysex_message(&[0xF0, 0x43, 0, 0, 0, 0xF6]).err(), Some(SysexError::InvalidEnd));
    assert_eq!(parse_sysex_message(&[0xF0, 0x41, 0, 0, 0, 0xF7]).err(), Some(SysexError::NotYamaha));
    assert_eq!(parse_sysex_message(&[0xF0, 0x43, 0, 0, 0, 0xF7]).err(), Some(SysexError::SingleVoiceTooShort));
    assert_eq!(parse_sysex_message(&[0xF0, 0x43, 0, 9, 0, 0xF7]).err(), Some(SysexError::BankTooShort));
    assert_eq!(parse_sysex_message(&[0xF0, 0x43, 0, 5, 0, 0xF7]).err(), Some(SysexError::UnsupportedFormat(5)));
    let mut single = vec![0xF0, 0x43, 0, 0, 0x01, 0x1B];
    let mut voice = [0u8; 155];
    voice[145..155].copy_from_slice(b"SINGLE    ");
    single.extend_from_slice(&voice);
    single.push(0);
    single.push(0xF7);
    let patches = parse_sysex_message(&single).unwrap();
    assert_eq!(patches.len(), 1);
    assert_eq!(patches[0].name, "SINGLE");
    let mut bank = vec![0xF0, 0x43, 0, 9, 0x20, 0x00];
    bank.extend(std::iter::repeat(0u8).take(4096));
    bank.push(0);
    bank.push(0xF7);
    assert_eq!(parse_sysex_message(&bank).unwrap().len(), 32);
    assert_eq!(dx7tv::sysex::parse_sysex_data(&[0xF0, 0x43]).err(), Some(SysexError::Unterminated));
    assert_eq!(dx7tv::sysex::parse_sysex_data(&[1, 2, 3]).err(), Some(SysexError::NoPatches));
}

#[test]
fn test_render_note() {
    let mut synth = Dx7Synth::new(44100, 4410);

    let mut patch = Dx7Patch::new("TEST PATCH");
    patch.global.algorithm = 0;
    patch.operators[0].rates.attack = 50;
    patch.operators[0].rates.decay1 = 50;
    patch.operators[0].rates.decay2 = 50;
    patch.operators[0].rates.release = 30;
    patch.operators[0].levels.attack = 99;
    patch.operators[0].levels.decay1 = 90;
    patch.operators[0].levels.decay2 = 80;
    patch.operators[0].levels.release = 0;
    patch.operators[0].output_level = 80;
    patch.operators[0].coarse_freq = 1;
    patch.operators[0].fine_freq = 0;
    patch.operators[0].detune = 7;

    synth.load_patch(patch).unwrap();

    let samples = synth.render_note(60, 100, 441).unwrap();

    assert!(!samples.is_empty());
    assert!(samples.len() >= 441 && samples.len() <= 4410);

    for &sample in &samples {
        let x = sample as f32 / FULL_SCALE as f32;
        assert!(x >= -1.0 && x <= 1.0);
        assert!(x.is_finite());
    }
}

#[test]
fn patch_survives_writing_and_reading() {
    let mut patch = sine_patch(7);
    patch.operators[2].amp_mod_sens = 1;
    patch.operators[2].level_scaling_lc = 2;
    patch.operators[2].level_scaling_rc = 3;
    patch.operators[2].rate_scaling = 5;
    patch.operators[2].velocity_sens = 6;
    patch.operators[2].osc_mode = 1;
    patch.operators[2].coarse_freq = 17;
    patch.operators[2].detune = 12;
    patch.global.feedback = 5;
    patch.global.pitch_eg_rate = [1, 2, 3, 4];
    let back = Dx7Patch::from_data(&patch.to_data()).unwrap();
    assert_eq!(back.operators, patch.operators);
    assert_eq!(back.global.pitch_eg_rate, patch.global.pitch_eg_rate);
    assert_eq!(back.global.feedback, 5);
    assert_eq!(back.name, "SINE");
}
