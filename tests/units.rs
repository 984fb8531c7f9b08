use dx7tv::constants::N;
use dx7tv::controllers::Controllers;
use dx7tv::env::Env;
use dx7tv::exp2::Exp2;
use dx7tv::fm_op_kernel::FmOpKernel;
use dx7tv::freqlut::{Freqlut, FREQLUT_N_SAMPLES};
use dx7tv::pitchenv::{PitchEnv, PITCH_LEVELS};
use dx7tv::sin::Sin;
use dx7tv::sysex::{parse_sysex_data, Dx7Patch};
use dx7tv::voice::{Dx7Note, FmOperator};

#[test]
fn test_controllers_creation() {
    let controllers = Controllers::new();
    assert_eq!(controllers.pitch_bend, 0x2000);
    assert_eq!(controllers.mod_wheel, 0);
    assert_eq!(controllers.volume, 100);
    assert_eq!(controllers.expression, 127);
}

#[test]
fn controllers_test_pitch_bend() {
    let mut controllers = Controllers::new();

    controllers.set_pitch_bend(0x3000);
    assert_eq!(controllers.pitch_bend, 0x3000);

    assert_eq!(controllers.get_pitch_bend_signed(), 0x1000);

    controllers.set_pitch_bend(0x2000);
    assert_eq!(controllers.get_pitch_bend_signed(), 0);

    controllers.set_pitch_bend(0x1000);
    assert_eq!(controllers.get_pitch_bend_signed(), -0x1000);
}

#[test]
fn test_reset() {
    let mut controllers = Controllers::new();

    controllers.set_mod_wheel(100);
    controllers.set_pitch_bend(0x3000);
    controllers.set_volume(50);

    controllers.reset();

    assert_eq!(controllers.pitch_bend, 0x2000);
    assert_eq!(controllers.mod_wheel, 0);
    assert_eq!(controllers.volume, 100);
}

#[test]
fn test_value_masking() {
    let mut controllers = Controllers::new();

    controllers.set_mod_wheel(0xFF);
    assert_eq!(controllers.mod_wheel, 0x7F);

    controllers.set_pitch_bend(0xFFFF);
    assert_eq!(controllers.pitch_bend, 0x3FFF);
}

#[test]
fn test_empty_data() {
    let result = parse_sysex_data(&[]);
    assert!(result.is_err());
}

#[test]
fn test_voice_creation() {
    let mut data = [0u8; 155];
    data[145..155].copy_from_slice(b"TEST VOICE");

    let patch = Dx7Patch::from_data(&data).unwrap();
    assert_eq!(patch.name, "TEST VOICE");
}

#[test]
fn test_operator_params() {
    let mut data = [0u8; 155];
    data[0] = 50;
    data[4] = 99;
    data[16] = 80;

    let patch = Dx7Patch::from_data(&data).unwrap();
    let op = patch.get_operator(0).unwrap();

    assert_eq!(op.rates.attack, 50);
    assert_eq!(op.levels.attack, 99);
    assert_eq!(op.output_level, 80);
}

#[test]
fn test_global_params() {
    let mut data = [0u8; 155];
    data[134] = 5;
    data[135] = 7;
    data[137] = 50;

    let patch = Dx7Patch::from_data(&data).unwrap();
    let global = patch.get_global();

    assert_eq!(global.algorithm, 5);
    assert_eq!(global.feedback, 7);
    assert_eq!(global.lfo_speed, 50);
}

#[test]
fn test_env_creation() {
    let env = Env::new();
    assert_eq!(env.get_position(), 0);
}

#[test]
fn test_env_init() {
    let mut env = Env::new();
    let rates = [50, 50, 50, 50];
    let levels = [99, 75, 50, 0];
    env.init(&rates, &levels, 99, 0);

    assert_eq!(env.get_position(), 0);
}

#[test]
fn test_scale_outlevel() {
    assert_eq!(Env::scale_outlevel(0), 0);
    assert_eq!(Env::scale_outlevel(19), 46);
    assert_eq!(Env::scale_outlevel(20), 48);
    assert_eq!(Env::scale_outlevel(99), 127);
}

#[test]
fn test_keydown() {
    let mut env = Env::new();
    let rates = [50, 50, 50, 50];
    let levels = [99, 75, 50, 0];
    env.init(&rates, &levels, 99, 0);

    env.keydown(true);
    assert_eq!(env.get_position(), 0);

    env.keydown(false);
    assert_eq!(env.get_position(), 3);
}

#[test]
fn test_pitchenv_creation() {
    let pitchenv = PitchEnv::new();
    assert_eq!(pitchenv.get_position(), 0);
}

#[test]
fn test_pitchenv_init() {
    let mut pitchenv = PitchEnv::new();
    let rates = [50, 50, 50, 50];
    let levels = [99, 50, 25, 0];
    pitchenv.init(&rates, &levels);
}

#[test]
fn test_exp2_lookup() {
    let result = Exp2::lookup(0);
    assert_eq!(result, 1 << 24);

    let result = Exp2::lookup(-1 << 24);
    assert_eq!(result, 1 << 23);
}

#[test]
fn test_freqlut_init() {
    let lut = Freqlut::init(44100);
    assert_ne!(lut.entry(0), 0);
    assert_ne!(lut.entry(FREQLUT_N_SAMPLES), 0);
}

#[test]
fn test_freqlut_lookup() {
    let lut = Freqlut::init(44100);

    let logfreq = 1 << 24;
    let phase_inc = lut.lookup(logfreq);

    assert_ne!(phase_inc, 0);
}

#[test]
fn test_freqlut_boundary() {
    let lut = Freqlut::init(44100);

    let zero_result = lut.lookup(0);
    assert_ne!(zero_result, 0);

    let large_result = lut.lookup(i32::MAX);
    let _ = large_result;
}

#[test]
fn test_compute_pure() {
    let sin = Sin::init();
    let mut output = vec![0i32; N];
    let phase0 = 0;
    let freq = 1 << 20;
    let gain1 = 1 << 24;
    let gain2 = 1 << 24;

    FmOpKernel::compute_pure(&sin, &mut output, phase0, freq, gain1, gain2, false);

    let has_nonzero = output.iter().any(|&x| x != 0);
    assert!(has_nonzero, "Expected at least one non-zero output sample");
}

#[test]
fn test_compute_with_modulation() {
    let sin = Sin::init();
    let mut output = vec![0i32; N];
    let input = vec![1 << 20; N];
    let phase0 = 0;
    let freq = 1 << 20;
    let gain1 = 1 << 24;
    let gain2 = 1 << 24;

    FmOpKernel::compute(&sin, &mut output, &input, phase0, freq, gain1, gain2, false);

    let has_nonzero = output.iter().any(|&x| x != 0);
    assert!(has_nonzero, "Expected at least one non-zero output sample");
}

#[test]
fn test_compute_fb() {
    let sin = Sin::init();
    let mut output = vec![0i32; N];
    let mut fb_buf = [0i32; 2];
    let phase0 = 0;
    let freq = 1 << 20;
    let gain1 = 1 << 24;
    let gain2 = 1 << 24;
    let fb_shift = 4;

    FmOpKernel::compute_fb(&sin, &mut output, phase0, freq, gain1, gain2, &mut fb_buf, fb_shift, false);

    let has_nonzero = output.iter().any(|&x| x != 0);
    assert!(has_nonzero, "Expected at least one non-zero output sample");

    assert_ne!(fb_buf[0], 0);
    assert_ne!(fb_buf[1], 0);
}

#[test]
fn test_add_mode() {
    let sin = Sin::init();
    let mut output = vec![100i32; N];
    let phase0 = 0;
    let freq = 1 << 20;
    let gain1 = 1 << 24;
    let gain2 = 1 << 24;

    let before: Vec<i32> = output.to_vec();
    FmOpKernel::compute_pure(&sin, &mut output, phase0, freq, gain1, gain2, true);

    let values_changed = output.iter().zip(before.iter()).any(|(&new, &old)| new != old);
    assert!(values_changed, "Expected some output values to be modified in add mode");
}

#[test]
fn test_zero_buffer() {
    let mut buffer = vec![42i32; N];
    FmOpKernel::zero_buffer(&mut buffer);

    for &sample in &buffer {
        assert_eq!(sample, 0);
    }
}

#[test]
fn test_scale_buffer() {
    let mut buffer = vec![1 << 24; N];
    let gain = 1 << 23;

    FmOpKernel::scale_buffer(&mut buffer, gain);

    for &sample in &buffer {
        assert_eq!(sample, 1 << 23);
    }
}

#[test]
fn test_sin_init() {
    let _sin = Sin::init();
}

#[test]
fn test_sin_lookup() {
    let sin = Sin::init();
    let phase = 1 << 22;
    let result = sin.lookup(phase);
    assert!(result > 0);
}

#[test]
fn test_sin_compute() {
    let phase = 1 << 22;
    let result = Sin::compute(phase);
    assert!(result > 0);
}

#[test]
fn test_operator_creation() {
    let op = FmOperator::new();
    assert!(op.enabled);
    assert_eq!(op.phase, 0);
    assert_eq!(op.freq, 0);
}

#[test]
fn test_dx7note_creation() {
    let note = Dx7Note::new();
    assert_eq!(note.operators.len(), 6);
    assert_eq!(note.note, 60);
    assert_eq!(note.velocity, 64);
    assert!(!note.active);
}

#[test]
fn test_note_init() {
    let mut note = Dx7Note::new();
    note.init(69, 100);

    assert_eq!(note.note, 69);
    assert_eq!(note.velocity, 100);
    assert!(note.active);
}

#[test]
fn test_note_release() {
    let mut note = Dx7Note::new();
    note.init(60, 64);
    assert!(note.active);

    note.release();
}

#[test]
fn test_algorithm() {
    let mut note = Dx7Note::new();
    note.set_algorithm(5);
    assert_eq!(note.algorithm, 5);

    note.set_algorithm(50);
    assert_eq!(note.algorithm, 31);
}

#[test]
fn pitch_levels_span_octaves() {
    assert_eq!(PITCH_LEVELS[50], 0);
    assert!((PITCH_LEVELS[82] - (1 << 24)).abs() < 1 << 17);
    assert!((PITCH_LEVELS[18] + (1 << 24)).abs() < 1 << 17);
    assert!(PITCH_LEVELS[99] > 3 << 24 && PITCH_LEVELS[0] < -(3 << 24));
}

#[test]
fn pitch_envelope_moves_to_its_first_level() {
    let mut env = PitchEnv::new();
    env.init(&[99, 99, 99, 99], &[99, 50, 50, 50]);
    let mut last = env.get_sample();
    assert!(last > 0);
    let mut steps = 0;
    while env.get_position() == 0 {
        let next = env.get_sample();
        assert!(next >= last);
        last = next;
        steps += 1;
        assert!(steps < 10000);
    }
    assert_eq!(env.get_position(), 1);
}
