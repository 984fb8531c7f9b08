//! DX7 unit conversions in integer arithmetic: velocity, rate and keyboard
//! level scaling, output levels and operator pitch in log2 frequency.
use vstd::prelude::*;
use crate::env::{Env, scale_outlevel_spec};

verus! {

/// Velocity response curve, indexed by velocity / 2.
pub const VELOCITY_DATA: [u8; 64] = [
    0, 70, 86, 97, 106, 114, 121, 126, 132, 138, 142, 148, 152, 156, 160, 163,
    166, 170, 173, 174, 178, 181, 184, 186, 189, 190, 194, 196, 198, 200, 202,
    205, 206, 209, 211, 214, 216, 218, 220, 222, 224, 225, 227, 229, 230, 232,
    233, 235, 237, 238, 240, 241, 242, 243, 244, 246, 246, 248, 249, 250, 251,
    252, 253, 254,
];

/// Exponential keyboard scaling curve, indexed by distance in thirds of an
/// octave from the break point.
pub const EXP_SCALE_DATA: [u8; 33] = [
    0, 1, 2, 3, 4, 5, 6, 7, 8, 9, 11, 14, 16, 19, 23, 27, 33, 39, 47, 56, 66,
    80, 94, 110, 126, 142, 158, 174, 190, 206, 222, 238, 250,
];

/// Coarse frequency ratios in Q24 log2 units: 0.5, 1, 2, 3, ... 31.
pub const COARSE_MUL: [i32; 32] = [
    -16777216, 0, 16777216, 26591258, 33554432, 38955489, 43368474, 47099600,
    50331648, 53182516, 55732705, 58039632, 60145690, 62083076, 63876816,
    65546747, 67108864, 68576247, 69959732, 71268397, 72509921, 73690858,
    74816848, 75892776, 76922906, 77910978, 78860292, 79773775, 80654032,
    81503396, 82323963, 83117622,
];

/// log2(1 + fine / 100) in Q24 for each fine frequency setting.
pub const FINE_LOG: [i32; 100] = [
    0, 240841, 479310, 715453, 949314, 1180936, 1410364, 1637637, 1862796, 2085879,
    2306926, 2525972, 2743053, 2958205, 3171461, 3382854, 3592418, 3800182, 4006178, 4210436,
    4412984, 4613852, 4813066, 5010655, 5206643, 5401057, 5593921, 5785262, 5975101, 6163463,
    6350371, 6535846, 6719911, 6902586, 7083894, 7263853, 7442484, 7619806, 7795839, 7970601,
    8144110, 8316384, 8487441, 8657297, 8825969, 8993475, 9159829, 9325047, 9489145, 9652139,
    9814042, 9974869, 10134634, 10293352, 10451036, 10607700, 10763356, 10918017, 11071696, 11224406,
    11376158, 11526965, 11676838, 11825789, 11973828, 12120968, 12267219, 12412591, 12557095, 12700742,
    12843541, 12985503, 13126637, 13266953, 13406460, 13545167, 13683084, 13820220, 13956583, 14092183,
    14227027, 14361123, 14494481, 14627109, 14759013, 14890202, 15020685, 15150467, 15279558, 15407964,
    15535692, 15662749, 15789143, 15914881, 16039968, 16164413, 16288221, 16411399, 16533953, 16655890,
];

/// log2 of the frequency of MIDI note 0 in Q24: (log2(440) - 69/12) · 2^24.
pub const LOGFREQ_NOTE_ZERO: i32 = 50857777;

/// One semitone in Q24 log2 units.
pub const LOGFREQ_SEMITONE: i32 = 1398101;

/// One detune step in Q24 log2 units.
pub const DETUNE_STEP: i32 = 13457;

/// Output-level offset from velocity: the response curve at the velocity
/// (clamped to [0, 127]), less 239, times the sensitivity / 8, in steps of 16.
pub open spec fn scale_velocity_spec(velocity: int, sensitivity: int) -> int {
    let v = if velocity < 0 {
        0
    } else if velocity > 127 {
        127
    } else {
        velocity
    };
    let value = VELOCITY_DATA@[v / 2] as int - 239;
    ((((sensitivity * value + 7) as i32) >> 3i32) as int) * 16
}

/// Rate offset from the note: the note in thirds of an octave above 21
/// (clamped to [0, 31]) times the sensitivity / 8.
pub open spec fn scale_rate_spec(midinote: int, sensitivity: int) -> int {
    let x = midinote / 3 - 7;
    let c = if x < 0 {
        0
    } else if x > 31 {
        31
    } else {
        x
    };
    sensitivity * c / 8
}

/// Level offset of one side of the keyboard: linear curves (0, 3) grow with
/// the distance, exponential ones (1, 2) follow the table; curves 0 and 1
/// lower the level, 2 and 3 raise it.
pub open spec fn scale_curve_spec(group: int, depth: int, curve: int) -> int {
    let scale = if curve == 0 || curve == 3 {
        group * depth * 329 / 4096
    } else {
        EXP_SCALE_DATA@[if group > 32 {
            32
        } else {
            group
        }] as int * depth * 329 / 32768
    };
    if curve < 2 {
        -scale
    } else {
        scale
    }
}

/// Keyboard level scaling: the curve of the side of the break point (plus
/// 17 semitones) the note falls on, at its distance in thirds of an octave.
pub open spec fn scale_level_spec(
    midinote: int,
    break_pt: int,
    left_depth: int,
    right_depth: int,
    left_curve: int,
    right_curve: int,
) -> int {
    let offset = midinote - break_pt - 17;
    if offset >= 0 {
        scale_curve_spec((offset + 1) / 3, right_depth, right_curve)
    } else {
        scale_curve_spec((1 - offset) / 3, left_depth, left_curve)
    }
}

/// log2 of an operator's frequency in Q24: in ratio mode (0) the note's
/// pitch plus the coarse ratio, the fine ratio and the detune; in fixed mode
/// 10^((coarse & 3) + fine / 100) Hz, raised by the detune above its centre.
pub open spec fn osc_freq_spec(midinote: int, mode: int, coarse: int, fine: int, detune: int) -> int {
    if mode == 0 {
        LOGFREQ_NOTE_ZERO + LOGFREQ_SEMITONE * midinote + COARSE_MUL@[coarse % 32] as int
            + FINE_LOG@[fine] as int + DETUNE_STEP * (detune - 7)
    } else {
        4458616 * ((coarse % 4) * 100 + fine) / 8 + if detune > 7 {
            DETUNE_STEP * (detune - 7)
        } else {
            0
        }
    }
}

/// The DX7 operator level in [0, 99] as a total-level complement in [0, 127].
pub open spec fn operator_level_spec(level: int) -> int {
    if level < 20 {
        if level < 15 {
            level * (36 - level) / 8
        } else {
            27 + level
        }
    } else {
        level + 28
    }
}

/// In ratio mode a note an octave up is exactly twelve semitone steps
/// higher in log2 frequency, whatever the operator's tuning.
pub proof fn lemma_octave_up(midinote: int, coarse: int, fine: int, detune: int)
    ensures
        osc_freq_spec(midinote + 12, 0, coarse, fine, detune) == osc_freq_spec(midinote, 0, coarse, fine, detune)
            + 12 * LOGFREQ_SEMITONE,
{
}

/// Output-level offset from velocity, in steps of 16.
pub fn scale_velocity(velocity: i32, sensitivity: i32) -> (r: i32)
    requires
        0 <= sensitivity <= 7,
    ensures
        r == scale_velocity_spec(velocity as int, sensitivity as int),
        -0xE00 <= r <= 0xE0,
{
    let clamped: i32 = if velocity < 0 {
        0
    } else if velocity > 127 {
        127
    } else {
        velocity
    };
    let value: i32 = VELOCITY_DATA[(clamped / 2) as usize] as i32 - 239;
    let t: i32 = sensitivity * value + 7;
    let q: i32 = t >> 3;
    assert(-0xE0 <= q <= 0xE) by (bit_vector)
        requires
            -1666 <= t <= 112,
            q == t >> 3i32,
    ;
    q * 16
}

/// Rate offset from the note, in [0, 27].
pub fn scale_rate(midinote: i32, sensitivity: i32) -> (r: i32)
    requires
        0 <= midinote <= 127,
        0 <= sensitivity <= 7,
    ensures
        r == scale_rate_spec(midinote as int, sensitivity as int),
        0 <= r <= 27,
{
    let x: i32 = midinote / 3 - 7;
    let c: i32 = if x < 0 {
        0
    } else if x > 31 {
        31
    } else {
        x
    };
    assert(0 <= sensitivity * c <= 217) by (nonlinear_arith)
        requires
            0 <= sensitivity <= 7,
            0 <= c <= 31,
    ;
    sensitivity * c / 8
}

/// Level offset of one side of the keyboard.
pub fn scale_curve(group: i32, depth: i32, curve: i32) -> (r: i32)
    requires
        0 <= group <= 127,
        0 <= depth <= 99,
        0 <= curve <= 3,
    ensures
        r == scale_curve_spec(group as int, depth as int, curve as int),
        -1010 <= r <= 1010,
{
    let scale: i32 = if curve == 0 || curve == 3 {
        assert(0 <= group * depth * 329 <= 127 * 99 * 329) by (nonlinear_arith)
            requires
                0 <= group <= 127,
                0 <= depth <= 99,
        ;
        group * depth * 329 / 4096
    } else {
        let g: i32 = if group > 32 {
            32
        } else {
            group
        };
        let e: i32 = EXP_SCALE_DATA[g as usize] as i32;
        assert(0 <= e * depth * 329 <= 255 * 99 * 329) by (nonlinear_arith)
            requires
                0 <= e <= 255,
                0 <= depth <= 99,
        ;
        e * depth * 329 / 32768
    };
    if curve < 2 {
        -scale
    } else {
        scale
    }
}

/// Keyboard level scaling of a note about a break point.
pub fn scale_level(
    midinote: i32,
    break_pt: i32,
    left_depth: i32,
    right_depth: i32,
    left_curve: i32,
    right_curve: i32,
) -> (r: i32)
    requires
        0 <= midinote <= 127,
        0 <= break_pt <= 99,
        0 <= left_depth <= 99,
        0 <= right_depth <= 99,
        0 <= left_curve <= 3,
        0 <= right_curve <= 3,
    ensures
        r == scale_level_spec(
            midinote as int,
            break_pt as int,
            left_depth as int,
            right_depth as int,
            left_curve as int,
            right_curve as int,
        ),
        -1010 <= r <= 1010,
{
    let offset: i32 = midinote - break_pt - 17;
    if offset >= 0 {
        scale_curve((offset + 1) / 3, right_depth, right_curve)
    } else {
        scale_curve((1 - offset) / 3, left_depth, left_curve)
    }
}

/// The scaled output level of a DX7 level in [0, 99].
pub fn scale_out_level(outlevel: i32) -> (r: i32)
    requires
        0 <= outlevel <= 99,
    ensures
        r == scale_outlevel_spec(outlevel as int),
        0 <= r <= 127,
{
    proof {
        if outlevel < 20 {
            assert(0 <= crate::env::level_lut()[outlevel as int] <= 46);
        }
    }
    Env::scale_outlevel(outlevel)
}

/// log2 of an operator's frequency in Q24, in [0, 2^29).
pub fn osc_freq(midinote: i32, mode: i32, coarse: i32, fine: i32, detune: i32) -> (r: i32)
    requires
        0 <= midinote <= 127,
        0 <= coarse <= 31,
        0 <= fine <= 99,
        0 <= detune <= 14,
    ensures
        r == osc_freq_spec(midinote as int, mode as int, coarse as int, fine as int, detune as int),
        0 <= r < 0x2000_0000,
{
    if mode == 0 {
        let c: i32 = COARSE_MUL[(coarse % 32) as usize];
        let f: i32 = FINE_LOG[fine as usize];
        assert(-16777216 <= c <= 83117622);
        assert(0 <= f <= 16655890);
        LOGFREQ_NOTE_ZERO + LOGFREQ_SEMITONE * midinote + c + f + DETUNE_STEP * (detune - 7)
    } else {
        let base: i32 = 4458616 * ((coarse % 4) * 100 + fine) / 8;
        if detune > 7 {
            base + DETUNE_STEP * (detune - 7)
        } else {
            base
        }
    }
}

/// The DX7 operator level as a total-level complement.
pub fn operator_level(level: i32) -> (r: i32)
    requires
        0 <= level <= 99,
    ensures
        r == operator_level_spec(level as int),
        0 <= r <= 127,
{
    if level < 20 {
        if level < 15 {
            assert(0 <= level * (36 - level) <= 15 * 36) by (nonlinear_arith)
                requires
                    0 <= level < 15,
            ;
            level * (36 - level) / 8
        } else {
            27 + level
        }
    } else {
        level + 28
    }
}

} // verus!
