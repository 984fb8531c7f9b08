//! The operator kernels: one block of a sine oscillator with interpolated
//! gain, optionally phase-modulated by an input buffer or by its own output.
use vstd::prelude::*;
use crate::constants::N;
use crate::sin::{Sin, sin_lookup_spec};

verus! {

/// Wrapping 32-bit addition.
pub open spec fn wadd(a: i32, b: i32) -> i32 {
    vstd::wrapping::i32_specs::wrapping_add(a, b)
}

/// Phase after `k` samples at increment `freq`, wrapping modulo 2^32.
pub open spec fn phase_at(phase0: i32, freq: i32, k: nat) -> i32
    decreases k,
{
    if k == 0 {
        phase0
    } else {
        wadd(phase_at(phase0, freq, (k - 1) as nat), freq)
    }
}

/// Per-sample gain step that takes `gain1` to `gain2` over a block, rounded.
pub open spec fn gain_step(gain1: i32, gain2: i32) -> int {
    ((((gain2 as i64) - (gain1 as i64) + 32) as i64) >> 6i64) as int
}

/// Gain applied to sample `k` of a block (the step is taken before the
/// first sample).
pub open spec fn gain_at(gain1: i32, gain2: i32, k: int) -> int {
    gain1 + (k + 1) * gain_step(gain1, gain2)
}

/// A Q24 sine value scaled by a Q24 gain.
pub open spec fn scaled(y: int, gain: int) -> i32 {
    (((y * gain) as i64) >> 24i64) as i32
}

/// Sample `k` of a kernel's own output, modulated by `m` at that sample.
pub open spec fn op_sample(phase0: i32, freq: i32, gain1: i32, gain2: i32, m: i32, k: int) -> i32 {
    scaled(sin_lookup_spec(wadd(phase_at(phase0, freq, k as nat), m)), gain_at(gain1, gain2, k))
}

/// What a kernel leaves at one position of its output: its sample, added
/// to the old value or in place of it.
pub open spec fn mix(add: bool, old: i32, y: i32) -> i32 {
    if add {
        wadd(old, y)
    } else {
        y
    }
}

/// Feedback input for the next sample: the average of the last two outputs
/// shifted down by `shift`.
pub open spec fn fb_input(y0: i32, y1: i32, shift: i32) -> i32 {
    ((((y0 as i64) + (y1 as i64)) as i64) >> (shift as i64)) as i32
}

/// The shift a feedback level selects, clamped so that it is defined.
pub open spec fn fb_shift_amount(fb_shift: i32) -> i32 {
    if fb_shift + 1 < 31 {
        (fb_shift + 1) as i32
    } else {
        31
    }
}

/// The feedback taps after `k` samples of a feedback kernel that started
/// with taps (y0, y1): the last two sines, before the gain is applied.
pub open spec fn fb_taps(phase0: i32, freq: i32, fb_shift: i32, y0: i32, y1: i32, k: nat) -> (i32, i32)
    decreases k,
{
    if k == 0 {
        (y0, y1)
    } else {
        let (a, b) = fb_taps(phase0, freq, fb_shift, y0, y1, (k - 1) as nat);
        let m = fb_input(a, b, fb_shift_amount(fb_shift));
        (b, sin_lookup_spec(wadd(phase_at(phase0, freq, (k - 1) as nat), m)) as i32)
    }
}

/// Sample `k` of a feedback kernel: the sine it reaches there, scaled by
/// the gain.
pub open spec fn fb_sample(
    phase0: i32,
    freq: i32,
    gain1: i32,
    gain2: i32,
    fb_shift: i32,
    y0: i32,
    y1: i32,
    k: int,
) -> i32 {
    scaled(fb_taps(phase0, freq, fb_shift, y0, y1, (k + 1) as nat).1 as int, gain_at(gain1, gain2, k))
}

/// Parameters of one operator as the kernels see them.
#[derive(Clone, Copy, Debug)]
pub struct FmOpParams {
    /// Envelope level in (Q24 log2 units).
    pub level_in: i32,
    /// Gain reached at the end of the last block.
    pub gain_out: i32,
    /// Phase increment per sample (2^24 per cycle).
    pub freq: i32,
    /// Current phase.
    pub phase: i32,
}

/// The operator kernels.
pub struct FmOpKernel;

/// Gains the kernels accept: non-negative and at most 2^30.
pub open spec fn gain_ok(g: i32) -> bool {
    0 <= g <= 0x4000_0000
}

/// The interpolated gain stays between the two end gains, give or take the
/// rounding of the step.
proof fn lemma_gain_bounds(gain1: i32, gain2: i32, k: int)
    requires
        gain_ok(gain1),
        gain_ok(gain2),
        0 <= k < 64,
    ensures
        -0x100 <= gain_at(gain1, gain2, k) <= 0x4000_0100,
        gain_at(gain1, gain2, k) == gain1 + k * gain_step(gain1, gain2) + gain_step(gain1, gain2),
{
    let d = gain_step(gain1, gain2);
    let diff = ((gain2 as i64) - (gain1 as i64) + 32) as i64;
    let q = diff >> 6i64;
    assert(64 * q <= diff < 64 * q + 64) by (bit_vector)
        requires
            -0x4000_0000 <= diff <= 0x4000_0020,
            q == diff >> 6i64,
    ;
    assert(q == d);
    assert((k + 1) * d == k * d + d) by (nonlinear_arith);
    if d >= 0 {
        assert(0 <= (k + 1) * d <= 64 * d) by (nonlinear_arith)
            requires
                d >= 0,
                0 <= k < 64,
        ;
    } else {
        assert(64 * d <= (k + 1) * d < 0) by (nonlinear_arith)
            requires
                d < 0,
                0 <= k < 64,
        ;
    }
}

/// The product of a table sine and an interpolated gain fits 64 bits.
proof fn lemma_product_bounds(y: int, g: int)
    requires
        -0x200_0000 <= y <= 0x200_0000,
        -0x100 <= g <= 0x4000_0100,
    ensures
        -0x100_0000_0000_0000 <= y * g <= 0x100_0000_0000_0000,
{
    assert(-0x100_0000_0000_0000 <= y * g <= 0x100_0000_0000_0000) by (nonlinear_arith)
        requires
            -0x200_0000 <= y <= 0x200_0000,
            -0x100 <= g <= 0x4000_0100,
    ;
}

impl FmOpKernel {
    /// One block of a sine oscillator phase-modulated by `input`, its gain
    /// moving from `gain1` to `gain2`; the samples replace `output` or, with
    /// `add`, are added to it.
    pub fn compute(
        sin: &Sin,
        output: &mut Vec<i32>,
        input: &Vec<i32>,
        phase0: i32,
        freq: i32,
        gain1: i32,
        gain2: i32,
        add: bool,
    )
        requires
            sin.wf(),
            old(output)@.len() == N,
            input@.len() == N,
            gain_ok(gain1),
            gain_ok(gain2),
        ensures
            final(output)@.len() == N,
            forall|i: int|
                0 <= i < N ==> #[trigger] final(output)@[i] == mix(
                    add,
                    old(output)@[i],
                    op_sample(phase0, freq, gain1, gain2, input@[i], i),
                ),
    {
        let dgain: i64 = ((gain2 as i64) - (gain1 as i64) + 32) >> 6;
        let mut gain: i64 = gain1 as i64;
        let mut phase: i32 = phase0;
        let mut i: usize = 0;
        while i < N
            invariant
                sin.wf(),
                gain_ok(gain1),
                gain_ok(gain2),
                i <= N,
                output@.len() == N,
                input@.len() == N,
                dgain == gain_step(gain1, gain2),
                gain == gain1 + i * dgain,
                phase == phase_at(phase0, freq, i as nat),
                forall|j: int|
                    0 <= j < i ==> #[trigger] output@[j] == mix(
                        add,
                        old(output)@[j],
                        op_sample(phase0, freq, gain1, gain2, input@[j], j),
                    ),
                forall|j: int| i <= j < N ==> #[trigger] output@[j] == old(output)@[j],
            decreases N - i,
        {
            proof {
                lemma_gain_bounds(gain1, gain2, i as int);
            }
            gain = gain + dgain;
            let y: i32 = sin.lookup(phase.wrapping_add(input[i]));
            proof {
                lemma_product_bounds(y as int, gain as int);
            }
            let y1: i32 = (((y as i64) * gain) >> 24) as i32;
            if add {
                let o: i32 = output[i];
                output.set(i, o.wrapping_add(y1));
            } else {
                output.set(i, y1);
            }
            phase = phase.wrapping_add(freq);
            i = i + 1;
        }
    }

    /// One block of an unmodulated sine oscillator, its gain moving from
    /// `gain1` to `gain2`; the samples replace `output` or are added to it.
    pub fn compute_pure(
        sin: &Sin,
        output: &mut Vec<i32>,
        phase0: i32,
        freq: i32,
        gain1: i32,
        gain2: i32,
        add: bool,
    )
        requires
            sin.wf(),
            old(output)@.len() == N,
            gain_ok(gain1),
            gain_ok(gain2),
        ensures
            final(output)@.len() == N,
            forall|i: int|
                0 <= i < N ==> #[trigger] final(output)@[i] == mix(
                    add,
                    old(output)@[i],
                    op_sample(phase0, freq, gain1, gain2, 0, i),
                ),
    {
        let dgain: i64 = ((gain2 as i64) - (gain1 as i64) + 32) >> 6;
        let mut gain: i64 = gain1 as i64;
        let mut phase: i32 = phase0;
        let mut i: usize = 0;
        while i < N
            invariant
                sin.wf(),
                gain_ok(gain1),
                gain_ok(gain2),
                i <= N,
                output@.len() == N,
                dgain == gain_step(gain1, gain2),
                gain == gain1 + i * dgain,
                phase == phase_at(phase0, freq, i as nat),
                forall|j: int|
                    0 <= j < i ==> #[trigger] output@[j] == mix(
                        add,
                        old(output)@[j],
                        op_sample(phase0, freq, gain1, gain2, 0, j),
                    ),
                forall|j: int| i <= j < N ==> #[trigger] output@[j] == old(output)@[j],
            decreases N - i,
        {
            proof {
                lemma_gain_bounds(gain1, gain2, i as int);
            }
            gain = gain + dgain;
            let y: i32 = sin.lookup(phase.wrapping_add(0));
            proof {
                lemma_product_bounds(y as int, gain as int);
            }
            let y1: i32 = (((y as i64) * gain) >> 24) as i32;
            if add {
                let o: i32 = output[i];
                output.set(i, o.wrapping_add(y1));
            } else {
                output.set(i, y1);
            }
            phase = phase.wrapping_add(freq);
            i = i + 1;
        }
    }

    /// One block of a sine oscillator modulated by the average of its last
    /// two sines, shifted down by `fb_shift + 1` (at most 31). `fb_buf`
    /// carries those two sines (before the gain) from block to block.
    pub fn compute_fb(
        sin: &Sin,
        output: &mut Vec<i32>,
        phase0: i32,
        freq: i32,
        gain1: i32,
        gain2: i32,
        fb_buf: &mut [i32; 2],
        fb_shift: i32,
        add: bool,
    )
        requires
            sin.wf(),
            old(output)@.len() == N,
            gain_ok(gain1),
            gain_ok(gain2),
            0 <= fb_shift,
        ensures
            final(output)@.len() == N,
            forall|i: int|
                0 <= i < N ==> #[trigger] final(output)@[i] == mix(
                    add,
                    old(output)@[i],
                    fb_sample(phase0, freq, gain1, gain2, fb_shift, old(fb_buf)@[0], old(fb_buf)@[1], i),
                ),
            ({
                let t = fb_taps(phase0, freq, fb_shift, old(fb_buf)@[0], old(fb_buf)@[1], N as nat);
                final(fb_buf)@[0] == t.0 && final(fb_buf)@[1] == t.1
            }),
    {
        let dgain: i64 = ((gain2 as i64) - (gain1 as i64) + 32) >> 6;
        let mut gain: i64 = gain1 as i64;
        let mut phase: i32 = phase0;
        let mut y0: i32 = fb_buf[0];
        let mut y: i32 = fb_buf[1];
        let ghost b0 = fb_buf@[0];
        let ghost b1 = fb_buf@[1];
        let shift_amount: i64 = if fb_shift < 30 { fb_shift as i64 + 1 } else { 31 };
        let mut i: usize = 0;
        while i < N
            invariant
                sin.wf(),
                gain_ok(gain1),
                gain_ok(gain2),
                i <= N,
                output@.len() == N,
                0 <= fb_shift,
                shift_amount == fb_shift_amount(fb_shift),
                dgain == gain_step(gain1, gain2),
                gain == gain1 + i * dgain,
                phase == phase_at(phase0, freq, i as nat),
                (y0, y) == fb_taps(phase0, freq, fb_shift, b0, b1, i as nat),
                forall|j: int|
                    0 <= j < i ==> #[trigger] output@[j] == mix(
                        add,
                        old(output)@[j],
                        fb_sample(phase0, freq, gain1, gain2, fb_shift, b0, b1, j),
                    ),
                forall|j: int| i <= j < N ==> #[trigger] output@[j] == old(output)@[j],
            decreases N - i,
        {
            proof {
                lemma_gain_bounds(gain1, gain2, i as int);
            }
            gain = gain + dgain;
            let scaled_fb: i32 = (((y0 as i64) + (y as i64)) >> shift_amount) as i32;
            y0 = y;
            y = sin.lookup(phase.wrapping_add(scaled_fb));
            proof {
                lemma_product_bounds(y as int, gain as int);
            }
            let out: i32 = (((y as i64) * gain) >> 24) as i32;
            if add {
                let o: i32 = output[i];
                output.set(i, o.wrapping_add(out));
            } else {
                output.set(i, out);
            }
            phase = phase.wrapping_add(freq);
            i = i + 1;
        }
        fb_buf[0] = y0;
        fb_buf[1] = y;
    }

    /// Sets every sample of a buffer to zero.
    pub fn zero_buffer(buffer: &mut Vec<i32>)
        ensures
            final(buffer)@.len() == old(buffer)@.len(),
            forall|i: int| 0 <= i < final(buffer)@.len() ==> #[trigger] final(buffer)@[i] == 0,
    {
        let mut i: usize = 0;
        while i < buffer.len()
            invariant
                i <= buffer@.len(),
                buffer@.len() == old(buffer)@.len(),
                forall|j: int| 0 <= j < i ==> #[trigger] buffer@[j] == 0,
            decreases buffer@.len() - i,
        {
            buffer.set(i, 0);
            i = i + 1;
        }
    }

    /// Scales every sample of a buffer by a Q24 gain.
    pub fn scale_buffer(buffer: &mut Vec<i32>, gain: i32)
        ensures
            final(buffer)@.len() == old(buffer)@.len(),
            forall|i: int|
                0 <= i < final(buffer)@.len() ==> #[trigger] final(buffer)@[i] == scaled(
                    old(buffer)@[i] as int,
                    gain as int,
                ),
    {
        let mut i: usize = 0;
        while i < buffer.len()
            invariant
                i <= buffer@.len(),
                buffer@.len() == old(buffer)@.len(),
                forall|j: int|
                    0 <= j < i ==> #[trigger] buffer@[j] == scaled(old(buffer)@[j] as int, gain as int),
                forall|j: int| i <= j < buffer@.len() ==> #[trigger] buffer@[j] == old(buffer)@[j],
            decreases buffer@.len() - i,
        {
            let s: i32 = buffer[i];
            assert(-0x4000_0000_0000_0000 <= (s as int) * (gain as int) <= 0x4000_0000_0000_0000)
                by (nonlinear_arith);
            buffer.set(i, (((s as i64) * (gain as i64)) >> 24) as i32);
            i = i + 1;
        }
    }
}

} // verus!
