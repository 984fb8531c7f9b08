//! One sounding note: six operators with their envelopes, rendered block by
//! block through the patch's algorithm.
use vstd::prelude::*;
use crate::algorithm::{ALGORITHM_OPS, Buses, KernelKind, LEVEL_THRESHOLD, kernel_out, op_block, opcode};
use crate::constants::N;
use crate::env::{Env, LEVEL_MAX};
use crate::exp2::{Exp2, exp2_spec, lemma_exp2_mantissa_monotonic, exp2_mantissa, lemma_pow2i_monotonic, pow2i};
use crate::fm_op_kernel::{FmOpKernel, gain_ok};
use crate::sin::Sin;
use crate::freqlut::{Freqlut, freqlut_lookup_spec};
use crate::scaling::{
    osc_freq, osc_freq_spec, scale_level, scale_level_spec, scale_out_level, scale_rate,
    scale_rate_spec, scale_velocity, scale_velocity_spec,
};
use crate::env::{OUTLEVEL_MAX, scale_outlevel_spec, target_level};

verus! {

/// Envelope levels are taken down by 14 octaves before exponentiation.
pub const LEVEL_OFFSET: i32 = 0xE00_0000;

/// Gain of an envelope level: 2^(level - 14) in Q24.
pub open spec fn gain_of(level: i32) -> int {
    exp2_spec(level - LEVEL_OFFSET)
}

/// Gains of envelope levels lie in [0, 2^27].
pub proof fn lemma_gain_of_bounds(level: i32)
    requires
        0 <= level <= LEVEL_MAX,
    ensures
        0 <= gain_of(level) <= 0x800_0000,
{
    let x = level - LEVEL_OFFSET;
    let s = x + 20 * 0x100_0000;
    let ip = s / 0x100_0000 - 20;
    let f = s % 0x100_0000;
    lemma_exp2_mantissa_monotonic(f, 0xFF_FFFF);
    lemma_exp2_mantissa_monotonic(0, f);
    assert(exp2_mantissa(0xFF_FFFF) == 33554427);
    let m = exp2_mantissa(f);
    if ip >= 0 {
        assert(ip <= 2);
        lemma_pow2i_monotonic(ip as nat, 2);
        reveal_with_fuel(pow2i, 3);
        assert(m * pow2i(ip as nat) <= 33554427 * 4) by (nonlinear_arith)
            requires
                0 <= m <= 33554427,
                0 <= pow2i(ip as nat) <= 4,
        ;
        assert(0 <= m * pow2i(ip as nat)) by (nonlinear_arith)
            requires
                0 <= m,
                0 <= pow2i(ip as nat),
        ;
    } else {
        lemma_pow2i_monotonic(0, (-ip) as nat);
        vstd::arithmetic::div_mod::lemma_div_is_ordered_by_denominator(m, 1, pow2i((-ip) as nat));
        vstd::arithmetic::div_mod::lemma_div_pos_is_pos(m, pow2i((-ip) as nat));
    }
}

/// A silent, enabled operator at phase zero.
pub open spec fn initial_op() -> FmOperator {
    FmOperator {
        env: crate::env::initial_env(),
        phase: 0,
        freq: 0,
        level: 0,
        gain_out: 0,
        fb_buf: [0, 0],
        enabled: true,
    }
}

/// One operator of a voice: its envelope, oscillator and last gain.
#[derive(Clone, Copy, Debug)]
pub struct FmOperator {
    /// Amplitude envelope.
    pub env: Env,
    /// Current phase (2^24 per cycle, wrapping).
    pub phase: i32,
    /// Phase increment per sample.
    pub freq: i32,
    /// Output level from the patch, in 1/128 steps.
    pub level: i32,
    /// Gain reached at the end of the last block.
    pub gain_out: i32,
    /// Feedback taps of this operator when rendered on its own.
    pub fb_buf: [i32; 2],
    /// Whether the operator sounds.
    pub enabled: bool,
}

impl FmOperator {
    /// The ranges an operator keeps.
    pub open spec fn wf(&self) -> bool {
        &&& self.env.wf()
        &&& gain_ok(self.gain_out)
    }

    /// The operator after one block: envelope stepped, gain recorded, phase
    /// advanced by N samples.
    pub open spec fn next_spec(self) -> FmOperator {
        let env = self.env.next_spec();
        FmOperator {
            env,
            gain_out: gain_of(env.level) as i32,
            phase: vstd::wrapping::i32_specs::wrapping_add(
                self.phase,
                vstd::wrapping::i32_specs::wrapping_shl(self.freq, 6),
            ),
            ..self
        }
    }

    /// A silent, enabled operator at phase zero.
    pub fn new() -> (r: Self)
        ensures
            r == initial_op(),
            r.wf(),
            r.enabled,
            r.phase == 0,
            r.freq == 0,
            r.gain_out == 0,
    {
        let r = FmOperator {
            env: Env::new(),
            phase: 0,
            freq: 0,
            level: 0,
            gain_out: 0,
            fb_buf: [0, 0],
            enabled: true,
        };
        assert(r.fb_buf@ =~= initial_op().fb_buf@);
        r
    }

    /// Starts the operator's envelope.
    pub fn init(&mut self, rates: &[i32; 4], levels: &[i32; 4], outlevel: i32, rate_scaling: i32)
        requires
            old(self).wf(),
            forall|i: int| 0 <= i < 4 ==> 0 <= #[trigger] rates@[i] <= 99,
            forall|i: int| 0 <= i < 4 ==> 0 <= #[trigger] levels@[i] <= 99,
            0 <= outlevel <= crate::env::OUTLEVEL_MAX,
            0 <= rate_scaling <= 63,
        ensures
            final(self).wf(),
            final(self).env == (Env {
                rates: *rates,
                levels: *levels,
                outlevel,
                rate_scaling,
                level: 0,
                down: true,
                ..old(self).env
            }).advance_spec(0),
            *final(self) == (FmOperator { env: final(self).env, ..*old(self) }),
    {
        self.env.init(rates, levels, outlevel, rate_scaling);
    }

    /// Renders one block of this operator alone into `output`: a modulated
    /// sine when `input` is given, else a feedback sine when `feedback`
    /// gives a shift, else a pure sine; silence when disabled or inaudible.
    /// An enabled operator's phase advances by a block even when inaudible.
    pub fn process(&mut self, sin: &Sin, output: &mut Vec<i32>, input: Option<&Vec<i32>>, feedback: Option<i32>)
        requires
            sin.wf(),
            old(self).wf(),
            old(output)@.len() == N,
            match input {
                Some(v) => v@.len() == N,
                None => true,
            },
            match feedback {
                Some(s) => 0 <= s,
                None => true,
            },
        ensures
            final(self).wf(),
            final(output)@.len() == N,
            !old(self).enabled ==> *final(self) == *old(self),
            old(self).enabled ==> final(self).env == old(self).env.next_spec(),
            old(self).enabled ==> final(self).phase == vstd::wrapping::i32_specs::wrapping_add(
                old(self).phase,
                vstd::wrapping::i32_specs::wrapping_shl(old(self).freq, 6),
            ),
            old(self).enabled && gain_of(final(self).env.level) >= LEVEL_THRESHOLD ==> {
                let g = gain_of(final(self).env.level) as i32;
                let kind = match (input, feedback) {
                    (Some(_), _) => KernelKind::Modulated,
                    (None, Some(_)) => KernelKind::Feedback,
                    (None, None) => KernelKind::Pure,
                };
                let fbs = match feedback {
                    Some(s) => s,
                    None => 0,
                };
                let inp = match input {
                    Some(v) => v@,
                    None => Seq::empty(),
                };
                let (s, fb) = kernel_out(
                    kind,
                    old(output)@,
                    inp,
                    (old(self).fb_buf@[0], old(self).fb_buf@[1]),
                    old(self).phase,
                    old(self).freq,
                    g,
                    g,
                    fbs,
                    false,
                );
                &&& final(output)@ == s
                &&& final(self).fb_buf@[0] == fb.0
                &&& final(self).fb_buf@[1] == fb.1
            },
            !old(self).enabled || gain_of(final(self).env.level) < LEVEL_THRESHOLD ==> forall|i: int|
                0 <= i < N ==> #[trigger] final(output)@[i] == 0,
    {
        if !self.enabled {
            FmOpKernel::zero_buffer(output);
            return;
        }
        let env_level: i32 = self.env.get_sample();
        proof {
            lemma_gain_of_bounds(env_level);
        }
        let gain: i32 = Exp2::lookup(env_level - LEVEL_OFFSET);
        if gain < LEVEL_THRESHOLD {
            FmOpKernel::zero_buffer(output);
            self.phase = self.phase.wrapping_add(self.freq.wrapping_shl(6));
            return;
        }
        match input {
            Some(modulation) => {
                FmOpKernel::compute(sin, output, modulation, self.phase, self.freq, gain, gain, false);
                assert(output@ =~= kernel_out(
                    KernelKind::Modulated,
                    old(output)@,
                    modulation@,
                    (self.fb_buf@[0], self.fb_buf@[1]),
                    self.phase,
                    self.freq,
                    gain,
                    gain,
                    0,
                    false,
                ).0);
            },
            None => match feedback {
                Some(fb_shift) => {
                    let ghost fb0 = self.fb_buf;
                    FmOpKernel::compute_fb(
                        sin,
                        output,
                        self.phase,
                        self.freq,
                        gain,
                        gain,
                        &mut self.fb_buf,
                        fb_shift,
                        false,
                    );
                    assert(output@ =~= kernel_out(
                        KernelKind::Feedback,
                        old(output)@,
                        Seq::empty(),
                        (fb0@[0], fb0@[1]),
                        self.phase,
                        self.freq,
                        gain,
                        gain,
                        fb_shift,
                        false,
                    ).0);
                },
                None => {
                    FmOpKernel::compute_pure(sin, output, self.phase, self.freq, gain, gain, false);
                    assert(output@ =~= kernel_out(
                        KernelKind::Pure,
                        old(output)@,
                        Seq::empty(),
                        (self.fb_buf@[0], self.fb_buf@[1]),
                        self.phase,
                        self.freq,
                        gain,
                        gain,
                        0,
                        false,
                    ).0);
                },
            },
        }
        self.phase = self.phase.wrapping_add(self.freq.wrapping_shl(6));
    }

    /// Presses or releases the key of this operator's envelope.
    pub fn keydown(&mut self, down: bool)
        requires
            old(self).wf(),
        ensures
            final(self).wf(),
            *final(self) == (FmOperator { env: old(self).env.keydown_spec(down), ..*old(self) }),
    {
        self.env.keydown(down);
    }
}

/// Buses at the start of a block: all zero, only the output counted as
/// holding something, feedback taps carried over.
pub open spec fn block_start(fb: (i32, i32)) -> Buses {
    Buses {
        out: Seq::new(N as nat, |i: int| 0i32),
        bus1: Seq::new(N as nat, |i: int| 0i32),
        bus2: Seq::new(N as nat, |i: int| 0i32),
        has: seq![true, false, false],
        fb,
    }
}

/// The six opcodes of algorithm `alg`.
pub open spec fn algorithm_codes(alg: int) -> Seq<u8> {
    Seq::new(6, |i: int| opcode(alg, i))
}

/// The buses after the first `k` operators have run with opcodes `codes`,
/// each with the gain of its last block and that of its stepped envelope.
pub open spec fn run_ops(b: Buses, ops: Seq<FmOperator>, codes: Seq<u8>, fb_shift: i32, k: nat) -> Buses
    decreases k,
{
    if k == 0 {
        b
    } else {
        let prev = run_ops(b, ops, codes, fb_shift, (k - 1) as nat);
        let op = ops[k - 1];
        op_block(
            prev,
            codes[k - 1],
            op.phase,
            op.freq,
            op.gain_out,
            gain_of(op.env.next_spec().level) as i32,
            fb_shift,
        )
    }
}

/// With feedback off (shift 16 or more), an operator renders the same
/// whether or not its opcode marks it as the feedback operator.
pub proof fn lemma_feedback_off_op(
    b: Buses,
    flags: u8,
    phase: i32,
    freq: i32,
    gain1: i32,
    gain2: i32,
    fb_shift: i32,
)
    requires
        fb_shift >= 16,
    ensures
        op_block(b, flags, phase, freq, gain1, gain2, fb_shift) == op_block(
            b,
            flags & 0x3F,
            phase,
            freq,
            gain1,
            gain2,
            fb_shift,
        ),
{
    let f2 = flags & 0x3Fu8;
    assert((f2 & 3u8) == (flags & 3u8) && ((f2 >> 4u8) & 3u8) == ((flags >> 4u8) & 3u8) && (f2
        & 4u8 != 0) == (flags & 4u8 != 0)) by (bit_vector)
        requires
            f2 == flags & 0x3Fu8,
    ;
    assert(crate::algorithm::kernel_kind(flags, b, fb_shift) == crate::algorithm::kernel_kind(f2, b, fb_shift));
}

/// With feedback off, a block rendered through opcodes `codes` equals the
/// block rendered through the same opcodes with their feedback bits
/// cleared: the feedback-capable algorithm sounds as its pure counterpart.
pub proof fn lemma_feedback_off_block(
    b: Buses,
    ops: Seq<FmOperator>,
    codes: Seq<u8>,
    pure_codes: Seq<u8>,
    fb_shift: i32,
    k: nat,
)
    requires
        fb_shift >= 16,
        k <= 6,
        codes.len() == 6,
        pure_codes.len() == 6,
        forall|i: int| 0 <= i < 6 ==> #[trigger] pure_codes[i] == codes[i] & 0x3F,
    ensures
        run_ops(b, ops, codes, fb_shift, k) == run_ops(b, ops, pure_codes, fb_shift, k),
    decreases k,
{
    if k > 0 {
        lemma_feedback_off_block(b, ops, codes, pure_codes, fb_shift, (k - 1) as nat);
        let prev = run_ops(b, ops, codes, fb_shift, (k - 1) as nat);
        let op = ops[k - 1];
        assert(pure_codes[k - 1] == codes[k - 1] & 0x3F);
        lemma_feedback_off_op(
            prev,
            codes[k - 1],
            op.phase,
            op.freq,
            op.gain_out,
            gain_of(op.env.next_spec().level) as i32,
            fb_shift,
        );
    }
}

/// Runs one kernel into `dest`.
fn run_kernel(
    sin: &Sin,
    dest: &mut Vec<i32>,
    kind: KernelKind,
    input: &Vec<i32>,
    fb_buf: &mut [i32; 2],
    phase: i32,
    freq: i32,
    gain1: i32,
    gain2: i32,
    fb_shift: i32,
    add: bool,
)
    requires
        sin.wf(),
        old(dest)@.len() == N,
        input@.len() == N,
        gain_ok(gain1),
        gain_ok(gain2),
        0 <= fb_shift,
    ensures
        ({
            let (s, fb) = kernel_out(
                kind,
                old(dest)@,
                input@,
                (old(fb_buf)@[0], old(fb_buf)@[1]),
                phase,
                freq,
                gain1,
                gain2,
                fb_shift,
                add,
            );
            final(dest)@ == s && final(fb_buf)@[0] == fb.0 && final(fb_buf)@[1] == fb.1
        }),
{
    let ghost d0 = dest@;
    let ghost fb0 = *fb_buf;
    match kind {
        KernelKind::Pure => {
            FmOpKernel::compute_pure(sin, dest, phase, freq, gain1, gain2, add);
        },
        KernelKind::Modulated => {
            FmOpKernel::compute(sin, dest, input, phase, freq, gain1, gain2, add);
        },
        KernelKind::Feedback => {
            FmOpKernel::compute_fb(sin, dest, phase, freq, gain1, gain2, fb_buf, fb_shift, add);
        },
    }
    assert(dest@ =~= kernel_out(
        kind,
        d0,
        input@,
        (fb0@[0], fb0@[1]),
        phase,
        freq,
        gain1,
        gain2,
        fb_shift,
        add,
    ).0);
}

/// Copies `src` into `dst` of the same length.
fn copy_buffer(dst: &mut Vec<i32>, src: &Vec<i32>)
    requires
        old(dst)@.len() == src@.len(),
    ensures
        final(dst)@ == src@,
{
    let mut i: usize = 0;
    while i < src.len()
        invariant
            i <= src@.len(),
            dst@.len() == src@.len(),
            forall|j: int| 0 <= j < i ==> #[trigger] dst@[j] == src@[j],
        decreases src@.len() - i,
    {
        dst.set(i, src[i]);
        i = i + 1;
    }
    assert(dst@ =~= src@);
}

/// Whether an operator's envelope has not finished.
pub open spec fn sounding(op: FmOperator) -> bool {
    op.env.ix < 4
}

/// The buses as separate values.
pub open spec fn buses_of(out: Seq<i32>, bus1: Seq<i32>, bus2: Seq<i32>, has: (bool, bool, bool), fb: [i32; 2]) -> Buses {
    Buses { out, bus1, bus2, has: seq![has.0, has.1, has.2], fb: (fb@[0], fb@[1]) }
}

/// Renders one operator with opcode `flags` into the buses.
fn render_op(
    sin: &Sin,
    output: &mut Vec<i32>,
    bus1: &mut Vec<i32>,
    bus2: &mut Vec<i32>,
    modin: &mut Vec<i32>,
    fb_buf: &mut [i32; 2],
    has: (bool, bool, bool),
    flags: u8,
    phase: i32,
    freq: i32,
    gain1: i32,
    gain2: i32,
    fb_shift: i32,
) -> (r: (bool, bool, bool))
    requires
        sin.wf(),
        old(output)@.len() == N,
        old(bus1)@.len() == N,
        old(bus2)@.len() == N,
        old(modin)@.len() == N,
        gain_ok(gain1),
        gain_ok(gain2),
        0 <= fb_shift,
    ensures
        final(output)@.len() == N,
        final(bus1)@.len() == N,
        final(bus2)@.len() == N,
        final(modin)@.len() == N,
        buses_of(final(output)@, final(bus1)@, final(bus2)@, r, *final(fb_buf)) == op_block(
            buses_of(old(output)@, old(bus1)@, old(bus2)@, has, *old(fb_buf)),
            flags,
            phase,
            freq,
            gain1,
            gain2,
            fb_shift,
        ),
{
    let ghost bk = buses_of(output@, bus1@, bus2@, has, *fb_buf);
    let (h0, h1, h2) = has;
    let outbus: u8 = flags & 3;
    let inbus: u8 = (flags >> 4) & 3;
    let add_flag: bool = flags & 4 != 0;
    let fb_flags: bool = (flags & 0xC0) == 0xC0;
    proof {
        assert(outbus as int == crate::algorithm::out_bus(flags) && inbus as int
            == crate::algorithm::in_bus(flags) && add_flag == crate::algorithm::adds(flags)
            && fb_flags == crate::algorithm::is_feedback(flags)) by (bit_vector)
            requires
                outbus == flags & 3u8,
                inbus == (flags >> 4u8) & 3u8,
                add_flag == (flags & 4u8 != 0),
                fb_flags == (flags & 0xC0u8 == 0xC0u8),
        ;
        assert(outbus <= 3 && inbus <= 3) by (bit_vector)
            requires
                outbus == flags & 3u8,
                inbus == (flags >> 4u8) & 3u8,
        ;
    }
    if outbus == 3 {
        return has;
    }
    if gain1 >= LEVEL_THRESHOLD || gain2 >= LEVEL_THRESHOLD {
        let has_out: bool = if outbus == 0 {
            h0
        } else if outbus == 1 {
            h1
        } else {
            h2
        };
        let add: bool = add_flag && has_out;
        let has_in: bool = if inbus == 1 {
            h1
        } else if inbus == 2 {
            h2
        } else {
            false
        };
        let kind: KernelKind = if has_in {
            KernelKind::Modulated
        } else if fb_flags && fb_shift < 16 {
            KernelKind::Feedback
        } else {
            KernelKind::Pure
        };
        assert(kind == crate::algorithm::kernel_kind(flags, bk, fb_shift));
        if inbus == 1 {
            copy_buffer(modin, bus1);
        } else if inbus == 2 {
            copy_buffer(modin, bus2);
        }
        let ghost inp = modin@;
        assert(kind == KernelKind::Modulated ==> inp == crate::algorithm::bus(bk, inbus as int));
        let ghost kr = kernel_out(
            kind,
            crate::algorithm::bus(bk, outbus as int),
            inp,
            bk.fb,
            phase,
            freq,
            gain1,
            gain2,
            fb_shift,
            add,
        );
        assert(kr == kernel_out(
            kind,
            crate::algorithm::bus(bk, outbus as int),
            crate::algorithm::bus(bk, inbus as int),
            bk.fb,
            phase,
            freq,
            gain1,
            gain2,
            fb_shift,
            add,
        ));
        if outbus == 0 {
            run_kernel(sin, output, kind, modin, fb_buf, phase, freq, gain1, gain2, fb_shift, add);
            let r = (true, h1, h2);
            assert(buses_of(output@, bus1@, bus2@, r, *fb_buf).has =~= op_block(bk, flags, phase, freq, gain1, gain2, fb_shift).has);
            r
        } else if outbus == 1 {
            run_kernel(sin, bus1, kind, modin, fb_buf, phase, freq, gain1, gain2, fb_shift, add);
            let r = (h0, true, h2);
            assert(buses_of(output@, bus1@, bus2@, r, *fb_buf).has =~= op_block(bk, flags, phase, freq, gain1, gain2, fb_shift).has);
            r
        } else {
            run_kernel(sin, bus2, kind, modin, fb_buf, phase, freq, gain1, gain2, fb_shift, add);
            let r = (h0, h1, true);
            assert(buses_of(output@, bus1@, bus2@, r, *fb_buf).has =~= op_block(bk, flags, phase, freq, gain1, gain2, fb_shift).has);
            r
        }
    } else if !add_flag {
        let r = if outbus == 0 {
            (false, h1, h2)
        } else if outbus == 1 {
            (h0, false, h2)
        } else {
            (h0, h1, false)
        };
        assert(buses_of(output@, bus1@, bus2@, r, *fb_buf).has =~= op_block(bk, flags, phase, freq, gain1, gain2, fb_shift).has);
        r
    } else {
        has
    }
}

/// A voice playing one note.
#[derive(Clone, Debug)]
pub struct Dx7Note {
    /// The six operators, in the order they run.
    pub operators: Vec<FmOperator>,
    /// MIDI note number.
    pub note: u8,
    /// MIDI velocity.
    pub velocity: u8,
    /// Algorithm, 0-based (taken modulo 32).
    pub algorithm: u8,
    /// Whether the note has been started.
    pub active: bool,
    /// Note phase.
    pub phase: u32,
    /// Feedback taps shared by the algorithm's feedback operator.
    pub fb_buf: [i32; 2],
    /// Feedback shift: 16 and above turn feedback off.
    pub fb_shift: i32,
    /// Scratch bus one.
    pub bus1: Vec<i32>,
    /// Scratch bus two.
    pub bus2: Vec<i32>,
    /// Modulation input of the operator being rendered.
    pub modin: Vec<i32>,
}

impl Dx7Note {
    /// Six well-formed operators, buses of one block, a feedback shift in
    /// [0, 16], a MIDI note.
    pub open spec fn wf(&self) -> bool {
        &&& self.operators@.len() == 6
        &&& forall|i: int| 0 <= i < 6 ==> #[trigger] self.operators@[i].wf()
        &&& self.bus1@.len() == N
        &&& self.bus2@.len() == N
        &&& self.modin@.len() == N
        &&& 0 <= self.fb_shift <= 16
        &&& self.note <= 127
    }

    /// Whether the note still sounds: started, and some envelope not finished.
    pub open spec fn is_active_spec(&self) -> bool {
        self.active && exists|i: int| 0 <= i < 6 && #[trigger] sounding(self.operators@[i])
    }

    /// The buses after one block of this note.
    pub open spec fn block_spec(&self) -> Buses {
        run_ops(
            block_start((self.fb_buf@[0], self.fb_buf@[1])),
            self.operators@,
            algorithm_codes((self.algorithm % 32) as int),
            self.fb_shift,
            6,
        )
    }

    /// Renders one block of the note into `output`, if it is still sounding:
    /// the six operators run in order through the algorithm's buses, each
    /// envelope steps once and each phase advances by a block.
    pub fn process(&mut self, sin: &Sin, output: &mut Vec<i32>)
        requires
            sin.wf(),
            old(self).wf(),
            old(output)@.len() == N,
        ensures
            final(self).wf(),
            final(output)@.len() == N,
            !old(self).is_active_spec() ==> *final(self) == *old(self) && final(output)@ == old(output)@,
            old(self).is_active_spec() ==> {
                let b = old(self).block_spec();
                &&& final(output)@ == b.out
                &&& final(self).fb_buf@[0] == b.fb.0
                &&& final(self).fb_buf@[1] == b.fb.1
                &&& forall|i: int|
                    0 <= i < 6 ==> #[trigger] final(self).operators@[i] == old(self).operators@[i].next_spec()
                &&& final(self).note == old(self).note
                &&& final(self).velocity == old(self).velocity
                &&& final(self).algorithm == old(self).algorithm
                &&& final(self).active == old(self).active
                &&& final(self).fb_shift == old(self).fb_shift
            },
    {
        if !self.is_active() {
            return;
        }
        let alg: usize = (self.algorithm % 32) as usize;
        FmOpKernel::zero_buffer(&mut self.bus1);
        FmOpKernel::zero_buffer(&mut self.bus2);
        FmOpKernel::zero_buffer(output);
        let mut h0: bool = true;
        let mut h1: bool = false;
        let mut h2: bool = false;
        let ghost ops0 = self.operators@;
        let ghost b0 = block_start((self.fb_buf@[0], self.fb_buf@[1]));
        assert(output@ =~= b0.out);
        assert(self.bus1@ =~= b0.bus1);
        assert(self.bus2@ =~= b0.bus2);
        let mut k: usize = 0;
        while k < 6
            invariant
                sin.wf(),
                0 <= k <= 6,
                alg == (self.algorithm % 32) as int,
                alg == (old(self).algorithm % 32) as int,
                self.operators@.len() == 6,
                ops0 == old(self).operators@,
                forall|i: int| 0 <= i < 6 ==> #[trigger] ops0[i].wf(),
                forall|i: int| 0 <= i < k ==> #[trigger] self.operators@[i] == ops0[i].next_spec(),
                forall|i: int| k <= i < 6 ==> #[trigger] self.operators@[i] == ops0[i],
                forall|i: int| 0 <= i < 6 ==> #[trigger] self.operators@[i].wf(),
                output@.len() == N,
                self.bus1@.len() == N,
                self.bus2@.len() == N,
                self.modin@.len() == N,
                0 <= self.fb_shift <= 16,
                self.fb_shift == old(self).fb_shift,
                self.note == old(self).note,
                self.note <= 127,
                self.velocity == old(self).velocity,
                self.algorithm == old(self).algorithm,
                self.active == old(self).active,
                b0 == block_start((old(self).fb_buf@[0], old(self).fb_buf@[1])),
                ({
                    let b = run_ops(b0, ops0, algorithm_codes(alg as int), self.fb_shift, k as nat);
                    &&& output@ == b.out
                    &&& self.bus1@ == b.bus1
                    &&& self.bus2@ == b.bus2
                    &&& b.has == seq![h0, h1, h2]
                    &&& self.fb_buf@[0] == b.fb.0
                    &&& self.fb_buf@[1] == b.fb.1
                }),
            decreases 6 - k,
        {
            let ghost bk = run_ops(b0, ops0, algorithm_codes(alg as int), self.fb_shift, k as nat);
            let flags: u8 = ALGORITHM_OPS[alg * 6 + k];
            let mut op: FmOperator = self.operators[k];
            assert(self.operators@[k as int] == ops0[k as int]);
            assert(ops0[k as int].wf());
            let env_level: i32 = op.env.get_sample();
            proof {
                lemma_gain_of_bounds(env_level);
            }
            let gain1: i32 = op.gain_out;
            let gain2: i32 = Exp2::lookup(env_level - LEVEL_OFFSET);
            op.gain_out = gain2;
            let h = render_op(
                sin,
                output,
                &mut self.bus1,
                &mut self.bus2,
                &mut self.modin,
                &mut self.fb_buf,
                (h0, h1, h2),
                flags,
                op.phase,
                op.freq,
                gain1,
                gain2,
                self.fb_shift,
            );
            h0 = h.0;
            h1 = h.1;
            h2 = h.2;
            proof {
                assert(flags == opcode(alg as int, k as int));
                assert(algorithm_codes(alg as int)[k as int] == flags);
                assert(bk.has =~= seq![bk.has[0], bk.has[1], bk.has[2]]);
            }
            op.phase = op.phase.wrapping_add(op.freq.wrapping_shl(6));
            self.operators.set(k, op);
            proof {
                assert(flags == opcode(alg as int, k as int));
            }
            k = k + 1;
        }
        proof {
            assert(ops0 == old(self).operators@);
        }
    }

    /// Whether the note still sounds.
    pub fn is_active(&self) -> (r: bool)
        requires
            self.operators@.len() == 6,
        ensures
            r == self.is_active_spec(),
    {
        if !self.active {
            return false;
        }
        let mut i: usize = 0;
        while i < 6
            invariant
                i <= 6,
                self.active,
                self.operators@.len() == 6,
                forall|j: int| 0 <= j < i ==> !#[trigger] sounding(self.operators@[j]),
            decreases 6 - i,
        {
            if self.operators[i].env.get_position() < 4 {
                assert(sounding(self.operators@[i as int]));
                return true;
            }
            i = i + 1;
        }
        false
    }
}

/// A patch byte read as a value in [0, 99].
pub open spec fn byte99(b: u8) -> int {
    if b > 99 {
        99
    } else {
        b as int
    }
}

/// Offset of operator `i`'s 21 bytes: the patch stores the operators last
/// first.
pub open spec fn op_base(i: int) -> int {
    (5 - i) * 21
}

/// Output-level offset of the operator at `base` for a note and velocity:
/// scaled output level plus keyboard scaling, at most 127, in steps of 32,
/// plus the velocity offset, at least 0.
pub open spec fn patch_outlevel(d: Seq<u8>, base: int, note: int, velocity: int) -> int {
    let a = scale_outlevel_spec(byte99(d[base + 16])) + scale_level_spec(
        note,
        byte99(d[base + 8]),
        byte99(d[base + 9]),
        byte99(d[base + 10]),
        d[base + 11] as int % 4,
        d[base + 12] as int % 4,
    );
    let c = (if a > 127 {
        127
    } else {
        a
    }) * 32 + scale_velocity_spec(velocity, d[base + 15] as int % 8);
    if c < 0 {
        0
    } else {
        c
    }
}

/// log2 frequency of the operator at `base` for a note: mode at byte 17,
/// coarse at 18, fine at 19, detune at 20 (at most 14).
pub open spec fn patch_logfreq(d: Seq<u8>, base: int, note: int) -> int {
    let detune = d[base + 20] as int;
    osc_freq_spec(
        note,
        d[base + 17] as int % 2,
        d[base + 18] as int % 32,
        byte99(d[base + 19]),
        if detune > 14 {
            14
        } else {
            detune
        },
    )
}

/// Operator `i` after a voice `d` is applied to it for a note, velocity and
/// sample rate, with phase table `lut`: its envelope restarted with the
/// voice's rates, levels and offsets, its frequency and level set, the rest
/// as in `op0`.
pub open spec fn patched_op(
    d: Seq<u8>,
    i: int,
    note: int,
    velocity: int,
    sample_rate: int,
    lut: Seq<i32>,
    op0: FmOperator,
) -> FmOperator {
    let b = op_base(i);
    let e = Env {
        rates: [byte99(d[b]) as i32, byte99(d[b + 1]) as i32, byte99(d[b + 2]) as i32, byte99(d[b + 3]) as i32],
        levels: [byte99(d[b + 4]) as i32, byte99(d[b + 5]) as i32, byte99(d[b + 6]) as i32, byte99(d[b + 7]) as i32],
        outlevel: patch_outlevel(d, b, note, velocity) as i32,
        rate_scaling: scale_rate_spec(note, d[b + 13] as int % 8) as i32,
        level: 0,
        down: true,
        sr_multiplier: ((44100 * 0x100_0000) as int / sample_rate) as i32,
        ..op0.env
    };
    let ol = byte99(d[b + 16]);
    FmOperator {
        env: e.advance_spec(0),
        freq: freqlut_lookup_spec(lut, patch_logfreq(d, b, note) as i32),
        level: (if ol * 128 > 100 {
            ol * 128
        } else {
            100
        }) as i32,
        enabled: true,
        ..op0
    }
}

/// A patch byte read as a value in [0, 99].
fn byte_99(b: u8) -> (r: i32)
    ensures
        r == byte99(b),
        0 <= r <= 99,
{
    if b > 99 {
        99
    } else {
        b as i32
    }
}

/// A block of zero samples.
pub fn zeros() -> (r: Vec<i32>)
    ensures
        r@.len() == N,
        forall|i: int| 0 <= i < N ==> #[trigger] r@[i] == 0,
{
    let mut v: Vec<i32> = Vec::new();
    let mut i: usize = 0;
    while i < N
        invariant
            i <= N,
            v@.len() == i,
            forall|j: int| 0 <= j < i ==> #[trigger] v@[j] == 0,
        decreases N - i,
    {
        v.push(0);
        i = i + 1;
    }
    v
}

impl Dx7Note {
    /// A silent, inactive note 60 at velocity 64, feedback off.
    pub fn new() -> (r: Self)
        ensures
            r.wf(),
            forall|i: int| 0 <= i < 6 ==> (#[trigger] r.operators@[i]).gain_out == 0,
            forall|i: int| 0 <= i < 6 ==> #[trigger] r.operators@[i] == initial_op(),
            r.fb_buf == [0i32, 0i32],
            r.algorithm == 1,
            !r.active,
            r.note == 60,
            r.velocity == 64,
            r.fb_shift == 16,
    {
        let mut operators: Vec<FmOperator> = Vec::new();
        let mut i: usize = 0;
        while i < 6
            invariant
                i <= 6,
                operators@.len() == i,
                forall|j: int| 0 <= j < i ==> #[trigger] operators@[j].wf(),
                forall|j: int| 0 <= j < i ==> (#[trigger] operators@[j]).gain_out == 0,
                forall|j: int| 0 <= j < i ==> #[trigger] operators@[j] == initial_op(),
            decreases 6 - i,
        {
            operators.push(FmOperator::new());
            i = i + 1;
        }
        Dx7Note {
            operators,
            note: 60,
            velocity: 64,
            algorithm: 1,
            active: false,
            phase: 0,
            fb_buf: [0, 0],
            fb_shift: 16,
            bus1: zeros(),
            bus2: zeros(),
            modin: zeros(),
        }
    }

    /// Starts the note: records note and velocity and presses every
    /// operator's key.
    pub fn init(&mut self, note: u8, velocity: u8)
        requires
            old(self).wf(),
            note <= 127,
        ensures
            final(self).wf(),
            final(self).note == note,
            final(self).velocity == velocity,
            final(self).active,
            final(self).phase == 0,
            final(self).fb_buf == old(self).fb_buf,
            final(self).fb_shift == old(self).fb_shift,
            final(self).algorithm == old(self).algorithm,
            forall|i: int|
                0 <= i < 6 ==> #[trigger] final(self).operators@[i] == (FmOperator {
                    env: old(self).operators@[i].env.keydown_spec(true),
                    ..old(self).operators@[i]
                }),
    {
        self.note = note;
        self.velocity = velocity;
        self.active = true;
        self.phase = 0;
        self.keydown_all(true);
    }

    /// Releases the note: every operator enters its release stage.
    pub fn release(&mut self)
        requires
            old(self).wf(),
        ensures
            final(self).wf(),
            forall|i: int|
                0 <= i < 6 ==> #[trigger] final(self).operators@[i] == (FmOperator {
                    env: old(self).operators@[i].env.keydown_spec(false),
                    ..old(self).operators@[i]
                }),
            *final(self) == (Dx7Note { operators: final(self).operators, ..*old(self) }),
    {
        self.keydown_all(false);
    }

    /// Presses or releases the key of every operator.
    fn keydown_all(&mut self, down: bool)
        requires
            old(self).wf(),
        ensures
            final(self).wf(),
            forall|i: int|
                0 <= i < 6 ==> #[trigger] final(self).operators@[i] == (FmOperator {
                    env: old(self).operators@[i].env.keydown_spec(down),
                    ..old(self).operators@[i]
                }),
            *final(self) == (Dx7Note { operators: final(self).operators, ..*old(self) }),
    {
        let ghost ops0 = self.operators@;
        let mut i: usize = 0;
        while i < 6
            invariant
                i <= 6,
                self.wf(),
                ops0 == old(self).operators@,
                *self == (Dx7Note { operators: self.operators, ..*old(self) }),
                forall|j: int|
                    0 <= j < i ==> #[trigger] self.operators@[j] == (FmOperator {
                        env: ops0[j].env.keydown_spec(down),
                        ..ops0[j]
                    }),
                forall|j: int| i <= j < 6 ==> #[trigger] self.operators@[j] == ops0[j],
            decreases 6 - i,
        {
            let mut op: FmOperator = self.operators[i];
            assert(self.operators@[i as int].wf());
            op.keydown(down);
            self.operators.set(i, op);
            i = i + 1;
        }
    }

    /// Sets the algorithm (0-based), at most 31.
    pub fn set_algorithm(&mut self, algorithm: u8)
        ensures
            *final(self) == (Dx7Note { algorithm: if algorithm < 32 { algorithm } else { 31 }, ..*old(self) }),
    {
        self.algorithm = if algorithm < 32 {
            algorithm
        } else {
            31
        };
    }

    /// Takes the operators' envelopes, levels and frequencies, the algorithm
    /// and the feedback from a 155-byte voice, for this note and velocity,
    /// at the table's sample rate. Shorter data changes nothing.
    pub fn apply_patch(&mut self, patch_data: &Vec<u8>, lut: &Freqlut)
        requires
            old(self).wf(),
            lut.wf(),
            14700 <= lut.sample_rate,
        ensures
            final(self).wf(),
            patch_data@.len() < 155 ==> *final(self) == *old(self),
            patch_data@.len() >= 155 ==> {
                let d = patch_data@;
                let fb = d[135] % 8;
                &&& final(self).algorithm == d[134] % 32
                &&& final(self).fb_shift == if fb == 0 {
                    16
                } else {
                    8 - fb
                }
                &&& final(self).note == old(self).note
                &&& final(self).velocity == old(self).velocity
                &&& final(self).active == old(self).active
                &&& forall|i: int|
                    0 <= i < 6 ==> {
                        let op = #[trigger] final(self).operators@[i];
                        let b = op_base(i);
                        &&& op.enabled
                        &&& op.phase == old(self).operators@[i].phase
                        &&& op.gain_out == old(self).operators@[i].gain_out
                        &&& op.env.rates@ == seq![byte99(d[b]) as i32, byte99(d[b + 1]) as i32, byte99(d[b + 2]) as i32, byte99(d[b + 3]) as i32]
                        &&& op.env.levels@ == seq![byte99(d[b + 4]) as i32, byte99(d[b + 5]) as i32, byte99(d[b + 6]) as i32, byte99(d[b + 7]) as i32]
                        &&& op.env.outlevel == patch_outlevel(d, b, old(self).note as int, old(self).velocity as int)
                        &&& op.env.rate_scaling == scale_rate_spec(old(self).note as int, d[b + 13] as int % 8)
                        &&& op.env.level == 0
                        &&& op.env.down
                        &&& op.env.ix == 0
                        &&& op.env.sr_multiplier == (44100 * 0x100_0000) as int / lut.sample_rate as int
                        &&& op.env == op.env.advance_spec(0)
                        &&& op.freq == freqlut_lookup_spec(lut.lut@, patch_logfreq(d, b, old(self).note as int) as i32)
                        &&& op == patched_op(d, i, old(self).note as int, old(self).velocity as int, lut.sample_rate as int, lut.lut@, old(self).operators@[i])
                    }
                &&& final(self).fb_buf == old(self).fb_buf
            },
    {
        if patch_data.len() < 155 {
            return;
        }
        self.algorithm = patch_data[134] % 32;
        let feedback: u8 = patch_data[135] % 8;
        self.fb_shift = if feedback != 0 {
            8 - feedback as i32
        } else {
            16
        };
        let note: i32 = self.note as i32;
        let velocity: i32 = self.velocity as i32;
        let ghost ops0 = self.operators@;
        let ghost s0 = *self;
        let mut i: usize = 0;
        while i < 6
            invariant
                i <= 6,
                self.wf(),
                lut.wf(),
                14700 <= lut.sample_rate,
                patch_data@.len() >= 155,
                note == self.note as int,
                velocity == self.velocity as int,
                ops0 == old(self).operators@,
                *self == (Dx7Note { operators: self.operators, ..s0 }),
                forall|j: int|
                    0 <= j < i ==> {
                        let op = #[trigger] self.operators@[j];
                        let d = patch_data@;
                        let b = op_base(j);
                        &&& op.enabled
                        &&& op.phase == ops0[j].phase
                        &&& op.gain_out == ops0[j].gain_out
                        &&& op.env.rates@ == seq![byte99(d[b]) as i32, byte99(d[b + 1]) as i32, byte99(d[b + 2]) as i32, byte99(d[b + 3]) as i32]
                        &&& op.env.levels@ == seq![byte99(d[b + 4]) as i32, byte99(d[b + 5]) as i32, byte99(d[b + 6]) as i32, byte99(d[b + 7]) as i32]
                        &&& op.env.outlevel == patch_outlevel(d, b, note as int, velocity as int)
                        &&& op.env.rate_scaling == scale_rate_spec(note as int, d[b + 13] as int % 8)
                        &&& op.env.level == 0
                        &&& op.env.down
                        &&& op.env.ix == 0
                        &&& op.env.sr_multiplier == (44100 * 0x100_0000) as int / lut.sample_rate as int
                        &&& op.env == op.env.advance_spec(0)
                        &&& op.freq == freqlut_lookup_spec(lut.lut@, patch_logfreq(d, b, note as int) as i32)
                        &&& op == patched_op(d, j, note as int, velocity as int, lut.sample_rate as int, lut.lut@, ops0[j])
                    },
                forall|j: int| i <= j < 6 ==> #[trigger] self.operators@[j] == ops0[j],
            decreases 6 - i,
        {
            let base: usize = (5 - i) * 21;
            let rates: [i32; 4] = [
                byte_99(patch_data[base]),
                byte_99(patch_data[base + 1]),
                byte_99(patch_data[base + 2]),
                byte_99(patch_data[base + 3]),
            ];
            let levels: [i32; 4] = [
                byte_99(patch_data[base + 4]),
                byte_99(patch_data[base + 5]),
                byte_99(patch_data[base + 6]),
                byte_99(patch_data[base + 7]),
            ];
            let left_curve: i32 = patch_data[base + 11] as i32 % 4;
            let right_curve: i32 = patch_data[base + 12] as i32 % 4;
            let rate_sens: i32 = patch_data[base + 13] as i32 % 8;
            let vel_sens: i32 = patch_data[base + 15] as i32 % 8;
            let mode: i32 = patch_data[base + 17] as i32 % 2;
            let coarse: i32 = patch_data[base + 18] as i32 % 32;
            let output_level: i32 = byte_99(patch_data[base + 16]);
            let fine: i32 = byte_99(patch_data[base + 19]);
            let detune_raw: i32 = patch_data[base + 20] as i32;
            let detune: i32 = if detune_raw > 14 {
                14
            } else {
                detune_raw
            };
            let mut outlevel: i32 = scale_out_level(output_level);
            outlevel = outlevel + scale_level(
                note,
                byte_99(patch_data[base + 8]),
                byte_99(patch_data[base + 9]),
                byte_99(patch_data[base + 10]),
                left_curve,
                right_curve,
            );
            if outlevel > 127 {
                outlevel = 127;
            }
            outlevel = outlevel * 32 + scale_velocity(velocity, vel_sens);
            if outlevel < 0 {
                outlevel = 0;
            }
            let rate_scaling: i32 = scale_rate(note, rate_sens);
            let logfreq: i32 = osc_freq(note, mode, coarse, fine, detune);
            let mut op: FmOperator = self.operators[i];
            assert(self.operators@[i as int].wf());
            op.enabled = true;
            op.env.init_sr(lut.sample_rate);
            assert(rates@ =~= seq![rates[0], rates[1], rates[2], rates[3]]);
            op.env.init(&rates, &levels, outlevel, rate_scaling);
            op.freq = lut.lookup(logfreq);
            op.level = if output_level * 128 > 100 {
                output_level * 128
            } else {
                100
            };
            self.operators.set(i, op);
            proof {
                let d = patch_data@;
                let b = op_base(i as int);
                assert(b == base);
                assert(outlevel == patch_outlevel(d, b, note as int, velocity as int));
                assert(logfreq == patch_logfreq(d, b, note as int));
                let e = self.operators@[i as int].env;
                assert(e.rates@ == rates@);
                assert(rates@ =~= seq![byte99(d[b]) as i32, byte99(d[b + 1]) as i32, byte99(d[b + 2]) as i32, byte99(d[b + 3]) as i32]);
                assert(levels@ =~= seq![byte99(d[b + 4]) as i32, byte99(d[b + 5]) as i32, byte99(d[b + 6]) as i32, byte99(d[b + 7]) as i32]);
                assert(e == e.advance_spec(0));
                let q = (44100 * 0x100_0000) as int / lut.sample_rate as int;
                vstd::arithmetic::div_mod::lemma_div_is_ordered_by_denominator(
                    (44100 * 0x100_0000) as int,
                    14700,
                    lut.sample_rate as int,
                );
                assert(0 <= q <= 0x300_0000);
                assert(e.sr_multiplier == q);
                assert(e.outlevel == patch_outlevel(d, b, note as int, velocity as int));
                assert(e.rate_scaling == scale_rate_spec(note as int, d[b + 13] as int % 8));
                assert(self.operators@[i as int].freq == freqlut_lookup_spec(lut.lut@, patch_logfreq(d, b, note as int) as i32));
                assert(self.operators@[i as int] == patched_op(d, i as int, note as int, velocity as int, lut.sample_rate as int, lut.lut@, ops0[i as int]));
            }
            i = i + 1;
        }
    }
}

/// The lowest envelope level, 16 << 16: the target of every stage whose
/// level and output offset are low enough.
pub const LEVEL_FLOOR: i32 = 0x10_0000;

/// An envelope that sits at or below the floor and whose every stage aims
/// at the floor.
pub open spec fn quiet_env(e: Env) -> bool {
    &&& e.level <= LEVEL_FLOOR
    &&& e.targetlevel <= LEVEL_FLOOR
    &&& forall|j: int| 0 <= j < 4 ==> #[trigger] target_level(e.levels@[j] as int, e.outlevel as int) == LEVEL_FLOOR
}

/// An operator whose envelope is quiet and whose last gain was inaudible.
pub open spec fn quiet_op(op: FmOperator) -> bool {
    quiet_env(op.env) && op.gain_out < LEVEL_THRESHOLD
}

/// A level at or below the floor is inaudible.
pub proof fn lemma_floor_gain(level: i32)
    requires
        0 <= level <= LEVEL_FLOOR,
    ensures
        0 <= gain_of(level) < LEVEL_THRESHOLD,
{
    let x = level - LEVEL_OFFSET;
    let s = x + 20 * 0x100_0000;
    assert(s / 0x100_0000 == 6);
    let f = s % 0x100_0000;
    assert(0 <= f <= 0x10_0000);
    lemma_exp2_mantissa_monotonic(f, 0x10_0000);
    lemma_exp2_mantissa_monotonic(0, f);
    assert(exp2_mantissa(0x10_0000) == 17520008);
    reveal_with_fuel(pow2i, 15);
    assert(pow2i(14) == 16384);
    vstd::arithmetic::div_mod::lemma_div_is_ordered(exp2_mantissa(f), 17520008, 16384);
    vstd::arithmetic::div_mod::lemma_div_pos_is_pos(exp2_mantissa(f), 16384);
}

/// Entering a stage keeps a quiet envelope quiet.
pub proof fn lemma_quiet_advance(e: Env, newix: int)
    requires
        e.wf(),
        quiet_env(e),
        0 <= newix <= 4,
    ensures
        quiet_env(e.advance_spec(newix)),
{
    if newix < 4 {
        assert(target_level(e.levels@[newix] as int, e.outlevel as int) == LEVEL_FLOOR);
    }
}

/// A quiet envelope stays quiet from sample to sample.
pub proof fn lemma_quiet_next(e: Env)
    requires
        e.wf(),
        quiet_env(e),
    ensures
        quiet_env(e.next_spec()),
        e.next_spec().wf(),
{
    let h = e.hold_spec();
    if e.staticcount > 0 {
        if e.staticcount - 64 <= 0 {
            let e0 = Env { staticcount: 0, ..e };
            crate::env::lemma_advance_wf(e0, e.ix + 1);
            lemma_quiet_advance(e0, e.ix + 1);
        }
    }
    assert(h.wf() && quiet_env(h));
    if (h.ix < 3 || (h.ix < 4 && !h.down)) && h.staticcount <= 0 {
        let e1 = Env { level: h.targetlevel, ..h };
        if h.ix + 1 == 4 {
            assert(h.staticcount == 0);
        }
        crate::env::lemma_advance_wf(e1, h.ix + 1);
        lemma_quiet_advance(e1, h.ix + 1);
        if h.rising {
            let l0 = crate::env::JUMP_TARGET * 0x1_0000;
            assert((0x1100_0000 - l0) / 0x100_0000 == 10);
            assert(10 * h.inc >= 0);
        }
    }
}

/// Key events keep a quiet envelope quiet.
pub proof fn lemma_quiet_keydown(e: Env, down: bool)
    requires
        e.wf(),
        quiet_env(e),
    ensures
        quiet_env(e.keydown_spec(down)),
{
    if e.down != down {
        let e0 = Env { down, ..e };
        lemma_quiet_advance(e0, if down { 0 } else { 3 });
    }
}

/// Inaudible operators leave the output bus as it was.
proof fn lemma_quiet_run(b: Buses, ops: Seq<FmOperator>, codes: Seq<u8>, fb_shift: i32, k: nat)
    requires
        k <= 6,
        ops.len() == 6,
        codes.len() == 6,
        forall|i: int| 0 <= i < 6 ==> (#[trigger] ops[i]).wf() && quiet_op(ops[i]),
    ensures
        run_ops(b, ops, codes, fb_shift, k).out == b.out,
    decreases k,
{
    if k > 0 {
        lemma_quiet_run(b, ops, codes, fb_shift, (k - 1) as nat);
        let j: int = k - 1;
        assert(0 <= j < 6);
        assert(ops[j].wf() && quiet_op(ops[j]));
        let op = ops[j];
        lemma_quiet_next(op.env);
        lemma_floor_gain(op.env.next_spec().level);
    }
}

/// A note whose operators are all quiet renders a silent block, and its
/// operators are still quiet afterwards: such a note is silent for good.
pub proof fn lemma_quiet_note(n: Dx7Note)
    requires
        n.wf(),
        forall|i: int| 0 <= i < 6 ==> #[trigger] quiet_op(n.operators@[i]),
    ensures
        n.block_spec().out == Seq::new(N as nat, |i: int| 0i32),
        forall|i: int|
            0 <= i < 6 ==> #[trigger] quiet_op(n.operators@[i].next_spec())
                && n.operators@[i].next_spec().wf(),
{
    let codes = algorithm_codes((n.algorithm % 32) as int);
    assert forall|i: int| 0 <= i < 6 implies #[trigger] n.operators@[i].wf() && quiet_op(n.operators@[i]) by {}
    lemma_quiet_run(block_start((n.fb_buf@[0], n.fb_buf@[1])), n.operators@, codes, n.fb_shift, 6);
    assert forall|i: int|
        0 <= i < 6 implies #[trigger] quiet_op(n.operators@[i].next_spec()) && n.operators@[i].next_spec().wf() by {
        let op = n.operators@[i];
        assert(op.wf());
        lemma_quiet_next(op.env);
        lemma_floor_gain(op.env.next_spec().level);
        lemma_gain_of_bounds(op.env.next_spec().level);
    }
}

/// An operator whose output level is zero, and whose keyboard scaling does
/// not raise its level (both depths zero), aims every stage at the floor
/// for any note and velocity.
pub proof fn lemma_zero_output_level(d: Seq<u8>, b: int, note: int, velocity: int)
    requires
        0 <= b,
        b + 21 <= d.len(),
        0 <= note <= 127,
        d[b + 16] == 0,
        d[b + 9] == 0,
        d[b + 10] == 0,
    ensures
        0 <= patch_outlevel(d, b, note, velocity) <= 224,
        forall|l: int| 0 <= l <= 99 ==> #[trigger] target_level(l, patch_outlevel(d, b, note, velocity)) == LEVEL_FLOOR,
{
    let v = if velocity < 0 {
        0
    } else if velocity > 127 {
        127
    } else {
        velocity
    };
    let value = crate::scaling::VELOCITY_DATA@[v / 2] as int;
    assert(0 <= value <= 254);
    let sens = d[b + 15] as int % 8;
    let t = sens * (value - 239) + 7;
    assert(-1666 <= t <= 112) by (nonlinear_arith)
        requires
            0 <= sens < 8,
            0 <= value <= 254,
            t == sens * (value - 239) + 7,
    ;
    let ti = t as i32;
    assert((ti >> 3i32) <= 14) by (bit_vector)
        requires
            ti <= 112,
    ;
    let o = patch_outlevel(d, b, note, velocity);
    assert forall|l: int| 0 <= l <= 99 implies #[trigger] target_level(l, o) == LEVEL_FLOOR by {
        if l < 20 {
            assert(0 <= crate::env::level_lut()[l] <= 46);
        }
    }
}

} // verus!
