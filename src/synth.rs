//! Rendering a whole note: key on for a given time, then the release until
//! it has been silent for a tenth of a second, within a safety cap.
use vstd::prelude::*;
use crate::constants::N;
use crate::freqlut::Freqlut;
use crate::sin::Sin;
use crate::sysex::Dx7Patch;
use crate::voice::{
    Dx7Note, FmOperator, zeros, op_base, quiet_op, lemma_quiet_note, lemma_zero_output_level,
    LEVEL_FLOOR, sounding, lemma_quiet_keydown, lemma_feedback_off_block, run_ops, block_start, algorithm_codes, patched_op, initial_op,
};
use crate::algorithm::{Buses, ALGORITHM_OPS};
use crate::freqlut::freq_entry;
use crate::sysex::patch_bytes;

verus! {

/// Largest sample magnitude: output is 24-bit.
pub const FULL_SCALE: i32 = 0x80_0000;

/// Voice output is taken down by this many bits: a single carrier at full
/// level then peaks at half of full scale.
pub const OUTPUT_SHIFT: i32 = 3;

/// Samples of at most this magnitude count as silent (about 1e-4 of full
/// scale).
pub const SILENCE_THRESHOLD: i32 = 839;

/// Why a note was not rendered.
#[derive(Clone, Copy, Debug, PartialEq, Eq, Structural)]
pub enum RenderError {
    /// A MIDI note above 127.
    InvalidMidiNote,
    /// A velocity above 127.
    InvalidVelocity,
    /// A key-on time of zero samples, or beyond the safety cap.
    InvalidDuration,
    /// No patch has been loaded.
    NoPatch,
}

/// A voice whose operators all have output level 0 and no keyboard level
/// scaling depth.
pub open spec fn silent_voice(d: Seq<u8>) -> bool {
    &&& d.len() >= 155
    &&& forall|op: int|
        0 <= op < 6 ==> d[#[trigger] op_base(op) + 16] == 0 && d[op_base(op) + 9] == 0 && d[op_base(op)
            + 10] == 0
}

/// What of a note decides its sound: its operators, feedback taps, feedback
/// shift, algorithm, and whether it has been started.
pub struct NoteState {
    /// The six operators.
    pub ops: Seq<FmOperator>,
    /// The feedback taps.
    pub fb: (i32, i32),
    /// The feedback shift.
    pub fb_shift: i32,
    /// The algorithm, 0-based.
    pub algorithm: u8,
    /// Whether the note has been started.
    pub active: bool,
}

/// The sound-deciding state of a note.
pub open spec fn state_of(n: Dx7Note) -> NoteState {
    NoteState {
        ops: n.operators@,
        fb: (n.fb_buf@[0], n.fb_buf@[1]),
        fb_shift: n.fb_shift,
        algorithm: n.algorithm,
        active: n.active,
    }
}

/// Whether a note in state `s` still sounds.
pub open spec fn state_sounds(s: NoteState) -> bool {
    s.active && exists|i: int| 0 <= i < 6 && #[trigger] sounding(s.ops[i])
}

/// The buses after one block in state `s`.
pub open spec fn state_buses(s: NoteState) -> Buses {
    run_ops(block_start(s.fb), s.ops, algorithm_codes((s.algorithm % 32) as int), s.fb_shift, 6)
}

/// The voice output of one block in state `s`: silence once the note has
/// stopped sounding.
pub open spec fn block_raw(s: NoteState) -> Seq<i32> {
    if state_sounds(s) {
        state_buses(s).out
    } else {
        Seq::new(N as nat, |i: int| 0i32)
    }
}

/// A voice sample taken down by `OUTPUT_SHIFT` bits and clamped to 24 bits.
pub open spec fn out_sample(x: i32) -> i32 {
    let y = x >> 3i32;
    if y < -0x80_0000i32 {
        -0x80_0000i32
    } else if y > 0x7F_FFFFi32 {
        0x7F_FFFFi32
    } else {
        y
    }
}

/// The samples one block in state `s` contributes.
pub open spec fn block_samples(s: NoteState) -> Seq<i32> {
    Seq::new(N as nat, |i: int| out_sample(block_raw(s)[i]))
}

/// The state after one block.
pub open spec fn step_state(s: NoteState) -> NoteState {
    if state_sounds(s) {
        NoteState {
            ops: Seq::new(6, |i: int| s.ops[i].next_spec()),
            fb: state_buses(s).fb,
            ..s
        }
    } else {
        s
    }
}

/// The state after the key is released.
pub open spec fn released(s: NoteState) -> NoteState {
    NoteState { ops: Seq::new(6, |i: int| FmOperator { env: s.ops[i].env.keydown_spec(false), ..s.ops[i] }), ..s }
}

/// The phase-increment table for a sample rate.
pub open spec fn freq_table(sample_rate: int) -> Seq<i32> {
    Seq::new(1025, |k: int| freq_entry(sample_rate, k as nat))
}

/// The state of a note started from voice `d` at a note and velocity.
pub open spec fn start_state(d: Seq<u8>, sample_rate: int, note: int, velocity: int) -> NoteState {
    let fb = d[135] % 8;
    NoteState {
        ops: Seq::new(6, |i: int| patched_op(d, i, note, velocity, sample_rate, freq_table(sample_rate), initial_op())),
        fb: (0, 0),
        fb_shift: if fb == 0 {
            16
        } else {
            (8 - fb) as i32
        },
        algorithm: d[134] % 32,
        active: true,
    }
}

/// Blocks rendered with the key down until `out` reaches `gate` samples;
/// the last block is cut at `gate`.
pub open spec fn gate_run(s: NoteState, out: Seq<i32>, gate: int) -> (NoteState, Seq<i32>)
    decreases gate - out.len(),
{
    if out.len() >= gate {
        (s, out)
    } else {
        let take = if gate - out.len() < N {
            gate - out.len()
        } else {
            N as int
        };
        gate_run(step_state(s), out + block_samples(s).subrange(0, take), gate)
    }
}

/// Length of the silent run that ends a sequence, starting from a run of `c`.
pub open spec fn quiet_run(c: int, blk: Seq<i32>) -> int
    decreases blk.len(),
{
    if blk.len() == 0 {
        c
    } else if quiet_sample(blk.last()) {
        quiet_run(c, blk.drop_last()) + 1
    } else {
        0
    }
}

/// Blocks rendered after the release, counting the silent run `silent`:
/// once it reaches `window` the output is cut to end `window` samples into
/// the run (but not before `gate`); otherwise rendering stops at `cap`.
pub open spec fn tail_run(s: NoteState, out: Seq<i32>, silent: int, cap: int, window: int, gate: int) -> Seq<i32>
    decreases cap - out.len(),
{
    if out.len() >= cap {
        out
    } else {
        let take = if cap - out.len() < N {
            cap - out.len()
        } else {
            N as int
        };
        let blk = block_samples(s).subrange(0, take);
        let out2 = out + blk;
        let q = quiet_run(silent, blk);
        if q >= window {
            let keep = out2.len() - (q - window);
            out2.subrange(0, if keep < gate { gate } else { keep })
        } else {
            tail_run(step_state(s), out2, q, cap, window, gate)
        }
    }
}

/// The samples of a note rendered from voice `d`: `gate` samples with the
/// key down, then the release until a tenth of a second of silence or `cap`.
pub open spec fn rendered(d: Seq<u8>, sample_rate: int, note: int, velocity: int, gate: int, cap: int) -> Seq<i32> {
    let (s1, out1) = gate_run(start_state(d, sample_rate, note, velocity), seq![], gate);
    tail_run(released(s1), out1, 0, cap, sample_rate / 10, gate)
}

/// `s` playing algorithm `a` instead.
pub open spec fn with_algorithm(s: NoteState, a: u8) -> NoteState {
    NoteState { algorithm: a, ..s }
}

/// Whether two algorithms route alike once their feedback bits are
/// dropped.
pub open spec fn same_routing(a1: int, a2: int) -> bool {
    forall|i: int| 0 <= i < 6 ==> #[trigger] (algorithm_codes(a1)[i] & 0x3F) == algorithm_codes(a2)[i] & 0x3F
}

/// With feedback off, one block sounds the same under two algorithms that
/// route alike.
proof fn lemma_alike_block(s: NoteState, a2: u8)
    requires
        s.fb_shift >= 16,
        s.ops.len() == 6,
        same_routing((s.algorithm % 32) as int, (a2 % 32) as int),
    ensures
        block_samples(with_algorithm(s, a2)) == block_samples(s),
        step_state(with_algorithm(s, a2)) == with_algorithm(step_state(s), a2),
{
    let s2 = with_algorithm(s, a2);
    let c1 = algorithm_codes((s.algorithm % 32) as int);
    let c2 = algorithm_codes((a2 % 32) as int);
    let pure = Seq::new(6, |i: int| c1[i] & 0x3F);
    lemma_feedback_off_block(block_start(s.fb), s.ops, c1, pure, s.fb_shift, 6);
    assert forall|i: int| 0 <= i < 6 implies #[trigger] pure[i] == c2[i] & 0x3F by {
        assert((c1[i] & 0x3F) == c2[i] & 0x3F);
    }
    lemma_feedback_off_block(block_start(s.fb), s.ops, c2, pure, s.fb_shift, 6);
    assert(state_buses(s2) == state_buses(s));
    assert(block_raw(s2) == block_raw(s));
    assert(block_samples(s2) =~= block_samples(s));
}

/// With feedback off, the key-down blocks match under two algorithms that
/// route alike.
proof fn lemma_alike_gate(s: NoteState, out: Seq<i32>, gate: int, a2: u8)
    requires
        s.fb_shift >= 16,
        s.ops.len() == 6,
        same_routing((s.algorithm % 32) as int, (a2 % 32) as int),
    ensures
        gate_run(with_algorithm(s, a2), out, gate) == (with_algorithm(gate_run(s, out, gate).0, a2), gate_run(s, out, gate).1),
    decreases gate - out.len(),
{
    if out.len() < gate {
        lemma_alike_block(s, a2);
        let take = if gate - out.len() < N {
            gate - out.len()
        } else {
            N as int
        };
        lemma_alike_gate(step_state(s), out + block_samples(s).subrange(0, take), gate, a2);
    }
}

/// With feedback off, the release matches under two algorithms that route
/// alike.
proof fn lemma_alike_tail(s: NoteState, out: Seq<i32>, silent: int, cap: int, window: int, gate: int, a2: u8)
    requires
        s.fb_shift >= 16,
        s.ops.len() == 6,
        same_routing((s.algorithm % 32) as int, (a2 % 32) as int),
    ensures
        tail_run(with_algorithm(s, a2), out, silent, cap, window, gate) == tail_run(s, out, silent, cap, window, gate),
    decreases cap - out.len(),
{
    if out.len() < cap {
        lemma_alike_block(s, a2);
        let take = if cap - out.len() < N {
            cap - out.len()
        } else {
            N as int
        };
        let blk = block_samples(s).subrange(0, take);
        lemma_alike_tail(step_state(s), out + blk, quiet_run(silent, blk), cap, window, gate, a2);
    }
}

/// With feedback 0, a note renders the same under two algorithms that
/// route alike apart from which operator is marked for feedback: the
/// feedback-capable algorithm sounds as its pure counterpart.
pub proof fn lemma_feedback_off_render(
    d1: Seq<u8>,
    d2: Seq<u8>,
    sample_rate: int,
    note: int,
    velocity: int,
    gate: int,
    cap: int,
)
    requires
        d1.len() >= 155,
        d2.len() == d1.len(),
        forall|k: int| 0 <= k < d1.len() && k != 134 ==> #[trigger] d1[k] == d2[k],
        d1[135] % 8 == 0,
        same_routing((d1[134] % 32) as int, (d2[134] % 32) as int),
    ensures
        rendered(d1, sample_rate, note, velocity, gate, cap) == rendered(d2, sample_rate, note, velocity, gate, cap),
{
    let s1 = start_state(d1, sample_rate, note, velocity);
    let s2 = start_state(d2, sample_rate, note, velocity);
    let a2 = (d2[134] % 32) as u8;
    assert(d1[135] == d2[135]);
    assert forall|i: int| 0 <= i < 6 implies #[trigger] s2.ops[i] == s1.ops[i] by {
        let b = op_base(i);
        assert forall|k: int| 0 <= k < 21 implies #[trigger] d2[b + k] == d1[b + k] by {
            assert(b + k < 134);
        }
    }
    assert(s2.ops =~= s1.ops);
    assert(s2 == with_algorithm(s1, a2));
    assert((s1.algorithm % 32) as int == (d1[134] % 32) as int);
    lemma_alike_gate(s1, seq![], gate, a2);
    let g = gate_run(s1, seq![], gate);
    assert(released(with_algorithm(g.0, a2)) == with_algorithm(released(g.0), a2));
    lemma_gate_keeps(s1, seq![], gate);
    lemma_alike_tail(released(g.0), g.1, 0, cap, sample_rate / 10, gate, a2);
}

/// The key-down blocks keep the feedback shift and the number of operators.
proof fn lemma_gate_keeps(s: NoteState, out: Seq<i32>, gate: int)
    requires
        s.ops.len() == 6,
    ensures
        gate_run(s, out, gate).0.fb_shift == s.fb_shift,
        gate_run(s, out, gate).0.algorithm == s.algorithm,
        gate_run(s, out, gate).0.ops.len() == 6,
    decreases gate - out.len(),
{
    if out.len() < gate {
        let take = if gate - out.len() < N {
            gate - out.len()
        } else {
            N as int
        };
        lemma_gate_keeps(step_state(s), out + block_samples(s).subrange(0, take), gate);
    }
}

/// DX7 algorithms 1 and 2 differ only in which operator is marked for
/// feedback.
pub proof fn lemma_algorithms_one_two_alike()
    ensures
        same_routing(0, 1),
{
    assert(ALGORITHM_OPS@ =~= crate::algorithm::ALGORITHM_OPS@);
    assert forall|i: int| 0 <= i < 6 implies #[trigger] (algorithm_codes(0)[i] & 0x3F) == algorithm_codes(1)[i] & 0x3F by {
        assert((0xc1u8 & 0x3Fu8) == (0x01u8 & 0x3Fu8)) by (bit_vector);
    }
}

/// Whether a sample counts as silent.
pub open spec fn quiet_sample(s: i32) -> bool {
    -SILENCE_THRESHOLD <= s <= SILENCE_THRESHOLD
}

/// Whether every sample lies in the 24-bit range.
pub open spec fn in_range(v: Seq<i32>) -> bool {
    forall|i: int| 0 <= i < v.len() ==> -FULL_SCALE <= #[trigger] v[i] < FULL_SCALE
}

/// A monophonic DX7 renderer at one sample rate.
pub struct Dx7Synth {
    note: Dx7Note,
    sin: Sin,
    lut: Freqlut,
    current_patch: Option<Dx7Patch>,
    patch_data: Vec<u8>,
    sample_rate: u32,
    max_length_samples: usize,
}

impl Dx7Synth {
    /// Tables built, voice ready, no patch loaded.
    pub closed spec fn wf(&self) -> bool {
        &&& self.note.wf()
        &&& self.sin.wf()
        &&& self.lut.wf()
        &&& self.lut.sample_rate == self.sample_rate
        &&& 14700 <= self.sample_rate
        &&& (self.current_patch is Some ==> self.patch_data@.len() >= 155)
    }

    /// The sample rate.
    pub closed spec fn rate(&self) -> u32 {
        self.sample_rate
    }

    /// The safety cap in samples.
    pub closed spec fn cap(&self) -> usize {
        self.max_length_samples
    }

    /// The voice bytes of the loaded patch.
    pub closed spec fn loaded(&self) -> Seq<u8> {
        self.patch_data@
    }

    /// The name of the loaded patch.
    pub closed spec fn patch_name(&self) -> Seq<char> {
        self.current_patch->Some_0.name@
    }

    /// Whether a patch is loaded.
    pub closed spec fn has_patch(&self) -> bool {
        self.current_patch is Some
    }

    /// A renderer at `sample_rate` Hz that never renders more than
    /// `max_length_samples` samples of one note. Rates from 14700 Hz up keep
    /// the envelopes' Q24 increments, scaled by 44100 / rate, within 32 bits.
    pub fn new(sample_rate: u32, max_length_samples: usize) -> (r: Self)
        requires
            14700 <= sample_rate,
        ensures
            r.wf(),
            r.rate() == sample_rate,
            r.cap() == max_length_samples,
            !r.has_patch(),
    {
        Dx7Synth {
            note: Dx7Note::new(),
            sin: Sin::init(),
            lut: Freqlut::init(sample_rate),
            current_patch: None,
            patch_data: Vec::new(),
            sample_rate,
            max_length_samples,
        }
    }

    /// Loads the patch the next notes play.
    pub fn load_patch(&mut self, patch: Dx7Patch) -> (r: Result<(), RenderError>)
        requires
            old(self).wf(),
        ensures
            final(self).wf(),
            r is Ok,
            final(self).has_patch(),
            final(self).loaded() == patch_bytes(patch),
            final(self).patch_name() == patch.name@,
            final(self).rate() == old(self).rate(),
            final(self).cap() == old(self).cap(),
    {
        self.patch_data = patch.to_data();
        self.current_patch = Some(patch);
        Ok(())
    }

    /// The name of the loaded patch, if any.
    pub fn current_patch_name(&self) -> (r: Option<&str>)
        ensures
            r is Some <==> self.has_patch(),
            r is Some ==> r->Some_0@ == self.patch_name(),
    {
        match &self.current_patch {
            Some(p) => Some(p.name.as_str()),
            None => None,
        }
    }

    /// The sample rate in Hz.
    pub fn sample_rate(&self) -> (r: u32)
        ensures
            r == self.rate(),
    {
        self.sample_rate
    }

    /// The safety cap in samples.
    pub fn max_length_samples(&self) -> (r: usize)
        ensures
            r == self.cap(),
    {
        self.max_length_samples
    }

    /// Renders `midi_note` at `velocity` from the loaded patch: the key is
    /// held for `gate_samples` samples, then released, and rendering goes on
    /// until the last tenth of a second has been silent (the silent tail
    /// beyond that is cut) or the safety cap is reached. Samples are 24-bit,
    /// full scale 2^23. Unless the cap was reached, the last tenth of a
    /// second is within the silence threshold.
    pub fn render_note(&mut self, midi_note: u8, velocity: u8, gate_samples: usize) -> (r: Result<Vec<i32>, RenderError>)
        requires
            old(self).wf(),
        ensures
            final(self).wf(),
            final(self).rate() == old(self).rate(),
            final(self).cap() == old(self).cap(),
            final(self).has_patch() == old(self).has_patch(),
            final(self).loaded() == old(self).loaded(),
            !old(self).has_patch() <==> r == Err::<Vec<i32>, RenderError>(RenderError::NoPatch),
            old(self).has_patch() && midi_note > 127 <==> r == Err::<Vec<i32>, RenderError>(RenderError::InvalidMidiNote),
            old(self).has_patch() && midi_note <= 127 && velocity > 127 <==> r == Err::<Vec<i32>, RenderError>(RenderError::InvalidVelocity),
            old(self).has_patch() && midi_note <= 127 && velocity <= 127 && (gate_samples == 0 || gate_samples > old(self).cap())
                <==> r == Err::<Vec<i32>, RenderError>(RenderError::InvalidDuration),
            r is Ok ==> r->Ok_0@ == rendered(
                old(self).loaded(),
                old(self).rate() as int,
                midi_note as int,
                velocity as int,
                gate_samples as int,
                old(self).cap() as int,
            ),
            r is Ok ==> {
                let v = r->Ok_0@;
                &&& gate_samples <= v.len() <= old(self).cap()
                &&& in_range(v)
                &&& silent_voice(old(self).loaded()) ==> forall|i: int| 0 <= i < v.len() ==> #[trigger] v[i] == 0
                &&& v.len() == old(self).cap() || {
                    let w = old(self).rate() / 10;
                    &&& w <= v.len()
                    &&& forall|j: int| v.len() - w <= j < v.len() ==> quiet_sample(#[trigger] v[j])
                }
            },
    {
        if self.current_patch.is_none() {
            return Err(RenderError::NoPatch);
        }
        if midi_note > 127 {
            return Err(RenderError::InvalidMidiNote);
        }
        if velocity > 127 {
            return Err(RenderError::InvalidVelocity);
        }
        if gate_samples == 0 || gate_samples > self.max_length_samples {
            return Err(RenderError::InvalidDuration);
        }
        let cap: usize = self.max_length_samples;
        let mut note = Dx7Note::new();
        note.init(midi_note, velocity);
        note.apply_patch(&self.patch_data, &self.lut);
        proof {
            if silent_voice(self.patch_data@) {
                assert forall|i: int| 0 <= i < 6 implies #[trigger] quiet_op(note.operators@[i]) by {
                    let d = self.patch_data@;
                    let b = op_base(i);
                    assert(d[op_base(i) + 16] == 0);
                    lemma_zero_output_level(d, b, midi_note as int, velocity as int);
                    let e = note.operators@[i].env;
                    assert forall|j: int| 0 <= j < 4 implies #[trigger] crate::env::target_level(
                        e.levels@[j] as int,
                        e.outlevel as int,
                    ) == LEVEL_FLOOR by {
                        assert(0 <= e.levels@[j] <= 99);
                    }
                    assert(e.targetlevel == crate::env::target_level(e.levels@[0] as int, e.outlevel as int));
                }
            }
        }
        let ghost d = self.patch_data@;
        let ghost sr = self.sample_rate as int;
        let ghost g = gate_samples as int;
        let ghost s0 = start_state(d, sr, midi_note as int, velocity as int);
        proof {
            assert(self.lut.lut@ =~= freq_table(sr));
            assert(crate::env::initial_env().keydown_spec(true) == crate::env::initial_env());
            assert(note.operators@ =~= s0.ops);
            assert(note.fb_buf@ =~= seq![0i32, 0i32]);
            assert(state_of(note) == s0);
        }
        let mut output: Vec<i32> = Vec::new();
        let mut buf: Vec<i32> = zeros();
        assert(output@ =~= Seq::<i32>::empty());
        while output.len() < gate_samples
            invariant
                d == old(self).patch_data@,
                sr == old(self).sample_rate as int,
                g == gate_samples as int,
                s0 == start_state(d, sr, midi_note as int, velocity as int),
                gate_run(s0, seq![], g) == gate_run(state_of(note), output@, g),
                note.wf(),
                self.wf(),
                buf@.len() == N,
                output@.len() <= gate_samples <= cap,
                self.patch_data@ == old(self).patch_data@,
                silent_voice(self.patch_data@) ==> (forall|i: int| 0 <= i < 6 ==> #[trigger] quiet_op(note.operators@[i])),
                silent_voice(self.patch_data@) ==> (forall|i: int| 0 <= i < output@.len() ==> #[trigger] output@[i] == 0),
                cap == self.max_length_samples,
                self.sample_rate == old(self).sample_rate,
                self.max_length_samples == old(self).max_length_samples,
                self.current_patch is Some,
                old(self).current_patch is Some,
                self.current_patch == old(self).current_patch,
                midi_note <= 127,
                velocity <= 127,
                0 < gate_samples,
                in_range(output@),
            decreases gate_samples - output@.len(),
        {
            let ghost st = state_of(note);
            let ghost out0 = output@;
            Self::render_block(&mut note, &self.sin, &mut buf);
            let remaining: usize = gate_samples - output.len();
            let take: usize = if remaining < N {
                remaining
            } else {
                N
            };
            Self::append(&mut output, &buf, take);
            assert(gate_run(st, out0, g) == gate_run(state_of(note), output@, g));
        }
        let ghost s1 = state_of(note);
        assert(gate_run(s1, output@, g) == (s1, output@));
        let ghost held = note;
        note.release();
        proof {
            assert(note.operators@ =~= released(s1).ops);
            assert(state_of(note) == released(s1));
            if silent_voice(self.patch_data@) {
                assert forall|i: int| 0 <= i < 6 implies #[trigger] quiet_op(note.operators@[i]) by {
                    assert(held.operators@[i].wf() && quiet_op(held.operators@[i]));
                    lemma_quiet_keydown(held.operators@[i].env, false);
                }
            }
        }
        let window: usize = (self.sample_rate / 10) as usize;
        let mut silent: usize = 0;
        while output.len() < cap
            invariant
                rendered(d, sr, midi_note as int, velocity as int, g, cap as int) == tail_run(
                    state_of(note),
                    output@,
                    silent as int,
                    cap as int,
                    window as int,
                    g,
                ),
                d == old(self).patch_data@,
                sr == old(self).sample_rate as int,
                g == gate_samples as int,
                note.wf(),
                self.wf(),
                buf@.len() == N,
                gate_samples <= output@.len() <= cap,
                self.patch_data@ == old(self).patch_data@,
                silent_voice(self.patch_data@) ==> (forall|i: int| 0 <= i < 6 ==> #[trigger] quiet_op(note.operators@[i])),
                silent_voice(self.patch_data@) ==> (forall|i: int| 0 <= i < output@.len() ==> #[trigger] output@[i] == 0),
                cap == self.max_length_samples,
                self.sample_rate == old(self).sample_rate,
                self.max_length_samples == old(self).max_length_samples,
                self.current_patch is Some,
                old(self).current_patch is Some,
                self.current_patch == old(self).current_patch,
                midi_note <= 127,
                velocity <= 127,
                0 < gate_samples,
                in_range(output@),
                silent <= output@.len(),
                window == self.sample_rate / 10,
                forall|j: int| output@.len() - silent <= j < output@.len() ==> quiet_sample(#[trigger] output@[j]),
            decreases cap - output@.len(),
        {
            let ghost st = state_of(note);
            let ghost out0 = output@;
            let ghost silent0 = silent as int;
            Self::render_block(&mut note, &self.sin, &mut buf);
            let remaining: usize = cap - output.len();
            let take: usize = if remaining < N {
                remaining
            } else {
                N
            };
            let ghost ext = output@ + buf@.subrange(0, take as int);
            let ghost blk = buf@.subrange(0, take as int);
            assert(blk.subrange(0, 0) =~= Seq::<i32>::empty());
            let mut i: usize = 0;
            while i < take
                invariant
                    blk == buf@.subrange(0, take as int),
                    silent == quiet_run(silent0, blk.subrange(0, i as int)),
                    i <= take <= N,
                    buf@.len() == N,
                    output@.len() + take <= cap,
                    silent <= output@.len() + i,
                    ext == output@ + buf@.subrange(0, take as int),
                    forall|j: int|
                        output@.len() + i - silent <= j < output@.len() + i ==> quiet_sample(#[trigger] ext[j]),
                decreases take - i,
            {
                let s: i32 = buf[i];
                assert(blk.subrange(0, i + 1).drop_last() =~= blk.subrange(0, i as int));
                if -SILENCE_THRESHOLD <= s && s <= SILENCE_THRESHOLD {
                    silent = silent + 1;
                } else {
                    silent = 0;
                }
                i = i + 1;
            }
            assert(blk.subrange(0, take as int) =~= blk);
            Self::append(&mut output, &buf, take);
            assert(output@ == ext);
            if silent >= window {
                let keep: usize = output.len() - (silent - window);
                let keep: usize = if keep < gate_samples {
                    gate_samples
                } else {
                    keep
                };
                let ghost full = output@;
                output.truncate(keep);
                assert(output@ =~= full.subrange(0, keep as int));
                assert forall|j: int| keep - window <= j < keep implies quiet_sample(#[trigger] output@[j]) by {
                    assert(output@[j] == full[j]);
                }
                self.note = note;
                return Ok(output);
            }
        }
        self.note = note;
        Ok(output)
    }

    /// Renders one block of the note into `buf`, taken down by
    /// `OUTPUT_SHIFT` bits and clamped to 24 bits.
    fn render_block(note: &mut Dx7Note, sin: &Sin, buf: &mut Vec<i32>)
        requires
            old(note).wf(),
            sin.wf(),
            old(buf)@.len() == N,
        ensures
            final(note).wf(),
            final(buf)@.len() == N,
            in_range(final(buf)@),
            final(buf)@ == block_samples(state_of(*old(note))),
            state_of(*final(note)) == step_state(state_of(*old(note))),
            (forall|i: int| 0 <= i < 6 ==> #[trigger] quiet_op(old(note).operators@[i])) ==> {
                &&& forall|i: int| 0 <= i < 6 ==> #[trigger] quiet_op(final(note).operators@[i])
                &&& forall|j: int| 0 <= j < N ==> #[trigger] final(buf)@[j] == 0
            },
    {
        let mut i: usize = 0;
        while i < N
            invariant
                i <= N,
                buf@.len() == N,
                forall|j: int| 0 <= j < i ==> #[trigger] buf@[j] == 0,
            decreases N - i,
        {
            buf.set(i, 0);
            i = i + 1;
        }
        let ghost before = *note;
        proof {
            if forall|i: int| 0 <= i < 6 ==> #[trigger] quiet_op(before.operators@[i]) {
                lemma_quiet_note(before);
            }
        }
        note.process(sin, buf);
        let ghost quiet = forall|i: int| 0 <= i < 6 ==> #[trigger] quiet_op(before.operators@[i]);
        assert(quiet ==> forall|j: int| 0 <= j < N ==> #[trigger] buf@[j] == 0);
        let ghost voice_out = buf@;
        let ghost st = state_of(before);
        proof {
            assert(st.ops == before.operators@);
            if before.is_active_spec() {
                let k = choose|k: int| 0 <= k < 6 && #[trigger] sounding(before.operators@[k]);
                assert(sounding(st.ops[k]));
            }
            if state_sounds(st) {
                let k = choose|k: int| 0 <= k < 6 && #[trigger] sounding(st.ops[k]);
                assert(sounding(before.operators@[k]));
            }
            assert(before.is_active_spec() == state_sounds(st));
            if state_sounds(st) {
                assert(voice_out == block_raw(st));
                assert(note.operators@ =~= Seq::new(6, |i: int| st.ops[i].next_spec()));
            } else {
                assert(voice_out =~= block_raw(st));
            }
            assert(state_of(*note) == step_state(st));
        }
        let mut i: usize = 0;
        while i < N
            invariant
                i <= N,
                buf@.len() == N,
                voice_out.len() == N,
                forall|j: int| 0 <= j < i ==> -FULL_SCALE <= #[trigger] buf@[j] < FULL_SCALE,
                quiet ==> forall|j: int| 0 <= j < N ==> #[trigger] buf@[j] == 0,
                forall|j: int| 0 <= j < i ==> #[trigger] buf@[j] == out_sample(voice_out[j]),
                forall|j: int| i <= j < N ==> #[trigger] buf@[j] == voice_out[j],
            decreases N - i,
        {
            let raw: i32 = buf[i];
            let s: i32 = raw >> OUTPUT_SHIFT;
            assert(raw == 0 ==> s == 0) by (bit_vector)
                requires
                    s == raw >> 3i32,
            ;
            let c: i32 = if s < -FULL_SCALE {
                -FULL_SCALE
            } else if s > FULL_SCALE - 1 {
                FULL_SCALE - 1
            } else {
                s
            };
            assert(c == out_sample(voice_out[i as int]));
            buf.set(i, c);
            i = i + 1;
        }
        assert(buf@ =~= block_samples(st));
    }

    /// Appends the first `take` samples of `buf` to `output`.
    fn append(output: &mut Vec<i32>, buf: &Vec<i32>, take: usize)
        requires
            take <= buf@.len(),
            in_range(old(output)@),
            in_range(buf@),
        ensures
            final(output)@ == old(output)@ + buf@.subrange(0, take as int),
            in_range(final(output)@),
            (forall|i: int| 0 <= i < old(output)@.len() ==> #[trigger] old(output)@[i] == 0)
                && (forall|j: int| 0 <= j < buf@.len() ==> #[trigger] buf@[j] == 0) ==> forall|i: int|
                0 <= i < final(output)@.len() ==> #[trigger] final(output)@[i] == 0,
    {
        let mut i: usize = 0;
        while i < take
            invariant
                i <= take <= buf@.len(),
                in_range(buf@),
                output@ == old(output)@ + buf@.subrange(0, i as int),
                in_range(output@),
            decreases take - i,
        {
            output.push(buf[i]);
            i = i + 1;
            assert(output@ =~= old(output)@ + buf@.subrange(0, i as int));
        }
    }
}

} // verus!
