//! The thirty-two DX7 routing algorithms as operator opcodes, and the
//! meaning of one block of operators run through them.
use vstd::prelude::*;
use crate::constants::N;
use crate::fm_op_kernel::{fb_sample, fb_taps, mix, op_sample};

verus! {

/// Opcode bit: output goes to scratch bus one.
pub const OUT_BUS_ONE: u8 = 0x01;
/// Opcode bit: output goes to scratch bus two.
pub const OUT_BUS_TWO: u8 = 0x02;
/// Opcode bit: output is added to its bus.
pub const OUT_BUS_ADD: u8 = 0x04;
/// Opcode bit: modulation input from scratch bus one.
pub const IN_BUS_ONE: u8 = 0x10;
/// Opcode bit: modulation input from scratch bus two.
pub const IN_BUS_TWO: u8 = 0x20;
/// Opcode bit: the operator reads the feedback taps.
pub const FB_IN: u8 = 0x40;
/// Opcode bit: the operator writes the feedback taps.
pub const FB_OUT: u8 = 0x80;

/// Opcodes of the six operators of each algorithm, algorithm after
/// algorithm, in the order the operators run.
pub const ALGORITHM_OPS: [u8; 192] = [
    0xc1, 0x11, 0x11, 0x14, 0x01, 0x14,
    0x01, 0x11, 0x11, 0x14, 0xc1, 0x14,
    0xc1, 0x11, 0x14, 0x01, 0x11, 0x14,
    0xc1, 0x11, 0x94, 0x01, 0x11, 0x14,
    0xc1, 0x14, 0x01, 0x14, 0x01, 0x14,
    0xc1, 0x94, 0x01, 0x14, 0x01, 0x14,
    0xc1, 0x11, 0x05, 0x14, 0x01, 0x14,
    0x01, 0x11, 0xc5, 0x14, 0x01, 0x14,
    0x01, 0x11, 0x05, 0x14, 0xc1, 0x14,
    0x01, 0x05, 0x14, 0xc1, 0x11, 0x14,
    0xc1, 0x05, 0x14, 0x01, 0x11, 0x14,
    0x01, 0x05, 0x05, 0x14, 0xc1, 0x14,
    0xc1, 0x05, 0x05, 0x14, 0x01, 0x14,
    0xc1, 0x05, 0x11, 0x14, 0x01, 0x14,
    0x01, 0x05, 0x11, 0x14, 0xc1, 0x14,
    0xc1, 0x11, 0x02, 0x25, 0x05, 0x14,
    0x01, 0x11, 0x02, 0x25, 0xc5, 0x14,
    0x01, 0x11, 0x11, 0xc5, 0x05, 0x14,
    0xc1, 0x14, 0x14, 0x01, 0x11, 0x14,
    0x01, 0x05, 0x14, 0xc1, 0x14, 0x14,
    0x01, 0x14, 0x14, 0xc1, 0x14, 0x14,
    0xc1, 0x14, 0x14, 0x14, 0x01, 0x14,
    0xc1, 0x14, 0x14, 0x01, 0x14, 0x04,
    0xc1, 0x14, 0x14, 0x14, 0x04, 0x04,
    0xc1, 0x14, 0x14, 0x04, 0x04, 0x04,
    0xc1, 0x05, 0x14, 0x01, 0x14, 0x04,
    0x01, 0x05, 0x14, 0xc1, 0x14, 0x04,
    0x04, 0xc1, 0x11, 0x14, 0x01, 0x14,
    0xc1, 0x05, 0x14, 0x04, 0x01, 0x14,
    0x04, 0xc1, 0x11, 0x14, 0x04, 0x04,
    0xc1, 0x14, 0x04, 0x04, 0x04, 0x04,
    0xc4, 0x04, 0x04, 0x04, 0x04, 0x04,
];

/// Gains below this (Q24) are inaudible: the operator is skipped.
pub const LEVEL_THRESHOLD: i32 = 1120;

/// The six opcodes of one algorithm.
#[derive(Clone, Copy, Debug)]
pub struct FmAlgorithm {
    /// Opcode of each operator, in the order they run.
    pub ops: [u8; 6],
}

/// Opcode of operator `op` in algorithm `alg` (0-based).
pub open spec fn opcode(alg: int, op: int) -> u8 {
    ALGORITHM_OPS@[alg * 6 + op]
}

impl FmAlgorithm {
    /// The opcodes of algorithm `alg` (0-based, DX7 algorithm alg + 1).
    pub fn get(alg: usize) -> (r: FmAlgorithm)
        requires
            alg < 32,
        ensures
            forall|i: int| 0 <= i < 6 ==> #[trigger] r.ops@[i] == opcode(alg as int, i),
    {
        let b: usize = alg * 6;
        FmAlgorithm {
            ops: [
                ALGORITHM_OPS[b],
                ALGORITHM_OPS[b + 1],
                ALGORITHM_OPS[b + 2],
                ALGORITHM_OPS[b + 3],
                ALGORITHM_OPS[b + 4],
                ALGORITHM_OPS[b + 5],
            ],
        }
    }
}

/// Which kernel an operator runs with.
#[derive(Clone, Copy, Debug, PartialEq, Eq, Structural)]
pub enum KernelKind {
    /// An unmodulated sine.
    Pure,
    /// A sine modulated by a bus.
    Modulated,
    /// A sine modulated by its own last outputs.
    Feedback,
}

/// The buses of one block as the operators leave them: the output and the
/// two scratch buses, which of the three hold something, and the feedback
/// taps.
pub struct Buses {
    /// Main output.
    pub out: Seq<i32>,
    /// Scratch bus one.
    pub bus1: Seq<i32>,
    /// Scratch bus two.
    pub bus2: Seq<i32>,
    /// Whether output, bus one and bus two hold something.
    pub has: Seq<bool>,
    /// Feedback taps: the last two outputs of the feedback operator.
    pub fb: (i32, i32),
}

/// Output bus of an opcode: 0 main, 1 and 2 scratch.
pub open spec fn out_bus(flags: u8) -> int {
    (flags & 3u8) as int
}

/// Input bus of an opcode: 0 none, 1 and 2 scratch.
pub open spec fn in_bus(flags: u8) -> int {
    ((flags >> 4u8) & 3u8) as int
}

/// Whether an opcode adds to its bus.
pub open spec fn adds(flags: u8) -> bool {
    flags & 4u8 != 0
}

/// Whether an opcode marks the feedback operator.
pub open spec fn is_feedback(flags: u8) -> bool {
    flags & 0xC0u8 == 0xC0u8
}

/// Contents of bus `k`.
pub open spec fn bus(b: Buses, k: int) -> Seq<i32> {
    if k == 0 {
        b.out
    } else if k == 1 {
        b.bus1
    } else {
        b.bus2
    }
}

/// `b` with bus `k` replaced.
pub open spec fn with_bus(b: Buses, k: int, s: Seq<i32>) -> Buses {
    if k == 0 {
        Buses { out: s, ..b }
    } else if k == 1 {
        Buses { bus1: s, ..b }
    } else {
        Buses { bus2: s, ..b }
    }
}

/// The kernel an operator runs with: modulated when its input bus holds
/// something, else feedback if it is the feedback operator and feedback is
/// on (shift below 16), else pure.
pub open spec fn kernel_kind(flags: u8, b: Buses, fb_shift: i32) -> KernelKind {
    let ib = in_bus(flags);
    if (ib == 1 || ib == 2) && b.has[ib] {
        KernelKind::Modulated
    } else if is_feedback(flags) && fb_shift < 16 {
        KernelKind::Feedback
    } else {
        KernelKind::Pure
    }
}

/// What a kernel leaves in `dest`, and the feedback taps after it.
pub open spec fn kernel_out(
    kind: KernelKind,
    dest: Seq<i32>,
    input: Seq<i32>,
    fb: (i32, i32),
    phase: i32,
    freq: i32,
    gain1: i32,
    gain2: i32,
    fb_shift: i32,
    add: bool,
) -> (Seq<i32>, (i32, i32)) {
    match kind {
        KernelKind::Pure => (
            Seq::new(N as nat, |i: int| mix(add, dest[i], op_sample(phase, freq, gain1, gain2, 0, i))),
            fb,
        ),
        KernelKind::Modulated => (
            Seq::new(
                N as nat,
                |i: int| mix(add, dest[i], op_sample(phase, freq, gain1, gain2, input[i], i)),
            ),
            fb,
        ),
        KernelKind::Feedback => (
            Seq::new(
                N as nat,
                |i: int|
                    mix(
                        add,
                        dest[i],
                        fb_sample(phase, freq, gain1, gain2, fb_shift, fb.0, fb.1, i),
                    ),
            ),
            fb_taps(phase, freq, fb_shift, fb.0, fb.1, N as nat),
        ),
    }
}

/// The buses after one operator with opcode `flags`: an audible operator
/// (either gain at the threshold or above) writes its bus, overwriting it
/// if the bus is still empty, and marks it full; an inaudible one marks its
/// bus empty unless it would have added to it. An opcode with output bus 3
/// does nothing.
pub open spec fn op_block(
    b: Buses,
    flags: u8,
    phase: i32,
    freq: i32,
    gain1: i32,
    gain2: i32,
    fb_shift: i32,
) -> Buses {
    let ob = out_bus(flags);
    if ob == 3 {
        b
    } else if gain1 >= LEVEL_THRESHOLD || gain2 >= LEVEL_THRESHOLD {
        let add = adds(flags) && b.has[ob];
        let kind = kernel_kind(flags, b, fb_shift);
        let (s, fb) = kernel_out(
            kind,
            bus(b, ob),
            bus(b, in_bus(flags)),
            b.fb,
            phase,
            freq,
            gain1,
            gain2,
            fb_shift,
            add,
        );
        Buses { has: with_bus(b, ob, s).has.update(ob, true), fb, ..with_bus(b, ob, s) }
    } else if !adds(flags) {
        Buses { has: b.has.update(ob, false), ..b }
    } else {
        b
    }
}

} // verus!
