//! A fixed-point DX7 FM synthesis engine: sine and exponential lookup,
//! operator kernels, envelopes, the thirty-two routing algorithms, voice
//! rendering and the DX7 SysEx voice format.
use vstd::prelude::*;

pub mod algorithm;
pub mod constants;
pub mod env;
pub mod controllers;
pub mod exp2;
pub mod fm_op_kernel;
pub mod freqlut;
pub mod pitchenv;
pub mod random;
pub mod scaling;
pub mod sin;
pub mod synth;
pub mod sysex;
pub mod voice;

verus! {

} // verus!
