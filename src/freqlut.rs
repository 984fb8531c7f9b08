//! Conversion from log2 frequency to phase increment.
use vstd::prelude::*;

verus! {

/// Number of table intervals per octave.
pub const FREQLUT_N_SAMPLES: usize = 1024;

/// Highest octave the table is anchored at: entry 0 is 2^20 Hz.
pub const MAX_LOGFREQ_INT: i32 = 20;

/// 2^(1/1024) in Q40: the ratio between neighbouring entries.
pub const FREQLUT_STEP: u128 = 1100256140847;

/// Bound on the Q20 accumulator, far above any entry that fits 32 bits.
pub const FREQLUT_CAP: u128 = 0x40_0000_0000_0000_0000;

/// Entry `k` of the table in Q20, before rounding: 2^44 / sample_rate scaled
/// by 2^(k/1024), multiplied up one step at a time in fixed point.
pub open spec fn freq_acc(sample_rate: int, k: nat) -> int
    decreases k,
{
    if k == 0 {
        0x1_0000_0000_0000_0000int / sample_rate
    } else {
        let p = freq_acc(sample_rate, (k - 1) as nat) * FREQLUT_STEP / 0x100_0000_0000;
        if p > FREQLUT_CAP {
            FREQLUT_CAP as int
        } else {
            p
        }
    }
}

/// Entry `k` of the table: the phase increment, 2^24 per cycle, of
/// 2^(20 + k/1024) Hz, rounded and saturated to 32 bits.
pub open spec fn freq_entry(sample_rate: int, k: nat) -> i32 {
    let e = (freq_acc(sample_rate, k) + 0x8_0000) / 0x10_0000;
    if e > 0x7FFF_FFFF {
        0x7FFF_FFFF
    } else {
        e as i32
    }
}

/// Linear interpolation between two table entries at a 14-bit fraction.
pub open spec fn interp14(y0: i32, y1: i32, low: int) -> int {
    y0 + ((((y1 as i64) - (y0 as i64)) * (low as i64)) as i64 >> 14i64)
}

/// The phase increment of a log2 frequency: the table interpolated at the
/// fraction of an octave, shifted by the octave relative to 2^20 Hz (the
/// shift clamped to 31 bits either way).
pub open spec fn freqlut_lookup_spec(lut: Seq<i32>, logfreq: i32) -> i32 {
    let ix = ((logfreq & 0xFF_FFFFi32) >> 14i32) as int;
    let low = (logfreq & 0x3FFFi32) as int;
    let y = interp14(lut[ix], lut[ix + 1], low) as i32;
    let shift = 20 - (logfreq >> 24i32);
    if shift < 0 {
        vstd::wrapping::i32_specs::wrapping_shl(y, (if -shift > 31 { 31 } else { -shift }) as u32)
    } else {
        y >> (if shift > 31 { 31 } else { shift }) as i32
    }
}

/// Table of phase increments over one octave, for one sample rate.
#[derive(Clone, Debug)]
pub struct Freqlut {
    /// The sample rate the table was built for.
    pub sample_rate: u32,
    /// 1025 entries: one octave and its end point.
    pub lut: Vec<i32>,
}

/// Interpolating between two non-negative values stays between them.
proof fn lemma_interp14_bounds(y0: i32, y1: i32, low: int)
    requires
        0 <= y0,
        0 <= y1,
        0 <= low < 0x4000,
    ensures
        0 <= interp14(y0, y1, low) <= 0x7FFF_FFFF,
        -0x8000_0000_0000 <= ((y1 as i64) - (y0 as i64)) * (low as i64) <= 0x8000_0000_0000,
{
    let d: i64 = ((y1 as i64) - (y0 as i64)) as i64;
    let l: i64 = low as i64;
    if d >= 0 {
        assert(0 <= d * l <= d * 0x4000) by (nonlinear_arith)
            requires
                d >= 0,
                0 <= l < 0x4000,
        ;
        let p = (d * l) as i64;
        assert(0 <= (p >> 14i64) <= d) by (bit_vector)
            requires
                0 <= p <= (d as i64) * 0x4000,
                0 <= d <= 0x7FFF_FFFF,
        ;
    } else {
        assert(d * 0x4000 <= d * l <= 0) by (nonlinear_arith)
            requires
                d < 0,
                0 <= l < 0x4000,
        ;
        let p = (d * l) as i64;
        assert(d <= (p >> 14i64) <= 0) by (bit_vector)
            requires
                (d as i64) * 0x4000 <= p <= 0,
                -0x8000_0000 <= d < 0,
        ;
    }
}

impl Freqlut {
    /// The table holds entry k of `freq_entry` at index k, all non-negative.
    pub open spec fn wf(&self) -> bool {
        &&& self.sample_rate > 0
        &&& self.lut@.len() == 1025
        &&& forall|k: int|
            0 <= k <= 1024 ==> #[trigger] self.lut@[k] == freq_entry(self.sample_rate as int, k as nat)
        &&& forall|k: int| 0 <= k <= 1024 ==> 0 <= #[trigger] self.lut@[k]
    }

    /// Builds the table for a sample rate.
    pub fn init(sample_rate: u32) -> (r: Freqlut)
        requires
            sample_rate > 0,
        ensures
            r.wf(),
            r.sample_rate == sample_rate,
    {
        let mut lut: Vec<i32> = Vec::new();
        let mut y: u128 = 0x1_0000_0000_0000_0000u128 / (sample_rate as u128);
        let mut k: usize = 0;
        while k <= FREQLUT_N_SAMPLES
            invariant
                k <= 1025,
                sample_rate > 0,
                lut@.len() == k,
                y == freq_acc(sample_rate as int, k as nat),
                y <= FREQLUT_CAP,
                forall|j: int| 0 <= j < k ==> #[trigger] lut@[j] == freq_entry(sample_rate as int, j as nat),
                forall|j: int| 0 <= j < k ==> 0 <= #[trigger] lut@[j],
            decreases 1025 - k,
        {
            let e: u128 = (y + 0x8_0000) / 0x10_0000;
            let entry: i32 = if e > 0x7FFF_FFFF {
                0x7FFF_FFFF
            } else {
                e as i32
            };
            lut.push(entry);
            assert(y * FREQLUT_STEP <= FREQLUT_CAP * FREQLUT_STEP) by (nonlinear_arith)
                requires
                    y <= FREQLUT_CAP,
            ;
            let p: u128 = y * FREQLUT_STEP / 0x100_0000_0000;
            y = if p > FREQLUT_CAP {
                FREQLUT_CAP
            } else {
                p
            };
            k = k + 1;
        }
        Freqlut { sample_rate, lut }
    }

    /// Entry `k` of the table.
    pub fn entry(&self, k: usize) -> (r: i32)
        requires
            self.wf(),
            k <= 1024,
        ensures
            r == freq_entry(self.sample_rate as int, k as nat),
    {
        self.lut[k]
    }

    /// The phase increment (2^24 per cycle) of a Q24 log2 frequency in Hz.
    pub fn lookup(&self, logfreq: i32) -> (r: i32)
        requires
            self.wf(),
        ensures
            r == freqlut_lookup_spec(self.lut@, logfreq),
    {
        let ix: i32 = (logfreq & 0xFF_FFFF) >> 14;
        let lowbits: i32 = logfreq & 0x3FFF;
        assert(0 <= ix < 1024 && 0 <= lowbits < 0x4000) by (bit_vector)
            requires
                ix == (logfreq & 0xFF_FFFFi32) >> 14i32,
                lowbits == logfreq & 0x3FFFi32,
        ;
        let i: usize = ix as usize;
        let y0: i32 = self.lut[i];
        let y1: i32 = self.lut[i + 1];
        proof {
            lemma_interp14_bounds(y0, y1, lowbits as int);
        }
        let d: i64 = (y1 as i64) - (y0 as i64);
        let y: i32 = (y0 as i64 + ((d * (lowbits as i64)) >> 14)) as i32;
        let hibits: i32 = logfreq >> 24;
        assert(-128 <= hibits <= 127) by (bit_vector)
            requires
                hibits == logfreq >> 24i32,
        ;
        let shift: i32 = MAX_LOGFREQ_INT - hibits;
        if shift < 0 {
            let s: i32 = if -shift > 31 {
                31
            } else {
                -shift
            };
            y.wrapping_shl(s as u32)
        } else {
            let s: i32 = if shift > 31 {
                31
            } else {
                shift
            };
            y >> s
        }
    }
}

} // verus!
