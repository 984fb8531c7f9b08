//! Sine by table lookup with linear interpolation, and by polynomial.
use vstd::prelude::*;

verus! {

/// Base-two logarithm of the number of table entries per cycle.
pub const SIN_LG_N_SAMPLES: usize = 10;

/// Number of table entries per cycle.
pub const SIN_N_SAMPLES: usize = 1024;

/// cos(2π/1024) in Q30, rounded.
pub const SIN_ROT_COS: i64 = 1073721611;

/// sin(2π/1024) in Q30, rounded.
pub const SIN_ROT_SIN: i64 = 6588356;

/// Rounding offset for Q30 products.
pub const SIN_ROUND: i64 = 0x2000_0000;

/// The point (u, v) in Q30 after `k` rotations by 2π/1024 from (1, 0),
/// each coordinate rounded to nearest.
pub open spec fn rot(k: nat) -> (i32, i32)
    decreases k,
{
    if k == 0 {
        (0x4000_0000i32, 0i32)
    } else {
        let (u, v) = rot((k - 1) as nat);
        rot_step(u, v)
    }
}

/// One rotation step of `rot`.
pub open spec fn rot_step(u: i32, v: i32) -> (i32, i32) {
    let t = ((u as i64) * (SIN_ROT_SIN as i64) + (v as i64) * (SIN_ROT_COS as i64) + SIN_ROUND) as i64;
    let nu = ((u as i64) * (SIN_ROT_COS as i64) - (v as i64) * (SIN_ROT_SIN as i64) + SIN_ROUND) as i64;
    ((nu >> 30i64) as i32, (t >> 30i64) as i32)
}

/// Q24 sine of 2πk/1024 for k in the first half cycle, rounded from Q30.
pub open spec fn half_value(k: nat) -> i32 {
    ((((rot(k).1 as i64) + 32) as i64) >> 6i64) as i32
}

/// Table value at index `i` of a cycle of 1024: the second half is the
/// negated first half.
pub open spec fn sin_value(i: int) -> i32 {
    if i < 512 {
        half_value(i as nat)
    } else {
        (-(half_value((i - 512) as nat) as int)) as i32
    }
}

/// Difference to the next table value, wrapping at the end of the cycle.
pub open spec fn sin_delta(i: int) -> i32 {
    (sin_value((i + 1) % 1024) as int - sin_value(i) as int) as i32
}

/// Index into the cycle that a Q24 phase selects.
pub open spec fn phase_index(phase: i32) -> int {
    ((phase >> 14i32) & 1023i32) as int
}

/// The interpolated table sine of a phase (2^24 per cycle).
pub open spec fn sin_lookup_spec(phase: i32) -> int {
    let i = phase_index(phase);
    let low = (phase & 0x3FFFi32) as i64;
    sin_value(i) as int + ((((sin_delta(i) as i64) * low) as i64) >> 14i64) as int
}

/// Every table value lies within ±2^25.
pub proof fn lemma_sin_value_bounds(i: int)
    ensures
        -0x200_0000 <= sin_value(i) <= 0x200_0000,
        -0x400_0000 <= sin_delta(i) <= 0x400_0000,
        sin_value(i) + sin_delta(i) == sin_value((i + 1) % 1024),
{
    assert forall|k: nat| -0x200_0000 <= #[trigger] half_value(k) <= 0x200_0000 by {
        let v = rot(k).1;
        let y = (((v as i64) + 32) as i64) >> 6i64;
        assert(-0x200_0000 <= y <= 0x200_0000) by (bit_vector)
            requires
                y == (((v as i64) + 32) as i64) >> 6i64,
                -0x8000_0000 <= v <= 0x7FFF_FFFF,
        ;
    }
    let j = (i + 1) % 1024;
    assert(-0x200_0000 <= sin_value(j) <= 0x200_0000);
}

/// Sine tables: 1024 entries per cycle, each value beside its delta to the
/// next, so that interpolation is one multiply-add.
#[derive(Clone, Debug)]
pub struct Sin {
    tab: Vec<i32>,
}

impl Sin {
    /// The table holds, at 2i + 1, the value of entry i, and at 2i its delta.
    pub closed spec fn wf(&self) -> bool {
        &&& self.tab@.len() == 2048
        &&& forall|i: int|
            0 <= i < 1024 ==> #[trigger] self.tab@[2 * i + 1] == sin_value(i) && self.tab@[2 * i]
                == sin_delta(i)
    }

    /// Builds the table by rotating a Q30 vector 512 times.
    pub fn init() -> (r: Sin)
        ensures
            r.wf(),
    {
        let mut tab: Vec<i32> = Vec::new();
        let mut j: usize = 0;
        while j < 2048
            invariant
                j <= 2048,
                tab@.len() == j,
            decreases 2048 - j,
        {
            tab.push(0);
            j = j + 1;
        }
        let mut u: i32 = 0x4000_0000;
        let mut v: i32 = 0;
        let mut i: usize = 0;
        while i < 512
            invariant
                i <= 512,
                tab@.len() == 2048,
                (u, v) == rot(i as nat),
                forall|k: int| 0 <= k < i ==> #[trigger] tab@[2 * k + 1] == sin_value(k),
                forall|k: int| 512 <= k < i + 512 ==> #[trigger] tab@[2 * k + 1] == sin_value(k),
            decreases 512 - i,
        {
            let y: i64 = ((v as i64) + 32) >> 6;
            assert(-0x200_0000 <= y <= 0x200_0000) by (bit_vector)
                requires
                    y == (((v as i64) + 32) as i64) >> 6i64,
                    -0x8000_0000 <= v <= 0x7FFF_FFFF,
            ;
            assert(y as i32 == half_value(i as nat));
            tab.set(2 * i + 1, y as i32);
            tab.set(2 * (i + 512) + 1, (-y) as i32);
            let t: i64 = ((u as i64) * SIN_ROT_SIN + (v as i64) * SIN_ROT_COS + SIN_ROUND) >> 30;
            let nu: i64 = ((u as i64) * SIN_ROT_COS - (v as i64) * SIN_ROT_SIN + SIN_ROUND) >> 30;
            proof {
                let ts = ((u as i64) * (SIN_ROT_SIN as i64) + (v as i64) * (SIN_ROT_COS as i64)
                    + SIN_ROUND) as i64;
                let nus = ((u as i64) * (SIN_ROT_COS as i64) - (v as i64) * (SIN_ROT_SIN as i64)
                    + SIN_ROUND) as i64;
                assert(ts >> 30i64 == t);
                assert(nus >> 30i64 == nu);
                assert(rot_step(u, v) == ((nus >> 30i64) as i32, (ts >> 30i64) as i32));
            }
            u = nu as i32;
            v = t as i32;
            i = i + 1;
        }
        let mut i: usize = 0;
        while i < 1023
            invariant
                i <= 1023,
                tab@.len() == 2048,
                forall|k: int| 0 <= k < 1024 ==> #[trigger] tab@[2 * k + 1] == sin_value(k),
                forall|k: int| 0 <= k < i ==> #[trigger] tab@[2 * k] == sin_delta(k),
            decreases 1023 - i,
        {
            proof {
                lemma_sin_value_bounds(i as int);
                lemma_sin_value_bounds(i as int + 1);
            }
            assert(tab@[2 * (i + 1) + 1] == sin_value(i + 1));
            assert(tab@[2 * i + 1] == sin_value(i as int));
            let d: i32 = tab[2 * i + 3] - tab[2 * i + 1];
            tab.set(2 * i, d);
            i = i + 1;
        }
        proof {
            lemma_sin_value_bounds(1023);
            lemma_sin_value_bounds(0);
        }
        assert(tab@[2 * (1023 as int) + 1] == sin_value(1023));
        assert(rot(0).1 == 0);
        assert(((((0i32 as i64) + 32) as i64) >> 6i64) == 0) by (bit_vector);
        assert(sin_value(0) == 0);
        let last: i32 = -tab[2047];
        tab.set(2046, last);
        Sin { tab }
    }

    /// Sine of `phase` (2^24 per cycle) in Q24, interpolated between table
    /// entries.
    pub fn lookup(&self, phase: i32) -> (r: i32)
        requires
            self.wf(),
        ensures
            r as int == sin_lookup_spec(phase),
            -0x200_0000 <= r <= 0x200_0000,
    {
        let lowbits: i32 = phase & 0x3FFF;
        let idx: i32 = (phase >> 14) & 1023;
        assert(0 <= idx < 1024 && 0 <= lowbits < 0x4000) by (bit_vector)
            requires
                idx == (phase >> 14i32) & 1023i32,
                lowbits == phase & 0x3FFFi32,
        ;
        let k: usize = idx as usize;
        proof {
            lemma_sin_value_bounds(k as int);
            lemma_sin_value_bounds((k as int + 1) % 1024);
            lemma_sin_interp_bounds(sin_value(k as int), sin_delta(k as int), lowbits as i64);
        }
        assert(self.tab@[2 * k + 1] == sin_value(k as int));
        assert(self.tab@[2 * k] == sin_delta(k as int));
        let dy: i32 = self.tab[2 * k];
        let y0: i32 = self.tab[2 * k + 1];
        assert(-0x100_0000_0000 <= (dy as i64) * (lowbits as i64) <= 0x100_0000_0000)
            by (nonlinear_arith)
            requires
                -0x400_0000 <= dy <= 0x400_0000,
                0 <= lowbits < 0x4000,
        ;
        let p: i64 = (dy as i64) * (lowbits as i64);
        let q: i64 = p >> 14;
        y0 + q as i32
    }
}

/// `(a · b) >> sh` in 64-bit arithmetic.
pub open spec fn mul_shr_spec(a: i64, b: i64, sh: u32) -> i64 {
    ((a * b) as i64) >> sh
}

/// The degree-8 even polynomial for sine over a Q24 phase, evaluated by
/// Horner's rule in Q24.
pub open spec fn sin_poly8(phase: i32) -> i32 {
    let x = ((phase & 0x7F_FFFFi32) - 0x40_0000) as i64;
    let x2 = ((x * x) as i64) >> 16i64;
    let a = (mul_shr_spec(950108533, x2, 32) - 1430910663) as i64;
    let b = (mul_shr_spec(a, x2, 32) + 1089453524) as i64;
    let c = (mul_shr_spec(b, x2, 32) - 331168742) as i64;
    let y = (mul_shr_spec(c, x2, 32) + 16777216) as i32;
    y ^ (-((phase >> 23i32) & 1i32)) as i32
}

/// The degree-10 even polynomial for sine over a Q30 phase, evaluated by
/// Horner's rule in Q30.
pub open spec fn sin_poly10(phase: i32) -> i32 {
    let x = ((phase & 0x1FFF_FFFFi32) - 0x1000_0000) as i64;
    let x2 = ((x * x) as i64) >> 26i64;
    let a = (mul_shr_spec(-421101352i64, x2, 34) + 1009356886) as i64;
    let b = (mul_shr_spec(a, x2, 34) - 1433689867) as i64;
    let c = (mul_shr_spec(b, x2, 34) + 1089501821) as i64;
    let d = (mul_shr_spec(c, x2, 32) - 1324675874) as i64;
    let y = (mul_shr_spec(d, x2, 30) + 0x4000_0000) as i32;
    y ^ (-((phase >> 29i32) & 1i32)) as i32
}

/// One Horner step: `(a · b) >> sh` for |a| ≤ 2^31, 0 ≤ b ≤ 2^30.
fn mul_shr(a: i64, b: i64, sh: u32) -> (r: i64)
    requires
        -0x8000_0000 <= a <= 0x8000_0000,
        0 <= b <= 0x4000_0000,
        30 <= sh <= 34,
    ensures
        r == mul_shr_spec(a, b, sh),
        -0x8000_0000 <= r <= 0x8000_0000,
        sh >= 32 ==> -0x2000_0000 <= r <= 0x2000_0000,
{
    assert(-0x2000_0000_0000_0000 <= a * b <= 0x2000_0000_0000_0000) by (nonlinear_arith)
        requires
            -0x8000_0000 <= a <= 0x8000_0000,
            0 <= b <= 0x4000_0000,
    ;
    let p: i64 = a * b;
    let r: i64 = p >> sh;
    assert(-0x8000_0000 <= r <= 0x8000_0000 && (sh >= 32 ==> -0x2000_0000 <= r <= 0x2000_0000))
        by (bit_vector)
        requires
            -0x2000_0000_0000_0000 <= p <= 0x2000_0000_0000_0000,
            30 <= sh <= 34,
            r == p >> sh,
    ;
    r
}

impl Sin {
    /// Sine of a Q24 phase (2^24 per cycle) by an even polynomial of
    /// degree 8 over each half cycle, in Q24.
    pub fn compute(phase: i32) -> (r: i32)
        ensures
            r == sin_poly8(phase),
    {
        let m: i32 = phase & 0x7F_FFFF;
        let sign: i32 = (phase >> 23) & 1;
        assert(0 <= m < 0x80_0000 && 0 <= sign <= 1) by (bit_vector)
            requires
                m == phase & 0x7F_FFFFi32,
                sign == (phase >> 23i32) & 1i32,
        ;
        let x: i64 = (m - 0x40_0000) as i64;
        assert(0 <= x * x <= 0x1000_0000_0000) by (nonlinear_arith)
            requires
                -0x40_0000 <= x < 0x40_0000,
        ;
        let sq: i64 = x * x;
        let x2: i64 = sq >> 16;
        assert(0 <= x2 <= 0x1000_0000) by (bit_vector)
            requires
                0 <= sq <= 0x1000_0000_0000,
                x2 == sq >> 16i64,
        ;
        let a: i64 = mul_shr(950108533, x2, 32) - 1430910663;
        let b: i64 = mul_shr(a, x2, 32) + 1089453524;
        let c: i64 = mul_shr(b, x2, 32) - 331168742;
        let y: i32 = #[verifier::truncate] ((mul_shr(c, x2, 32) + 16777216) as i32);
        y ^ (-sign)
    }

    /// Sine of a Q30 phase (2^30 per cycle) by an even polynomial of
    /// degree 10 over each half cycle, in Q30.
    pub fn compute10(phase: i32) -> (r: i32)
        ensures
            r == sin_poly10(phase),
    {
        let m: i32 = phase & 0x1FFF_FFFF;
        let sign: i32 = (phase >> 29) & 1;
        assert(0 <= m < 0x2000_0000 && 0 <= sign <= 1) by (bit_vector)
            requires
                m == phase & 0x1FFF_FFFFi32,
                sign == (phase >> 29i32) & 1i32,
        ;
        let x: i64 = (m - 0x1000_0000) as i64;
        assert(0 <= x * x <= 0x100_0000_0000_0000) by (nonlinear_arith)
            requires
                -0x1000_0000 <= x < 0x1000_0000,
        ;
        let sq: i64 = x * x;
        let x2: i64 = sq >> 26;
        assert(0 <= x2 <= 0x4000_0000) by (bit_vector)
            requires
                0 <= sq <= 0x100_0000_0000_0000,
                x2 == sq >> 26i64,
        ;
        let a: i64 = mul_shr(-421101352, x2, 34) + 1009356886;
        let b: i64 = mul_shr(a, x2, 34) - 1433689867;
        let c: i64 = mul_shr(b, x2, 34) + 1089501821;
        let d: i64 = mul_shr(c, x2, 32) - 1324675874;
        let y: i32 = #[verifier::truncate] ((mul_shr(d, x2, 30) + 0x4000_0000) as i32);
        y ^ (-sign)
    }
}

/// Interpolating by a fraction below one stays between the two neighbours.
proof fn lemma_sin_interp_bounds(y0: i32, dy: i32, low: i64)
    requires
        -0x200_0000 <= y0 <= 0x200_0000,
        -0x400_0000 <= dy <= 0x400_0000,
        -0x200_0000 <= y0 + dy <= 0x200_0000,
        0 <= low < 0x4000,
    ensures
        -0x200_0000 <= y0 + (((dy as i64) * low) as i64 >> 14i64) <= 0x200_0000,
{
    let p = ((dy as i64) * low) as i64;
    if dy >= 0 {
        assert(0 <= (dy as i64) * low <= (dy as i64) * 0x4000) by (nonlinear_arith)
            requires
                dy >= 0,
                0 <= low < 0x4000,
        ;
        assert(0 <= (p >> 14i64) <= dy) by (bit_vector)
            requires
                0 <= p <= (dy as i64) * 0x4000,
                0 <= dy <= 0x400_0000,
        ;
    } else {
        assert((dy as i64) * 0x4000 <= (dy as i64) * low <= 0) by (nonlinear_arith)
            requires
                dy < 0,
                0 <= low < 0x4000,
        ;
        assert(dy <= (p >> 14i64) <= 0) by (bit_vector)
            requires
                (dy as i64) * 0x4000 <= p <= 0,
                -0x400_0000 <= dy < 0,
        ;
    }
}

} // verus!
