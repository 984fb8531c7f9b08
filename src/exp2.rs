//! Fixed-point 2^x.
use vstd::prelude::*;

verus! {

/// Inputs below -20 (in Q24) give zero.
pub const EXP2_FLOOR: i32 = -335544320;

/// Coefficients (Q30) of the degree-5 fit of 2^f - 1 over [0, 1), lowest
/// degree first.
pub const EXP2_C1: u64 = 744265553;
pub const EXP2_C2: u64 = 257874669;
pub const EXP2_C3: u64 = 59914407;
pub const EXP2_C4: u64 = 9682467;
pub const EXP2_C5: u64 = 2004545;

/// 2^k for a natural k.
pub open spec fn pow2i(k: nat) -> int
    decreases k,
{
    if k == 0 {
        1
    } else {
        2 * pow2i((k - 1) as nat)
    }
}

/// One Horner step in Q24: `a · f / 2^24 + c`.
pub open spec fn horner(a: int, f: int, c: int) -> int {
    a * f / 0x100_0000 + c
}

/// 2^(f / 2^24) in Q24 for a Q24 fraction f in [0, 1), by the polynomial fit
/// evaluated in Q30.
pub open spec fn exp2_mantissa(f: int) -> int {
    let a = horner(EXP2_C5 as int, f, EXP2_C4 as int);
    let b = horner(a, f, EXP2_C3 as int);
    let c = horner(b, f, EXP2_C2 as int);
    let d = horner(c, f, EXP2_C1 as int);
    horner(d, f, 0x4000_0000) / 64
}

/// 2^x for Q24 input x, in Q24: zero below -20, saturated at i32::MAX from
/// 7 up; otherwise the mantissa of the fractional part scaled by the
/// integer part, rounded down.
pub open spec fn exp2_spec(x: int) -> int {
    if x < EXP2_FLOOR {
        0
    } else {
        let s = x + 20 * 0x100_0000;
        let ip = s / 0x100_0000 - 20;
        let m = exp2_mantissa(s % 0x100_0000);
        if ip >= 7 {
            0x7FFF_FFFF
        } else if ip >= 0 {
            m * pow2i(ip as nat)
        } else {
            m / pow2i((-ip) as nat)
        }
    }
}

/// Fixed-point base-two exponential.
pub struct Exp2;

/// 2^k for k ≤ 20.
fn pow2_small(k: u32) -> (r: u64)
    requires
        k <= 20,
    ensures
        r == pow2i(k as nat),
        1 <= r <= 0x10_0000,
{
    proof {
        reveal_with_fuel(pow2i, 21);
        assert(pow2i(20) == 0x10_0000);
    }
    let mut p: u64 = 1;
    let mut i: u32 = 0;
    while i < k
        invariant
            i <= k <= 20,
            p == pow2i(i as nat),
            pow2i(20) == 0x10_0000,
        decreases k - i,
    {
        proof {
            lemma_pow2i_monotonic((i + 1) as nat, 20);
        }
        p = p * 2;
        i = i + 1;
    }
    proof {
        lemma_pow2i_monotonic(i as nat, 20);
    }
    p
}

/// One Horner step `a · f / 2^24 + c` for a ≤ 2^31 and f < 2^24.
fn horner_step(a: u64, f: u64, c: u64) -> (r: u64)
    requires
        a <= 0x8000_0000,
        f < 0x100_0000,
        c <= 0x4000_0000,
    ensures
        r == horner(a as int, f as int, c as int),
        r <= a + c,
{
    assert(a * f <= a * 0x100_0000) by (nonlinear_arith)
        requires
            f < 0x100_0000,
    ;
    let r = a * f / 0x100_0000 + c;
    r
}

/// The mantissa is at least 2^24 and grows with f.
pub proof fn lemma_exp2_mantissa_monotonic(f: int, g: int)
    requires
        0 <= f <= g < 0x100_0000,
    ensures
        0x100_0000 <= exp2_mantissa(f) <= exp2_mantissa(g),
{
    assert forall|a: int, b: int, c: int, x: int, y: int|
        0 <= a <= b && 0 <= x <= y && c >= 0 implies 0 <= #[trigger] horner(a, x, c) <= #[trigger] horner(b, y, c) by {
        assert(a * x <= b * y) by (nonlinear_arith)
            requires
                0 <= a <= b,
                0 <= x <= y,
        ;
        assert(0 <= a * x) by (nonlinear_arith)
            requires
                0 <= a,
                0 <= x,
        ;
        vstd::arithmetic::div_mod::lemma_div_is_ordered(a * x, b * y, 0x100_0000);
        vstd::arithmetic::div_mod::lemma_div_pos_is_pos(a * x, 0x100_0000);
    }
    let af = horner(EXP2_C5 as int, f, EXP2_C4 as int);
    let ag = horner(EXP2_C5 as int, g, EXP2_C4 as int);
    let bf = horner(af, f, EXP2_C3 as int);
    let bg = horner(ag, g, EXP2_C3 as int);
    let cf = horner(bf, f, EXP2_C2 as int);
    let cg = horner(bg, g, EXP2_C2 as int);
    let df = horner(cf, f, EXP2_C1 as int);
    let dg = horner(cg, g, EXP2_C1 as int);
    let ef = horner(df, f, 0x4000_0000);
    let eg = horner(dg, g, 0x4000_0000);
    assert(0x4000_0000 <= ef <= eg);
    vstd::arithmetic::div_mod::lemma_div_is_ordered(ef, eg, 64);
    vstd::arithmetic::div_mod::lemma_div_is_ordered(0x4000_0000, ef, 64);
}

/// 2^k grows with k.
pub proof fn lemma_pow2i_monotonic(a: nat, b: nat)
    requires
        a <= b,
    ensures
        1 <= pow2i(a) <= pow2i(b),
    decreases b,
{
    if b > a {
        lemma_pow2i_monotonic(a, (b - 1) as nat);
    } else if a > 0 {
        lemma_pow2i_monotonic((a - 1) as nat, (a - 1) as nat);
    }
}

/// At whole numbers from -20 to 6 the exponential is exact: 2^(24 + k).
pub proof fn lemma_exp2_integer(k: int)
    requires
        -20 <= k <= 6,
    ensures
        exp2_spec(k * 0x100_0000) == if k >= 0 {
            0x100_0000int * pow2i(k as nat)
        } else {
            0x100_0000int / pow2i((-k) as nat)
        },
{
    let s = k * 0x100_0000 + 20 * 0x100_0000;
    assert(s == (k + 20) * 0x100_0000);
    vstd::arithmetic::div_mod::lemma_fundamental_div_mod_converse(s, 0x100_0000, k + 20, 0);
    assert(exp2_mantissa(0) == 0x100_0000);
}

/// A mantissa scaled by octave `q` (20 being 2^0), saturated from 27 up.
pub open spec fn scale_octave(q: int, m: int) -> int {
    if q >= 27 {
        0x7FFF_FFFF
    } else if q >= 20 {
        m * pow2i((q - 20) as nat)
    } else {
        m / pow2i((20 - q) as nat)
    }
}

/// Within an octave, a larger mantissa gives a larger result.
proof fn lemma_scale_mantissa(q: int, m1: int, m2: int)
    requires
        0 <= q,
        0x100_0000 <= m1 <= m2 <= 33554427,
    ensures
        0 <= scale_octave(q, m1) <= scale_octave(q, m2),
{
    if 20 <= q < 27 {
        lemma_pow2i_monotonic(0, (q - 20) as nat);
        let p = pow2i((q - 20) as nat);
        assert(0 <= m1 * p <= m2 * p) by (nonlinear_arith)
            requires
                0 <= m1 <= m2,
                1 <= p,
        ;
    } else if q < 20 {
        lemma_pow2i_monotonic(0, (20 - q) as nat);
        vstd::arithmetic::div_mod::lemma_div_is_ordered(m1, m2, pow2i((20 - q) as nat));
        vstd::arithmetic::div_mod::lemma_div_pos_is_pos(m1, pow2i((20 - q) as nat));
    }
}

/// The top of an octave does not exceed the bottom of the next one.
proof fn lemma_scale_next_octave(q: int, m: int, m2: int)
    requires
        0 <= q < 27,
        0x100_0000 <= m <= 33554427,
        0x100_0000 <= m2 <= 33554427,
    ensures
        scale_octave(q, m) <= scale_octave(q + 1, m2),
{
    if q == 26 {
        lemma_pow2i_monotonic((q - 20) as nat, 6);
        reveal_with_fuel(pow2i, 7);
        assert(m * pow2i((q - 20) as nat) <= 33554427 * 64) by (nonlinear_arith)
            requires
                0 <= m <= 33554427,
                0 <= pow2i((q - 20) as nat) <= 64,
        ;
    } else if q >= 20 {
        let p = pow2i((q - 20) as nat);
        assert(pow2i((q + 1 - 20) as nat) == 2 * p);
        lemma_pow2i_monotonic(0, (q - 20) as nat);
        assert(m * p <= m2 * (2 * p)) by (nonlinear_arith)
            requires
                0 <= m <= 33554427,
                0x100_0000 <= m2,
                1 <= p,
        ;
    } else if q == 19 {
        assert(pow2i(1) == 2) by {
            reveal_with_fuel(pow2i, 2);
        }
        assert(pow2i(0) == 1);
        assert(scale_octave(q, m) == m / 2);
        assert(scale_octave(q + 1, m2) == m2 * 1);
    } else {
        let p = pow2i((19 - q) as nat);
        assert(pow2i((20 - q) as nat) == 2 * p);
        lemma_pow2i_monotonic(0, (19 - q) as nat);
        vstd::arithmetic::div_mod::lemma_div_is_ordered(m, 0x200_0000, 2 * p);
        vstd::arithmetic::div_mod::lemma_div_denominator(0x200_0000, 2, p);
        vstd::arithmetic::div_mod::lemma_div_is_ordered(0x100_0000, m2, p);
        assert(m / (2 * p) <= m2 / p);
        assert(scale_octave(q, m) == m / (2 * p));
        assert(scale_octave(q + 1, m2) == m2 / p);
    }
}

/// Octaves further apart keep their order too.
proof fn lemma_scale_octaves(q1: int, m1: int, q2: int, m2: int)
    requires
        0 <= q1 < q2,
        0x100_0000 <= m1 <= 33554427,
        0x100_0000 <= m2 <= 33554427,
    ensures
        scale_octave(q1, m1) <= scale_octave(q2, m2),
    decreases q2 - q1,
{
    if q1 >= 27 {
    } else if q1 + 1 == q2 {
        lemma_scale_next_octave(q1, m1, m2);
    } else {
        lemma_scale_next_octave(q1, m1, 0x100_0000);
        lemma_scale_octaves(q1 + 1, 0x100_0000, q2, m2);
    }
}

/// The exponential never decreases.
pub proof fn lemma_exp2_monotonic(x: int, y: int)
    requires
        x <= y,
    ensures
        0 <= exp2_spec(x) <= exp2_spec(y),
{
    let sy = y + 20 * 0x100_0000;
    if y >= EXP2_FLOOR {
        lemma_exp2_mantissa_monotonic(0, sy % 0x100_0000);
        lemma_exp2_mantissa_monotonic(sy % 0x100_0000, 0xFF_FFFF);
        assert(exp2_mantissa(0xFF_FFFF) == 33554427);
        lemma_scale_mantissa(sy / 0x100_0000, 0x100_0000, exp2_mantissa(sy % 0x100_0000));
    }
    if x >= EXP2_FLOOR {
        let sx = x + 20 * 0x100_0000;
        let qx = sx / 0x100_0000;
        let qy = sy / 0x100_0000;
        let mx = exp2_mantissa(sx % 0x100_0000);
        let my = exp2_mantissa(sy % 0x100_0000);
        lemma_exp2_mantissa_monotonic(0, sx % 0x100_0000);
        lemma_exp2_mantissa_monotonic(sx % 0x100_0000, 0xFF_FFFF);
        vstd::arithmetic::div_mod::lemma_div_is_ordered(sx, sy, 0x100_0000);
        assert(exp2_spec(x) == scale_octave(qx, mx));
        assert(exp2_spec(y) == scale_octave(qy, my));
        if qx == qy {
            vstd::arithmetic::div_mod::lemma_fundamental_div_mod(sx, 0x100_0000);
            vstd::arithmetic::div_mod::lemma_fundamental_div_mod(sy, 0x100_0000);
            lemma_exp2_mantissa_monotonic(sx % 0x100_0000, sy % 0x100_0000);
            lemma_scale_mantissa(qx, mx, my);
        } else {
            lemma_scale_octaves(qx, mx, qy, my);
            lemma_scale_mantissa(qx, 0x100_0000, mx);
        }
    }
}

impl Exp2 {
    /// The mantissa 2^(f / 2^24) in Q24 for a fraction f < 2^24.
    fn mantissa(f: u64) -> (r: u64)
        requires
            f < 0x100_0000,
        ensures
            r == exp2_mantissa(f as int),
            r <= 0x200_0000,
    {
        let a = horner_step(EXP2_C5, f, EXP2_C4);
        let b = horner_step(a, f, EXP2_C3);
        let c = horner_step(b, f, EXP2_C2);
        let d = horner_step(c, f, EXP2_C1);
        let e = horner_step(d, f, 0x4000_0000);
        e / 64
    }

    /// 2^x for a Q24 input, in Q24: zero below -20, saturated at i32::MAX,
    /// exact at integer inputs.
    pub fn lookup(x: i32) -> (r: i32)
        ensures
            r as int == exp2_spec(x as int),
            x < EXP2_FLOOR ==> r == 0,
            x >= EXP2_FLOOR ==> r > 0,
    {
        if x < EXP2_FLOOR {
            return 0;
        }
        let s: u32 = (x as i64 + 20 * 0x100_0000) as u32;
        let q: u32 = s / 0x100_0000;
        let frac: u64 = (s % 0x100_0000) as u64;
        let m: u64 = Self::mantissa(frac);
        proof {
            lemma_exp2_mantissa_monotonic(0, frac as int);
            lemma_exp2_mantissa_monotonic(frac as int, 0xFF_FFFF);
            assert(exp2_mantissa(0xFF_FFFF) == 33554427);
        }
        assert(s as int == x as int + 20 * 0x100_0000);
        if q >= 27 {
            0x7FFF_FFFF
        } else if q >= 20 {
            let p = pow2_small(q - 20);
            assert(p <= 64) by {
                reveal_with_fuel(pow2i, 7);
                assert(pow2i(6) == 64);
                lemma_pow2i_monotonic((q - 20) as nat, 6);
            }
            assert(m <= m * p <= 33554427 * 64) by (nonlinear_arith)
                requires
                    m <= 33554427,
                    1 <= p <= 64,
            ;
            (m * p) as i32
        } else {
            let p = pow2_small(20 - q);
            assert(m / p >= 16) by {
                vstd::arithmetic::div_mod::lemma_div_is_ordered(0x100_0000, m as int, p as int);
                vstd::arithmetic::div_mod::lemma_div_is_ordered_by_denominator(0x100_0000, p as int, 0x10_0000);
            }
            (m / p) as i32
        }
    }
}

} // verus!
