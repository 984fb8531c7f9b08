//! The DX7 operator envelope: four stages in a logarithmic Q24 level, with
//! the jump-then-decelerate attack and static holds on flat stages.
use vstd::prelude::*;
use crate::constants::min;

verus! {

/// Scaled output level for levels below 20.
pub const LEVEL_LUT: [i32; 20] = [
    0, 5, 9, 13, 17, 20, 23, 25, 27, 29, 31, 33, 35, 37, 39, 41, 42, 43, 45, 46,
];

/// `LEVEL_LUT` as a sequence.
pub open spec fn level_lut() -> Seq<i32> {
    seq![0i32, 5, 9, 13, 17, 20, 23, 25, 27, 29, 31, 33, 35, 37, 39, 41, 42, 43, 45, 46]
}

/// Length, in samples at 44.1 kHz, of a flat stage at each rate below 77.
pub const STATICS: [i32; 77] = [
    1764000, 1764000, 1411200, 1411200, 1190700, 1014300, 992250, 882000,
    705600, 705600, 584325, 507150, 502740, 441000, 418950, 352800,
    308700, 286650, 253575, 220500, 220500, 176400, 145530, 145530,
    125685, 110250, 110250, 88200, 88200, 74970, 61740, 61740,
    55125, 48510, 44100, 37485, 31311, 30870, 27562, 27562,
    22050, 18522, 17640, 15435, 14112, 13230, 11025, 9261,
    9261, 7717, 6615, 6615, 5512, 5512, 4410, 3969,
    3969, 3439, 2866, 2690, 2249, 1984, 1896, 1808,
    1411, 1367, 1234, 1146, 926, 837, 837, 705,
    573, 573, 529, 441, 441,
];

/// `STATICS` as a sequence.
pub open spec fn statics() -> Seq<i32> {
    seq![
        1764000i32, 1764000, 1411200, 1411200, 1190700, 1014300, 992250, 882000,
        705600, 705600, 584325, 507150, 502740, 441000, 418950, 352800,
        308700, 286650, 253575, 220500, 220500, 176400, 145530, 145530,
        125685, 110250, 110250, 88200, 88200, 74970, 61740, 61740,
        55125, 48510, 44100, 37485, 31311, 30870, 27562, 27562,
        22050, 18522, 17640, 15435, 14112, 13230, 11025, 9261,
        9261, 7717, 6615, 6615, 5512, 5512, 4410, 3969,
        3969, 3439, 2866, 2690, 2249, 1984, 1896, 1808,
        1411, 1367, 1234, 1146, 926, 837, 837, 705,
        573, 573, 529, 441, 441,
    ]
}

/// Level (before the Q16 shift) that a rising stage jumps to at once.
pub const JUMP_TARGET: i32 = 1716;

/// Largest output-level offset that level derivation produces: full output
/// level (127 << 5) plus the largest velocity boost (224). Offsets up to
/// this keep every target below 16 << 24, where the rising step
/// ((17 << 24) - level) >> 24 stays positive and the level stays within
/// 32 bits; larger ones would stall or overflow the attack.
pub const OUTLEVEL_MAX: i32 = 4288;

/// Highest envelope level: 4096 << 16.
pub const LEVEL_MAX: i32 = 0x1000_0000;

/// Largest per-sample increment at the lowest supported sample rate.
pub const INC_MAX: i32 = 0xA80_0000;

/// Largest static-hold count at the lowest supported sample rate.
pub const STATIC_MAX: i32 = 5292000;

/// Largest sample-rate multiplier (44100 / rate in Q24): rates down to
/// 14700 Hz.
pub const SR_MULTIPLIER_MAX: i32 = 0x300_0000;

/// The scaled output level of a DX7 level in [0, 99].
pub open spec fn scale_outlevel_spec(l: int) -> int {
    if l >= 20 {
        28 + l
    } else {
        level_lut()[l] as int
    }
}

/// Target of a stage with nominal level `l`: the scaled level plus the
/// output-level offset, less the bias 4256, at least 16, in Q16 units.
pub open spec fn target_level(l: int, outlevel: int) -> int {
    let a = scale_outlevel_spec(l) / 2 * 64 + outlevel - 4256;
    (if a < 16 {
        16
    } else {
        a
    }) * 0x1_0000
}

/// A stage's rate in [0, 63]: the DX7 rate scaled by 41/64 plus the rate
/// scaling offset, clamped at 63.
pub open spec fn qrate(rate: int, rate_scaling: int) -> int {
    let q = rate * 41 / 64 + rate_scaling;
    if q > 63 {
        63
    } else {
        q
    }
}

/// Per-sample increment of a rate before sample-rate scaling:
/// (4 + (q & 3)) << (2 + log2 N + (q >> 2)).
pub open spec fn raw_inc(q: int) -> int {
    (((4 + q % 4) as u32) << ((8 + q / 4) as u32)) as int
}

/// A count or increment at 44.1 kHz carried to the engine's sample rate.
pub open spec fn sr_scaled(x: int, sr_multiplier: int) -> int {
    x * sr_multiplier / 0x100_0000
}

/// Length of a static hold at 44.1 kHz: from the table below rate 77, then
/// linear; an attack towards level zero holds a twentieth as long.
pub open spec fn static_count(rate: int, rate_scaling: int, attack_from_zero: bool) -> int {
    let r = if rate + rate_scaling > 99 {
        99
    } else {
        rate + rate_scaling
    };
    if r < 77 {
        if attack_from_zero {
            statics()[r] as int / 20
        } else {
            statics()[r] as int
        }
    } else {
        20 * (99 - r)
    }
}

/// A four-stage envelope generator in logarithmic Q24 (2^24 is one
/// doubling).
#[derive(Clone, Copy, Debug)]
pub struct Env {
    /// Rates R1..R4, each in [0, 99].
    pub rates: [i32; 4],
    /// Levels L1..L4, each in [0, 99].
    pub levels: [i32; 4],
    /// Output-level offset added to every stage's target.
    pub outlevel: i32,
    /// Rate scaling offset added to every stage's rate.
    pub rate_scaling: i32,
    /// Current level.
    pub level: i32,
    /// Level the current stage moves to.
    pub targetlevel: i32,
    /// Whether the current stage rises.
    pub rising: bool,
    /// Current stage: 0..3, or 4 when finished.
    pub ix: i32,
    /// Increment per sample of the current stage.
    pub inc: i32,
    /// Samples left in a static hold.
    pub staticcount: i32,
    /// Whether the key is down.
    pub down: bool,
    /// 44100 / sample rate in Q24.
    pub sr_multiplier: i32,
}

impl Env {
    /// The ranges every field keeps; a stage in progress aims at a target no
    /// lower than the floor 16 << 16, and a rising stage has not passed it.
    pub open spec fn wf(&self) -> bool {
        &&& forall|i: int| 0 <= i < 4 ==> 0 <= #[trigger] self.rates@[i] <= 99
        &&& forall|i: int| 0 <= i < 4 ==> 0 <= #[trigger] self.levels@[i] <= 99
        &&& 0 <= self.outlevel <= OUTLEVEL_MAX
        &&& 0 <= self.rate_scaling <= 63
        &&& 0 <= self.level <= LEVEL_MAX
        &&& 0 <= self.targetlevel <= LEVEL_MAX
        &&& 0 <= self.ix <= 4
        &&& 0 <= self.inc <= INC_MAX
        &&& 0 <= self.staticcount <= STATIC_MAX
        &&& (self.ix == 4 ==> self.staticcount == 0)
        &&& (self.ix < 4 ==> self.targetlevel >= 0x10_0000)
        &&& (self.ix < 4 && self.rising ==> self.level <= self.targetlevel)
        &&& 0 <= self.sr_multiplier <= SR_MULTIPLIER_MAX
    }

    /// The envelope after entering stage `newix`: for stages 0..3 the target,
    /// direction, increment and static hold of that stage; stage 4 only
    /// records that the envelope has finished.
    pub open spec fn advance_spec(self, newix: int) -> Env {
        if newix < 4 {
            let l = self.levels@[newix] as int;
            let target = target_level(l, self.outlevel as int);
            let q = qrate(self.rates@[newix] as int, self.rate_scaling as int);
            let hold = target == self.level || (newix == 0 && l == 0);
            Env {
                ix: newix as i32,
                targetlevel: target as i32,
                rising: target > self.level,
                staticcount: if hold {
                    sr_scaled(
                        static_count(self.rates@[newix] as int, self.rate_scaling as int, newix == 0 && l == 0),
                        self.sr_multiplier as int,
                    ) as i32
                } else {
                    0
                },
                inc: sr_scaled(raw_inc(q), self.sr_multiplier as int) as i32,
                ..self
            }
        } else {
            Env { ix: newix as i32, ..self }
        }
    }

    /// The envelope after counting down a static hold by one block.
    pub open spec fn hold_spec(self) -> Env {
        if self.staticcount > 0 {
            let c = self.staticcount - 64;
            if c <= 0 {
                Env { staticcount: 0, ..self }.advance_spec(self.ix + 1)
            } else {
                Env { staticcount: c as i32, ..self }
            }
        } else {
            self
        }
    }

    /// The envelope after one step of its level towards the target.
    pub open spec fn move_spec(self) -> Env {
        if (self.ix < 3 || (self.ix < 4 && !self.down)) && self.staticcount <= 0 {
            if self.rising {
                let l0 = if self.level < JUMP_TARGET * 0x1_0000 {
                    JUMP_TARGET * 0x1_0000
                } else {
                    self.level as int
                };
                let l1 = l0 + (0x1100_0000 - l0) / 0x100_0000 * self.inc;
                if l1 >= self.targetlevel {
                    Env { level: self.targetlevel, ..self }.advance_spec(self.ix + 1)
                } else {
                    Env { level: l1 as i32, ..self }
                }
            } else {
                let l1 = self.level - self.inc;
                if l1 <= self.targetlevel {
                    Env { level: self.targetlevel, ..self }.advance_spec(self.ix + 1)
                } else {
                    Env { level: l1 as i32, ..self }
                }
            }
        } else {
            self
        }
    }

    /// The envelope after producing one sample.
    pub open spec fn next_spec(self) -> Env {
        self.hold_spec().move_spec()
    }

    /// The envelope after a key event.
    pub open spec fn keydown_spec(self, down: bool) -> Env {
        if self.down != down {
            Env { down, ..self }.advance_spec(if down { 0 } else { 3 })
        } else {
            self
        }
    }
}

/// Entering a stage keeps the envelope's ranges.
pub proof fn lemma_advance_wf(e: Env, newix: int)
    requires
        e.wf(),
        0 <= newix <= 4,
        newix == 4 ==> e.staticcount == 0,
    ensures
        e.advance_spec(newix).wf(),
{
    if newix < 4 {
        let l = e.levels@[newix] as int;
        assert(0 <= l <= 99);
        assert(0 <= e.rates@[newix] <= 99);
        if l < 20 {
            assert(0 <= level_lut()[l] <= 46);
        }
        let q = qrate(e.rates@[newix] as int, e.rate_scaling as int);
        assert(0 <= q <= 63);
        let qq = q as u32;
        assert(0x400 <= (((4 + qq % 4) as u32) << ((8 + qq / 4) as u32)) <= 0x380_0000) by (bit_vector)
            requires
                qq <= 63,
        ;
        assert(raw_inc(q) == (((4 + qq % 4) as u32) << ((8 + qq / 4) as u32)) as int);
        let m = e.sr_multiplier as int;
        assert(0 <= raw_inc(q) * m <= 0x380_0000 * 0x300_0000) by (nonlinear_arith)
            requires
                0 <= raw_inc(q) <= 0x380_0000,
                0 <= m <= 0x300_0000,
        ;
        let r = if e.rates@[newix] + e.rate_scaling > 99 {
            99
        } else {
            e.rates@[newix] + e.rate_scaling
        };
        if r < 77 {
            assert(0 <= statics()[r as int] <= 1764000);
        }
        let c = static_count(e.rates@[newix] as int, e.rate_scaling as int, newix == 0 && l == 0);
        assert(0 <= c <= 1764000);
        assert(0 <= c * m <= 1764000 * 0x300_0000) by (nonlinear_arith)
            requires
                0 <= c <= 1764000,
                0 <= m <= 0x300_0000,
        ;
    }
}

/// A silent envelope at stage 0 with the key down, at 44.1 kHz.
pub open spec fn initial_env() -> Env {
    Env {
        rates: [0, 0, 0, 0],
        levels: [0, 0, 0, 0],
        outlevel: 0,
        rate_scaling: 0,
        level: 0,
        targetlevel: 0x10_0000,
        rising: false,
        ix: 0,
        inc: 0,
        staticcount: 0,
        down: true,
        sr_multiplier: 0x100_0000,
    }
}

impl Env {
    /// A silent envelope at stage 0 with the key down, at 44.1 kHz.
    pub fn new() -> (r: Self)
        ensures
            r == initial_env(),
            r.wf(),
            r.ix == 0,
            r.level == 0,
            r.down,
            r.sr_multiplier == 0x100_0000,
    {
        let r = Env {
            rates: [0, 0, 0, 0],
            levels: [0, 0, 0, 0],
            outlevel: 0,
            rate_scaling: 0,
            level: 0,
            targetlevel: 0x10_0000,
            rising: false,
            ix: 0,
            inc: 0,
            staticcount: 0,
            down: true,
            sr_multiplier: 0x100_0000,
        };
        assert(r.rates@ =~= initial_env().rates@);
        assert(r.levels@ =~= initial_env().levels@);
        r
    }

    /// Sets the sample rate the envelope's times are measured in, from
    /// 14700 Hz up.
    pub fn init_sr(&mut self, sample_rate: u32)
        requires
            old(self).wf(),
            14700 <= sample_rate,
        ensures
            *final(self) == (Env {
                sr_multiplier: ((44100 * 0x100_0000) as int / sample_rate as int) as i32,
                ..*old(self)
            }),
            final(self).wf(),
    {
        let m: u64 = 44100u64 * 0x100_0000 / (sample_rate as u64);
        assert(m <= 0x300_0000) by {
            vstd::arithmetic::div_mod::lemma_div_is_ordered_by_denominator(
                (44100 * 0x100_0000) as int,
                14700,
                sample_rate as int,
            );
        }
        self.sr_multiplier = m as i32;
    }

    /// Starts the envelope from level zero with the key down, with these
    /// rates and levels, output-level offset and rate scaling.
    pub fn init(&mut self, rates: &[i32; 4], levels: &[i32; 4], outlevel: i32, rate_scaling: i32)
        requires
            old(self).wf(),
            forall|i: int| 0 <= i < 4 ==> 0 <= #[trigger] rates@[i] <= 99,
            forall|i: int| 0 <= i < 4 ==> 0 <= #[trigger] levels@[i] <= 99,
            0 <= outlevel <= OUTLEVEL_MAX,
            0 <= rate_scaling <= 63,
        ensures
            *final(self) == (Env {
                rates: *rates,
                levels: *levels,
                outlevel,
                rate_scaling,
                level: 0,
                down: true,
                ..*old(self)
            }).advance_spec(0),
            final(self).wf(),
    {
        self.rates = *rates;
        self.levels = *levels;
        self.outlevel = outlevel;
        self.rate_scaling = rate_scaling;
        self.level = 0;
        self.down = true;
        self.advance(0);
    }

    /// Replaces the rates, levels, offset and rate scaling while playing; with
    /// the key down the envelope re-enters its sustain stage.
    pub fn update(&mut self, rates: &[i32; 4], levels: &[i32; 4], outlevel: i32, rate_scaling: i32)
        requires
            old(self).wf(),
            forall|i: int| 0 <= i < 4 ==> 0 <= #[trigger] rates@[i] <= 99,
            forall|i: int| 0 <= i < 4 ==> 0 <= #[trigger] levels@[i] <= 99,
            0 <= outlevel <= OUTLEVEL_MAX,
            0 <= rate_scaling <= 63,
        ensures
            ({
                let e = Env { rates: *rates, levels: *levels, outlevel, rate_scaling, ..*old(self) };
                *final(self) == if old(self).down {
                    e.advance_spec(2)
                } else {
                    e
                }
            }),
            final(self).wf(),
    {
        self.rates = *rates;
        self.levels = *levels;
        self.outlevel = outlevel;
        self.rate_scaling = rate_scaling;
        if self.down {
            self.advance(2);
        }
    }

    /// Produces the next level (one block's worth of movement) and returns it.
    pub fn get_sample(&mut self) -> (r: i32)
        requires
            old(self).wf(),
        ensures
            *final(self) == old(self).next_spec(),
            r == final(self).level,
            final(self).wf(),
    {
        if self.staticcount > 0 {
            self.staticcount = self.staticcount - 64;
            if self.staticcount <= 0 {
                self.staticcount = 0;
                let next = self.ix + 1;
                self.advance(next);
            }
        }
        if self.ix < 3 || (self.ix < 4 && !self.down) {
            if self.staticcount > 0 {
            } else if self.rising {
                if self.level < JUMP_TARGET * 0x1_0000 {
                    self.level = JUMP_TARGET * 0x1_0000;
                }
                let l0: i32 = self.level;
                let f: i32 = (0x1100_0000 - l0) / 0x100_0000;
                assert(1 <= f <= 10);
                assert(f * self.inc <= 10 * INC_MAX) by (nonlinear_arith)
                    requires
                        1 <= f <= 10,
                        0 <= self.inc <= INC_MAX,
                ;
                self.level = l0 + f * self.inc;
                if self.level >= self.targetlevel {
                    self.level = self.targetlevel;
                    let next = self.ix + 1;
                    self.advance(next);
                }
            } else {
                self.level = self.level - self.inc;
                if self.level <= self.targetlevel {
                    self.level = self.targetlevel;
                    let next = self.ix + 1;
                    self.advance(next);
                }
            }
        }
        self.level
    }

    /// Presses (true) or releases (false) the key: a change restarts the
    /// attack or enters the release stage.
    pub fn keydown(&mut self, down: bool)
        requires
            old(self).wf(),
        ensures
            *final(self) == old(self).keydown_spec(down),
            final(self).wf(),
    {
        if self.down != down {
            self.down = down;
            self.advance(if down { 0 } else { 3 });
        }
    }

    /// The scaled output level of a DX7 level: a table below 20, then
    /// 28 + level.
    pub fn scale_outlevel(outlevel: i32) -> (r: i32)
        requires
            0 <= outlevel <= 99,
        ensures
            r == scale_outlevel_spec(outlevel as int),
    {
        if outlevel >= 20 {
            28 + outlevel
        } else {
            assert(LEVEL_LUT@ =~= level_lut());
            LEVEL_LUT[outlevel as usize]
        }
    }

    /// The current stage: 0..3, or 4 when finished.
    pub fn get_position(&self) -> (r: i32)
        ensures
            r == self.ix,
    {
        self.ix
    }

    /// Takes over another envelope's whole state without retriggering.
    pub fn transfer(&mut self, src: &Env)
        ensures
            *final(self) == *src,
    {
        *self = *src;
    }

    /// Enters stage `newix`.
    fn advance(&mut self, newix: i32)
        requires
            old(self).wf(),
            0 <= newix <= 4,
            newix == 4 ==> old(self).staticcount == 0,
        ensures
            *final(self) == old(self).advance_spec(newix as int),
            final(self).wf(),
    {
        proof {
            lemma_advance_wf(*self, newix as int);
        }
        self.ix = newix;
        if newix < 4 {
            let i: usize = newix as usize;
            let newlevel: i32 = self.levels[i];
            let mut actuallevel: i32 = Self::scale_outlevel(newlevel) / 2;
            actuallevel = actuallevel * 64 + self.outlevel - 4256;
            if actuallevel < 16 {
                actuallevel = 16;
            }
            self.targetlevel = actuallevel * 0x1_0000;
            self.rising = self.targetlevel > self.level;
            let rate: i32 = self.rates[i];
            let qrate: i32 = min(rate * 41 / 64 + self.rate_scaling, 63);
            if self.targetlevel == self.level || (newix == 0 && newlevel == 0) {
                let staticrate: i32 = min(rate + self.rate_scaling, 99);
                let mut count: i32 = if staticrate < 77 {
                    assert(STATICS@ =~= statics());
                    STATICS[staticrate as usize]
                } else {
                    20 * (99 - staticrate)
                };
                if staticrate < 77 && newix == 0 && newlevel == 0 {
                    count = count / 20;
                }
                assert(0 <= count <= 1764000);
                assert(0 <= (count as i64) * (self.sr_multiplier as i64) <= 1764000 * 0x300_0000)
                    by (nonlinear_arith)
                    requires
                        0 <= count <= 1764000,
                        0 <= self.sr_multiplier <= 0x300_0000,
                ;
                self.staticcount = ((count as i64) * (self.sr_multiplier as i64) / 0x100_0000) as i32;
            } else {
                self.staticcount = 0;
            }
            let qq: u32 = qrate as u32;
            let raw: u32 = ((4 + qq % 4) as u32) << ((8 + qq / 4) as u32);
            assert(raw <= 0x380_0000) by (bit_vector)
                requires
                    qq <= 63,
                    raw == ((4 + qq % 4) as u32) << ((8 + qq / 4) as u32),
            ;
            assert(0 <= (raw as i64) * (self.sr_multiplier as i64) <= 0x380_0000 * 0x300_0000)
                by (nonlinear_arith)
                requires
                    0 <= raw <= 0x380_0000,
                    0 <= self.sr_multiplier <= 0x300_0000,
            ;
            self.inc = ((raw as i64) * (self.sr_multiplier as i64) / 0x100_0000) as i32;
        }
    }
}

/// A step of the envelope keeps its ranges.
pub proof fn lemma_next_wf(e: Env)
    requires
        e.wf(),
    ensures
        e.next_spec().wf(),
{
    if e.staticcount > 0 && e.staticcount - 64 <= 0 {
        lemma_advance_wf(Env { staticcount: 0, ..e }, e.ix + 1);
    }
    let h = e.hold_spec();
    assert(h.wf());
    if (h.ix < 3 || (h.ix < 4 && !h.down)) && h.staticcount <= 0 {
        lemma_advance_wf(Env { level: h.targetlevel, ..h }, h.ix + 1);
        if h.rising {
            let l0 = if h.level < JUMP_TARGET * 0x1_0000 {
                JUMP_TARGET * 0x1_0000
            } else {
                h.level as int
            };
            let f = (0x1100_0000 - l0) / 0x100_0000;
            assert(1 <= f <= 10);
            assert(0 <= f * h.inc <= 10 * INC_MAX) by (nonlinear_arith)
                requires
                    1 <= f <= 10,
                    0 <= h.inc <= INC_MAX,
            ;
        }
    }
}

/// The envelope after `k` blocks.
pub open spec fn env_after(e: Env, k: nat) -> Env
    decreases k,
{
    if k == 0 {
        e
    } else {
        env_after(e.next_spec(), (k - 1) as nat)
    }
}

/// What is left of the current stage: the rest of a static hold plus the
/// distance to the target.
pub open spec fn stage_left(e: Env) -> int {
    e.staticcount + if e.level >= e.targetlevel {
        e.level - e.targetlevel
    } else {
        e.targetlevel - e.level
    }
}

/// A finished envelope stays finished while the key is up.
pub proof fn lemma_finished_stays(e: Env, k: nat)
    requires
        e.wf(),
        e.ix == 4,
        !e.down,
    ensures
        env_after(e, k) == e,
    decreases k,
{
    if k > 0 {
        lemma_finished_stays(e.next_spec(), (k - 1) as nat);
    }
}

/// After the key is released, an envelope whose release moves (increment
/// at least 1) finishes within `stage_left + 1` blocks: its level reaches
/// the release target and the stage becomes 4.
pub proof fn lemma_release_ends(e: Env)
    requires
        e.wf(),
        e.ix == 3,
        !e.down,
        e.inc >= 1,
    ensures
        env_after(e, (stage_left(e) + 1) as nat).ix == 4,
    decreases stage_left(e),
{
    lemma_next_wf(e);
    let n = e.next_spec();
    let k = (stage_left(e) + 1) as nat;
    if n.ix == 4 {
        lemma_finished_stays(n, (k - 1) as nat);
    } else {
        if e.staticcount <= 0 && e.rising {
            let l0 = if e.level < JUMP_TARGET * 0x1_0000 {
                JUMP_TARGET * 0x1_0000
            } else {
                e.level as int
            };
            let f = (0x1100_0000 - l0) / 0x100_0000;
            assert(1 <= f <= 10);
            assert(f * e.inc >= e.inc) by (nonlinear_arith)
                requires
                    1 <= f,
                    1 <= e.inc,
            ;
        }
        assert(n.ix == 3 && !n.down && n.inc == e.inc);
        assert(stage_left(n) < stage_left(e));
        lemma_release_ends(n);
        let m = (stage_left(n) + 1) as nat;
        lemma_after_keeps(n, m);
        lemma_finished_stays(env_after(n, m), (k - 1 - m) as nat);
        lemma_env_after_add(n, m, (k - 1 - m) as nat);
    }
}

/// Blocks keep the envelope's ranges and its key.
pub proof fn lemma_after_keeps(e: Env, k: nat)
    requires
        e.wf(),
    ensures
        env_after(e, k).wf(),
        env_after(e, k).down == e.down,
    decreases k,
{
    if k > 0 {
        lemma_next_wf(e);
        lemma_after_keeps(e.next_spec(), (k - 1) as nat);
    }
}

/// Blocks add up: `k + j` blocks are `k` blocks then `j`.
pub proof fn lemma_env_after_add(e: Env, k: nat, j: nat)
    ensures
        env_after(e, k + j) == env_after(env_after(e, k), j),
    decreases k,
{
    if k > 0 {
        lemma_env_after_add(e.next_spec(), (k - 1) as nat, j);
    }
}

} // verus!
