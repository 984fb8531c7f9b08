//! The pitch envelope: four stages moving linearly between pitch offsets in
//! octaves, each stage taking a time set by its rate.
use vstd::prelude::*;

verus! {

/// Pitch offset of each level in Q24 octaves: level 50 is no offset, and
/// the ends saturate towards about ±4 octaves.
pub const PITCH_LEVELS: [i32; 100] = [
    -73406172, -67108931, -61269577, -55871812, -50899337, -46335854, -42165063, -38370665,
    -34936363, -31845857, -29082848, -26631037, -24474126, -22595816, -20979808, -19609804,
    -18469503, -17542609, -16812821, -16252928, -15728640, -15204352, -14680064, -14155776,
    -13631488, -13107200, -12582912, -12058624, -11534336, -11010048, -10485760, -9961472,
    -9437184, -8912896, -8388608, -7864320, -7340032, -6815744, -6291456, -5767168,
    -5242880, -4718592, -4194304, -3670016, -3145728, -2621440, -2097152, -1572864,
    -1048576, -524288, 0, 524288, 1048576, 1572864, 2097152, 2621440,
    3145728, 3670016, 4194304, 4718592, 5242880, 5767168, 6291456, 6815744,
    7340032, 7864320, 8388608, 8912896, 9437184, 9961472, 10485760, 11010048,
    11534336, 12058624, 12582912, 13107200, 13631488, 14155776, 14680064, 15204352,
    15728640, 16252928, 16812821, 17542609, 18469503, 19609804, 20979808, 22595816,
    24474126, 26631037, 29082848, 31845857, 34936363, 38370665, 42165063, 46335854,
    50899337, 55871812, 61269577, 67108931,
];

/// Fraction of a stage covered per block at each rate, in Q24.
pub const PITCH_RATES: [i32; 100] = [
    1143, 1875, 2606, 3338, 4069, 4801, 5533, 6265,
    6996, 7729, 8461, 9194, 9928, 10662, 11397, 12133,
    12871, 13611, 14353, 15097, 15845, 16596, 17351, 18111,
    18876, 19647, 20425, 21211, 22005, 22809, 23624, 24450,
    25290, 26144, 27014, 27901, 28807, 29733, 30682, 31655,
    32654, 33681, 34738, 35827, 36952, 38114, 39316, 40561,
    41851, 43190, 44581, 46026, 47530, 49095, 50726, 52426,
    54199, 56049, 57980, 59997, 62104, 64306, 66608, 69014,
    71530, 74161, 76913, 79791, 82801, 85949, 89241, 92683,
    96283, 100047, 103981, 108094, 112391, 116882, 121572, 126471,
    131587, 136927, 142500, 148316, 154382, 160709, 167305, 174181,
    181345, 188809, 196582, 204676, 213100, 221865, 230984, 240468,
    250328, 260576, 271225, 282287,
];

/// Largest pitch offset magnitude, in Q24 octaves (a little over 4).
pub const PITCH_MAX: i32 = 0x500_0000;

/// Distance a stage from `from` to `to` covers per block at rate `rate`:
/// a fixed fraction of the distance, at least one unit.
pub open spec fn pitch_step(from: int, to: int, rate: int) -> int {
    let dist = if to >= from {
        to - from
    } else {
        from - to
    };
    let s = dist * PITCH_RATES@[rate] as int / 0x100_0000;
    if s < 1 {
        1
    } else {
        s
    }
}

/// A four-stage pitch envelope.
#[derive(Clone, Copy, Debug)]
pub struct PitchEnv {
    /// Rates R1..R4, each in [0, 99].
    pub rates: [i32; 4],
    /// Levels L1..L4, each in [0, 99].
    pub levels: [i32; 4],
    /// Current pitch offset, Q24 octaves.
    pub level: i32,
    /// Offset the current stage moves to.
    pub target: i32,
    /// Distance moved per block in the current stage.
    pub step: i32,
    /// Current stage: 0..3, or 4 when finished.
    pub ix: i32,
    /// Whether the key is down.
    pub down: bool,
}

impl PitchEnv {
    /// The ranges every field keeps.
    pub open spec fn wf(&self) -> bool {
        &&& forall|i: int| 0 <= i < 4 ==> 0 <= #[trigger] self.rates@[i] <= 99
        &&& forall|i: int| 0 <= i < 4 ==> 0 <= #[trigger] self.levels@[i] <= 99
        &&& -PITCH_MAX <= self.level <= PITCH_MAX
        &&& -PITCH_MAX <= self.target <= PITCH_MAX
        &&& 1 <= self.step <= 2 * PITCH_MAX
        &&& 0 <= self.ix <= 4
    }

    /// The envelope after entering stage `newix`: stages 0..3 aim at their
    /// level's offset at their rate; stage 4 only records the end.
    pub open spec fn advance_spec(self, newix: int) -> PitchEnv {
        if newix < 4 {
            let t = PITCH_LEVELS@[self.levels@[newix] as int] as int;
            PitchEnv {
                ix: newix as i32,
                target: t as i32,
                step: pitch_step(self.level as int, t, self.rates@[newix] as int) as i32,
                ..self
            }
        } else {
            PitchEnv { ix: newix as i32, ..self }
        }
    }

    /// The envelope after one block: a moving stage steps towards its target
    /// and enters the next stage on reaching it; the sustain stage holds
    /// while the key is down.
    pub open spec fn next_spec(self) -> PitchEnv {
        if self.ix < 3 || (self.ix < 4 && !self.down) {
            if self.level < self.target {
                if self.level + self.step >= self.target {
                    PitchEnv { level: self.target, ..self }.advance_spec(self.ix + 1)
                } else {
                    PitchEnv { level: (self.level + self.step) as i32, ..self }
                }
            } else {
                if self.level - self.step <= self.target {
                    PitchEnv { level: self.target, ..self }.advance_spec(self.ix + 1)
                } else {
                    PitchEnv { level: (self.level - self.step) as i32, ..self }
                }
            }
        } else {
            self
        }
    }

    /// The envelope after a key event.
    pub open spec fn keydown_spec(self, down: bool) -> PitchEnv {
        if self.down != down {
            PitchEnv { down, ..self }.advance_spec(if down { 0 } else { 3 })
        } else {
            self
        }
    }

    /// A flat pitch envelope (no offset) at stage 0 with the key down.
    pub fn new() -> (r: Self)
        ensures
            r.wf(),
            r.ix == 0,
            r.level == 0,
    {
        PitchEnv { rates: [0, 0, 0, 0], levels: [50, 50, 50, 50], level: 0, target: 0, step: 1, ix: 0, down: true }
    }

    /// Starts the envelope from the offset of its last level, key down.
    pub fn init(&mut self, rates: &[i32; 4], levels: &[i32; 4])
        requires
            old(self).wf(),
            forall|i: int| 0 <= i < 4 ==> 0 <= #[trigger] rates@[i] <= 99,
            forall|i: int| 0 <= i < 4 ==> 0 <= #[trigger] levels@[i] <= 99,
        ensures
            final(self).wf(),
            *final(self) == (PitchEnv {
                rates: *rates,
                levels: *levels,
                level: PITCH_LEVELS@[levels@[3] as int],
                down: true,
                ..*old(self)
            }).advance_spec(0),
    {
        self.rates = *rates;
        self.levels = *levels;
        assert(PITCH_LEVELS@[levels@[3] as int] == PITCH_LEVELS@[levels@[3] as int]);
        self.level = PITCH_LEVELS[levels[3] as usize];
        assert(-PITCH_MAX <= self.level <= PITCH_MAX);
        self.down = true;
        self.advance(0);
    }

    /// Produces the next offset (one block's movement) and returns it.
    pub fn get_sample(&mut self) -> (r: i32)
        requires
            old(self).wf(),
        ensures
            final(self).wf(),
            *final(self) == old(self).next_spec(),
            r == final(self).level,
    {
        if self.ix < 3 || (self.ix < 4 && !self.down) {
            if self.level < self.target {
                if self.level + self.step >= self.target {
                    self.level = self.target;
                    let next = self.ix + 1;
                    self.advance(next);
                } else {
                    self.level = self.level + self.step;
                }
            } else {
                if self.level - self.step <= self.target {
                    self.level = self.target;
                    let next = self.ix + 1;
                    self.advance(next);
                } else {
                    self.level = self.level - self.step;
                }
            }
        }
        self.level
    }

    /// Presses or releases the key: a change restarts the first stage or
    /// enters the release stage.
    pub fn keydown(&mut self, down: bool)
        requires
            old(self).wf(),
        ensures
            final(self).wf(),
            *final(self) == old(self).keydown_spec(down),
    {
        if self.down != down {
            self.down = down;
            self.advance(if down { 0 } else { 3 });
        }
    }

    /// The current stage.
    pub fn get_position(&self) -> (r: i32)
        ensures
            r == self.ix,
    {
        self.ix
    }

    /// Enters stage `newix`.
    fn advance(&mut self, newix: i32)
        requires
            0 <= newix <= 4,
            forall|i: int| 0 <= i < 4 ==> 0 <= #[trigger] old(self).rates@[i] <= 99,
            forall|i: int| 0 <= i < 4 ==> 0 <= #[trigger] old(self).levels@[i] <= 99,
            -PITCH_MAX <= old(self).level <= PITCH_MAX,
            -PITCH_MAX <= old(self).target <= PITCH_MAX,
            1 <= old(self).step <= 2 * PITCH_MAX,
        ensures
            final(self).wf(),
            *final(self) == old(self).advance_spec(newix as int),
    {
        self.ix = newix;
        if newix < 4 {
            let i: usize = newix as usize;
            let l: i32 = self.levels[i];
            let t: i32 = PITCH_LEVELS[l as usize];
            let rate: i32 = PITCH_RATES[self.rates[i] as usize];
            assert(-PITCH_MAX <= t <= PITCH_MAX);
            assert(1100 <= rate <= 290000);
            let dist: i64 = if t >= self.level {
                t as i64 - self.level as i64
            } else {
                self.level as i64 - t as i64
            };
            assert(0 <= dist * (rate as i64) <= 0xA00_0000 * 290000) by (nonlinear_arith)
                requires
                    0 <= dist <= 0xA00_0000,
                    0 <= rate <= 290000,
            ;
            let s: i64 = dist * (rate as i64) / 0x100_0000;
            assert(s <= 0xA00_0000) by {
                vstd::arithmetic::div_mod::lemma_div_is_ordered(dist * (rate as i64), 0xA00_0000int * 0x100_0000int, 0x100_0000int);
                vstd::arithmetic::div_mod::lemma_div_by_multiple(0xA00_0000int, 0x100_0000int);
            }
            self.target = t;
            self.step = if s < 1 {
                1
            } else {
                s as i32
            };
        }
    }
}

} // verus!
