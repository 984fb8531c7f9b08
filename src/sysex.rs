//! DX7 voice data: the 155-byte voice, the 128-byte packed bank voice, and
//! SysEx messages carrying either.
use vstd::prelude::*;

verus! {

/// First byte of a SysEx message.
pub const SYSEX_START: u8 = 0xF0;
/// Last byte of a SysEx message.
pub const SYSEX_END: u8 = 0xF7;
/// Yamaha's manufacturer id.
pub const YAMAHA_ID: u8 = 0x43;
/// Format byte of a single-voice dump.
pub const DX7_SINGLE_VOICE: u8 = 0x00;
/// Format byte of a 32-voice bank dump.
pub const DX7_32_VOICES: u8 = 0x09;
/// Bytes of one unpacked voice.
pub const DX7_VOICE_SIZE: usize = 155;
/// Bytes of a packed 32-voice bank.
pub const DX7_BANK_SIZE: usize = 4096;
/// Bytes of one packed voice.
pub const DX7_PACKED_VOICE_SIZE: usize = 128;

/// Why voice data was rejected.
#[derive(Clone, Copy, Debug, PartialEq, Eq, Structural)]
pub enum SysexError {
    /// Fewer than 155 bytes of voice data.
    VoiceTooShort,
    /// An operator index of 6 or more.
    InvalidOperator,
    /// No data at all.
    Empty,
    /// A message start with no end after it.
    Unterminated,
    /// No message held a voice.
    NoPatches,
    /// A message of fewer than 6 bytes.
    MessageTooShort,
    /// A message not starting with 0xF0.
    InvalidStart,
    /// A message not ending with 0xF7.
    InvalidEnd,
    /// A message from another manufacturer.
    NotYamaha,
    /// A single-voice message of fewer than 163 bytes.
    SingleVoiceTooShort,
    /// A bank message of fewer than 4104 bytes.
    BankTooShort,
    /// Bank data of fewer than 4096 bytes.
    BankDataTooShort,
    /// A packed voice of fewer than 128 bytes.
    PackedVoiceTooShort,
    /// A format byte other than single voice or bank.
    UnsupportedFormat(u8),
}

/// Four envelope values: rates or levels.
#[derive(Clone, Copy, Debug, PartialEq, Eq, Structural)]
pub struct Eg {
    /// First stage.
    pub attack: u8,
    /// Second stage.
    pub decay1: u8,
    /// Third stage (sustain).
    pub decay2: u8,
    /// Release stage.
    pub release: u8,
}

impl Eg {
    /// The four values in stage order.
    pub fn as_array(&self) -> (r: [u8; 4])
        ensures
            r@ == seq![self.attack, self.decay1, self.decay2, self.release],
    {
        let r = [self.attack, self.decay1, self.decay2, self.release];
        assert(r@ =~= seq![self.attack, self.decay1, self.decay2, self.release]);
        r
    }

    /// Four values in stage order.
    pub fn from_array(values: [u8; 4]) -> (r: Self)
        ensures
            r == (Eg { attack: values@[0], decay1: values@[1], decay2: values@[2], release: values@[3] }),
    {
        Eg { attack: values[0], decay1: values[1], decay2: values[2], release: values[3] }
    }
}

/// The parameters of one operator, one byte each as in the unpacked voice.
#[derive(Clone, Copy, Debug, PartialEq, Eq, Structural)]
pub struct OperatorParams {
    /// Envelope rates.
    pub rates: Eg,
    /// Envelope levels.
    pub levels: Eg,
    /// Keyboard level scaling break point.
    pub level_scaling_bp: u8,
    /// Left depth.
    pub level_scaling_ld: u8,
    /// Right depth.
    pub level_scaling_rd: u8,
    /// Left curve.
    pub level_scaling_lc: u8,
    /// Right curve.
    pub level_scaling_rc: u8,
    /// Rate scaling.
    pub rate_scaling: u8,
    /// Amplitude modulation sensitivity.
    pub amp_mod_sens: u8,
    /// Velocity sensitivity.
    pub velocity_sens: u8,
    /// Output level.
    pub output_level: u8,
    /// Oscillator mode: 0 ratio, 1 fixed.
    pub osc_mode: u8,
    /// Coarse frequency.
    pub coarse_freq: u8,
    /// Fine frequency.
    pub fine_freq: u8,
    /// Detune, 7 at the centre.
    pub detune: u8,
}

/// The voice-wide parameters.
#[derive(Clone, Copy, Debug)]
pub struct GlobalParams {
    /// Pitch envelope rates.
    pub pitch_eg_rate: [u8; 4],
    /// Pitch envelope levels.
    pub pitch_eg_level: [u8; 4],
    /// Algorithm, 0-based.
    pub algorithm: u8,
    /// Feedback level.
    pub feedback: u8,
    /// Oscillator key sync.
    pub osc_sync: u8,
    /// LFO speed.
    pub lfo_speed: u8,
    /// LFO delay.
    pub lfo_delay: u8,
    /// LFO pitch modulation depth.
    pub lfo_pitch_mod_depth: u8,
    /// LFO amplitude modulation depth.
    pub lfo_amp_mod_depth: u8,
    /// LFO key sync.
    pub lfo_sync: u8,
    /// LFO waveform.
    pub lfo_waveform: u8,
    /// Pitch modulation sensitivity.
    pub pitch_mod_sens: u8,
    /// Transpose.
    pub transpose: u8,
}

/// One voice: six operators, the voice-wide parameters and a name.
#[derive(Clone, Debug)]
pub struct Dx7Patch {
    /// Operators in voice order (the last operator first).
    pub operators: [OperatorParams; 6],
    /// Voice-wide parameters.
    pub global: GlobalParams,
    /// Voice name.
    pub name: String,
}

/// The operator whose 21 bytes start at `b` of unpacked voice `d`.
pub open spec fn operator_of(d: Seq<u8>, b: int) -> OperatorParams {
    OperatorParams {
        rates: Eg { attack: d[b], decay1: d[b + 1], decay2: d[b + 2], release: d[b + 3] },
        levels: Eg { attack: d[b + 4], decay1: d[b + 5], decay2: d[b + 6], release: d[b + 7] },
        level_scaling_bp: d[b + 8],
        level_scaling_ld: d[b + 9],
        level_scaling_rd: d[b + 10],
        level_scaling_lc: d[b + 11],
        level_scaling_rc: d[b + 12],
        rate_scaling: d[b + 13],
        amp_mod_sens: d[b + 14],
        velocity_sens: d[b + 15],
        output_level: d[b + 16],
        osc_mode: d[b + 17],
        coarse_freq: d[b + 18],
        fine_freq: d[b + 19],
        detune: d[b + 20],
    }
}

/// The voice-wide parameters at bytes 126..144 of unpacked voice `d`.
pub open spec fn global_of(d: Seq<u8>) -> GlobalParams {
    GlobalParams {
        pitch_eg_rate: [d[126], d[127], d[128], d[129]],
        pitch_eg_level: [d[130], d[131], d[132], d[133]],
        algorithm: d[134],
        feedback: d[135],
        osc_sync: d[136],
        lfo_speed: d[137],
        lfo_delay: d[138],
        lfo_pitch_mod_depth: d[139],
        lfo_amp_mod_depth: d[140],
        lfo_sync: d[141],
        lfo_waveform: d[142],
        pitch_mod_sens: d[143],
        transpose: d[144],
    }
}

/// Whether a character counts as white space when a name is trimmed.
pub open spec fn is_space(b: u8) -> bool {
    b == 0x20 || (0x09 <= b <= 0x0D)
}

/// `s` without its trailing NUL bytes.
pub open spec fn trim_nul(s: Seq<u8>) -> Seq<u8>
    decreases s.len(),
{
    if s.len() > 0 && s.last() == 0 {
        trim_nul(s.drop_last())
    } else {
        s
    }
}

/// `s` without trailing white space.
pub open spec fn trim_end_space(s: Seq<u8>) -> Seq<u8>
    decreases s.len(),
{
    if s.len() > 0 && is_space(s.last()) {
        trim_end_space(s.drop_last())
    } else {
        s
    }
}

/// `s` without leading white space.
pub open spec fn trim_start_space(s: Seq<u8>) -> Seq<u8>
    decreases s.len(),
{
    if s.len() > 0 && is_space(s[0]) {
        trim_start_space(s.drop_first())
    } else {
        s
    }
}

/// The name bytes of unpacked voice `d`: its ten 7-bit characters without
/// trailing NULs, then without surrounding white space.
pub open spec fn name_bytes_of(d: Seq<u8>) -> Seq<u8> {
    trim_start_space(
        trim_end_space(trim_nul(Seq::new(10, |i: int| (d[145 + i] & 0x7Fu8) as u8))),
    )
}

/// ASCII bytes as characters.
pub open spec fn ascii_chars(b: Seq<u8>) -> Seq<char> {
    Seq::new(b.len(), |i: int| b[i] as char)
}

/// The name of unpacked voice `d`, "INIT VOICE" when it is blank.
pub open spec fn name_of(d: Seq<u8>) -> Seq<char> {
    if name_bytes_of(d).len() == 0 {
        seq!['I', 'N', 'I', 'T', ' ', 'V', 'O', 'I', 'C', 'E']
    } else {
        ascii_chars(name_bytes_of(d))
    }
}

/// Whether a patch holds what unpacked voice `d` holds.
pub open spec fn patch_matches(p: Dx7Patch, d: Seq<u8>) -> bool {
    &&& forall|op: int| 0 <= op < 6 ==> #[trigger] p.operators@[op] == operator_of(d, op * 21)
    &&& p.global == global_of(d)
    &&& p.name@ == name_of(d)
}

/// Relies on String::from_utf8_lossy: bytes that are all ASCII are valid
/// UTF-8 and decode to one character each.
#[verifier::external_body]
fn ascii_string(bytes: &Vec<u8>) -> (r: String)
    requires
        forall|i: int| 0 <= i < bytes@.len() ==> #[trigger] bytes@[i] < 0x80,
    ensures
        r@ == ascii_chars(bytes@),
{
    String::from_utf8_lossy(bytes.as_slice()).into_owned()
}

/// The trimmed name bytes starting at `off`.
fn name_bytes(data: &[u8], off: usize) -> (r: Vec<u8>)
    requires
        off + 155 <= data@.len(),
    ensures
        r@ == name_bytes_of(data@.subrange(off as int, off + 155)),
        forall|i: int| 0 <= i < r@.len() ==> #[trigger] r@[i] < 0x80,
{
    let ghost d = data@.subrange(off as int, off + 155);
    let n: usize = data.len();
    let base: usize = off + 145;
    let mut raw: Vec<u8> = Vec::new();
    let mut i: usize = 0;
    while i < 10
        invariant
            i <= 10,
            off + 155 <= data@.len(),
            n == data@.len(),
            base == off + 145,
            d == data@.subrange(off as int, off + 155),
            raw@ == Seq::new(i as nat, |k: int| (d[145 + k] & 0x7Fu8) as u8),
        decreases 10 - i,
    {
        raw.push(data[base + i] & 0x7F);
        i = i + 1;
        assert(raw@ =~= Seq::new(i as nat, |k: int| (d[145 + k] & 0x7Fu8) as u8));
    }
    assert(forall|k: int| 0 <= k < 10 ==> #[trigger] raw@[k] < 0x80) by {
        assert forall|k: int| 0 <= k < 10 implies #[trigger] raw@[k] < 0x80 by {
            let x = d[145 + k];
            assert((x & 0x7Fu8) < 0x80u8) by (bit_vector);
        }
    }
    let ghost all = raw@;
    assert(all =~= all.subrange(0, 10));
    let mut end: usize = 10;
    while end > 0 && raw[end - 1] == 0
        invariant
            end <= 10,
            all.len() == 10,
            raw@ == all,
            trim_nul(all) == trim_nul(all.subrange(0, end as int)),
        decreases end,
    {
        assert(all.subrange(0, end as int).drop_last() =~= all.subrange(0, end - 1));
        end = end - 1;
    }
    assert(trim_nul(all.subrange(0, end as int)) == all.subrange(0, end as int));
    let ghost t1 = all.subrange(0, end as int);
    while end > 0 && (raw[end - 1] == 0x20 || (0x09 <= raw[end - 1] && raw[end - 1] <= 0x0D))
        invariant
            end <= t1.len(),
            t1.len() <= 10,
            all.len() == 10,
            raw@ == all,
            t1 == all.subrange(0, t1.len() as int),
            trim_end_space(t1) == trim_end_space(all.subrange(0, end as int)),
        decreases end,
    {
        assert(all.subrange(0, end as int).drop_last() =~= all.subrange(0, end - 1));
        end = end - 1;
    }
    let ghost t2 = all.subrange(0, end as int);
    assert(trim_end_space(t2) == t2);
    let mut start: usize = 0;
    while start < end && (raw[start] == 0x20 || (0x09 <= raw[start] && raw[start] <= 0x0D))
        invariant
            start <= end <= 10,
            all.len() == 10,
            raw@ == all,
            t2 == all.subrange(0, end as int),
            trim_start_space(t2) == trim_start_space(all.subrange(start as int, end as int)),
        decreases end - start,
    {
        assert(all.subrange(start as int, end as int).drop_first() =~= all.subrange(start + 1, end as int));
        start = start + 1;
    }
    let mut r: Vec<u8> = Vec::new();
    let mut k: usize = start;
    while k < end
        invariant
            start <= k <= end <= 10,
            all.len() == 10,
            raw@ == all,
            forall|j: int| 0 <= j < 10 ==> #[trigger] all[j] < 0x80,
            r@ == all.subrange(start as int, k as int),
        decreases end - k,
    {
        r.push(raw[k]);
        k = k + 1;
        assert(r@ =~= all.subrange(start as int, k as int));
    }
    assert(trim_start_space(all.subrange(start as int, end as int)) == all.subrange(start as int, end as int));
    r
}

impl Dx7Patch {
    /// A voice with every parameter zero and the given name.
    pub fn new(name: &str) -> (r: Self)
        ensures
            r.name@ == name@,
            forall|op: int| 0 <= op < 6 ==> #[trigger] r.operators@[op] == zero_operator(),
            r.global == zero_global(),
    {
        let z = OperatorParams::zero();
        Dx7Patch {
            operators: [z, z, z, z, z, z],
            global: GlobalParams::zero(),
            name: name.to_owned(),
        }
    }

    /// Reads an unpacked 155-byte voice; fails on shorter data.
    pub fn from_data(data: &[u8]) -> (r: Result<Self, SysexError>)
        ensures
            data@.len() < 155 <==> r is Err,
            r is Err ==> r->Err_0 == SysexError::VoiceTooShort,
            r is Ok ==> patch_matches(r->Ok_0, data@.subrange(0, 155)),
    {
        if data.len() < DX7_VOICE_SIZE {
            return Err(SysexError::VoiceTooShort);
        }
        Ok(Self::read_at(data, 0))
    }

    /// Reads the unpacked voice starting at `off`.
    fn read_at(data: &[u8], off: usize) -> (r: Self)
        requires
            off + 155 <= data@.len(),
        ensures
            patch_matches(r, data@.subrange(off as int, off + 155)),
    {
        let ghost d = data@.subrange(off as int, off + 155);
        let n: usize = data.len();
        let mut ops: Vec<OperatorParams> = Vec::new();
        let mut op: usize = 0;
        while op < 6
            invariant
                op <= 6,
                n == data@.len(),
                off + 155 <= data@.len(),
                d == data@.subrange(off as int, off + 155),
                ops@.len() == op,
                forall|j: int| 0 <= j < op ==> #[trigger] ops@[j] == operator_of(d, j * 21),
            decreases 6 - op,
        {
            let b: usize = off + op * 21;
            ops.push(OperatorParams {
                rates: Eg { attack: data[b], decay1: data[b + 1], decay2: data[b + 2], release: data[b + 3] },
                levels: Eg { attack: data[b + 4], decay1: data[b + 5], decay2: data[b + 6], release: data[b + 7] },
                level_scaling_bp: data[b + 8],
                level_scaling_ld: data[b + 9],
                level_scaling_rd: data[b + 10],
                level_scaling_lc: data[b + 11],
                level_scaling_rc: data[b + 12],
                rate_scaling: data[b + 13],
                amp_mod_sens: data[b + 14],
                velocity_sens: data[b + 15],
                output_level: data[b + 16],
                osc_mode: data[b + 17],
                coarse_freq: data[b + 18],
                fine_freq: data[b + 19],
                detune: data[b + 20],
            });
            op = op + 1;
        }
        let g = off + 126;
        let global = GlobalParams {
            pitch_eg_rate: [data[g], data[g + 1], data[g + 2], data[g + 3]],
            pitch_eg_level: [data[g + 4], data[g + 5], data[g + 6], data[g + 7]],
            algorithm: data[g + 8],
            feedback: data[g + 9],
            osc_sync: data[g + 10],
            lfo_speed: data[g + 11],
            lfo_delay: data[g + 12],
            lfo_pitch_mod_depth: data[g + 13],
            lfo_amp_mod_depth: data[g + 14],
            lfo_sync: data[g + 15],
            lfo_waveform: data[g + 16],
            pitch_mod_sens: data[g + 17],
            transpose: data[g + 18],
        };
        let nb = name_bytes(data, off);
        let name: String = if nb.len() == 0 {
            let s = "INIT VOICE".to_owned();
            proof {
                reveal_strlit("INIT VOICE");
            }
            assert(s@ =~= seq!['I', 'N', 'I', 'T', ' ', 'V', 'O', 'I', 'C', 'E']);
            s
        } else {
            ascii_string(&nb)
        };
        let operators = [ops[0], ops[1], ops[2], ops[3], ops[4], ops[5]];
        let r = Dx7Patch { operators, global, name };
        assert(r.global == global_of(d));
        r
    }

    /// The parameters of operator `op`; fails for 6 and above.
    pub fn get_operator(&self, op: usize) -> (r: Result<OperatorParams, SysexError>)
        ensures
            op >= 6 <==> r is Err,
            r is Err ==> r->Err_0 == SysexError::InvalidOperator,
            r is Ok ==> r->Ok_0 == self.operators@[op as int],
    {
        if op >= 6 {
            return Err(SysexError::InvalidOperator);
        }
        Ok(self.operators[op])
    }

    /// The voice-wide parameters.
    pub fn get_global(&self) -> (r: GlobalParams)
        ensures
            r == self.global,
    {
        self.global
    }
}

/// An operator with every parameter zero.
pub open spec fn zero_operator() -> OperatorParams {
    OperatorParams {
        rates: Eg { attack: 0, decay1: 0, decay2: 0, release: 0 },
        levels: Eg { attack: 0, decay1: 0, decay2: 0, release: 0 },
        level_scaling_bp: 0,
        level_scaling_ld: 0,
        level_scaling_rd: 0,
        level_scaling_lc: 0,
        level_scaling_rc: 0,
        rate_scaling: 0,
        amp_mod_sens: 0,
        velocity_sens: 0,
        output_level: 0,
        osc_mode: 0,
        coarse_freq: 0,
        fine_freq: 0,
        detune: 0,
    }
}

/// Voice-wide parameters all zero.
pub open spec fn zero_global() -> GlobalParams {
    GlobalParams {
        pitch_eg_rate: [0, 0, 0, 0],
        pitch_eg_level: [0, 0, 0, 0],
        algorithm: 0,
        feedback: 0,
        osc_sync: 0,
        lfo_speed: 0,
        lfo_delay: 0,
        lfo_pitch_mod_depth: 0,
        lfo_amp_mod_depth: 0,
        lfo_sync: 0,
        lfo_waveform: 0,
        pitch_mod_sens: 0,
        transpose: 0,
    }
}

impl OperatorParams {
    /// Every parameter zero.
    pub fn zero() -> (r: Self)
        ensures
            r == zero_operator(),
    {
        let e = Eg { attack: 0, decay1: 0, decay2: 0, release: 0 };
        OperatorParams {
            rates: e,
            levels: e,
            level_scaling_bp: 0,
            level_scaling_ld: 0,
            level_scaling_rd: 0,
            level_scaling_lc: 0,
            level_scaling_rc: 0,
            rate_scaling: 0,
            amp_mod_sens: 0,
            velocity_sens: 0,
            output_level: 0,
            osc_mode: 0,
            coarse_freq: 0,
            fine_freq: 0,
            detune: 0,
        }
    }
}

impl GlobalParams {
    /// Every parameter zero.
    pub fn zero() -> (r: Self)
        ensures
            r == zero_global(),
    {
        GlobalParams {
            pitch_eg_rate: [0, 0, 0, 0],
            pitch_eg_level: [0, 0, 0, 0],
            algorithm: 0,
            feedback: 0,
            osc_sync: 0,
            lfo_speed: 0,
            lfo_delay: 0,
            lfo_pitch_mod_depth: 0,
            lfo_amp_mod_depth: 0,
            lfo_sync: 0,
            lfo_waveform: 0,
            pitch_mod_sens: 0,
            transpose: 0,
        }
    }
}

/// Byte `i` of the voice that `p` unpacks to: per operator, bytes 0..10
/// copied, then the curve, rate-scaling/detune, sensitivity and
/// mode/coarse bytes split into fields; voice-wide bytes 102..120 copied to
/// 126..144; the name 118..127 copied to 145..154.
pub open spec fn unpack_byte(p: Seq<u8>, i: int) -> u8 {
    if i < 126 {
        let b = i / 21 * 17;
        let f = i % 21;
        if f < 11 {
            p[b + f]
        } else if f == 11 {
            p[b + 11] & 0x0F & 3
        } else if f == 12 {
            ((p[b + 11] & 0x0F) >> 2u8) & 3
        } else if f == 13 {
            p[b + 12] & 0x7F & 7
        } else if f == 14 {
            p[b + 13] & 0x1F & 3
        } else if f == 15 {
            ((p[b + 13] & 0x1F) >> 2u8) & 7
        } else if f == 16 {
            p[b + 14] & 0x7F
        } else if f == 17 {
            p[b + 15] & 0x3F & 1
        } else if f == 18 {
            ((p[b + 15] & 0x3F) >> 1u8) & 0x1F
        } else if f == 19 {
            p[b + 16] & 0x7F
        } else {
            ((p[b + 12] & 0x7F) >> 3u8) & 0x7F
        }
    } else if i < 145 {
        p[i - 24]
    } else {
        p[i - 27]
    }
}

/// The unpacked voice of packed voice `p`.
pub open spec fn unpacked_of(p: Seq<u8>) -> Seq<u8> {
    Seq::new(155, |i: int| unpack_byte(p, i))
}

/// Byte `j` of the packed form of unpacked voice `u`: the inverse of
/// `unpack_byte` field by field.
pub open spec fn pack_byte(u: Seq<u8>, j: int) -> u8 {
    if j < 102 {
        let b = j / 17 * 21;
        let g = j % 17;
        if g < 11 {
            u[b + g]
        } else if g == 11 {
            (u[b + 11] & 3) | ((u[b + 12] & 3) << 2u8)
        } else if g == 12 {
            (u[b + 13] & 7) | ((u[b + 20] & 15) << 3u8)
        } else if g == 13 {
            (u[b + 14] & 3) | ((u[b + 15] & 7) << 2u8)
        } else if g == 14 {
            u[b + 16] & 0x7F
        } else if g == 15 {
            (u[b + 17] & 1) | ((u[b + 18] & 31) << 1u8)
        } else {
            u[b + 19] & 0x7F
        }
    } else if j < 118 {
        u[j + 24]
    } else {
        u[j + 27]
    }
}

/// The packed voice of unpacked voice `u`.
pub open spec fn packed_of(u: Seq<u8>) -> Seq<u8> {
    Seq::new(128, |j: int| pack_byte(u, j))
}

/// An unpacked voice that packing keeps: each split field within its bits,
/// and voice-wide bytes 142..144 equal to the first three name bytes, which
/// the packed layout stores in the same place.
pub open spec fn packable(u: Seq<u8>) -> bool {
    &&& u.len() == 155
    &&& forall|op: int|
        0 <= op < 6 ==> {
            let b = #[trigger] (op * 21);
            &&& u[b + 11] <= 3
            &&& u[b + 12] <= 3
            &&& u[b + 13] <= 7
            &&& u[b + 14] <= 3
            &&& u[b + 15] <= 7
            &&& u[b + 16] <= 127
            &&& u[b + 17] <= 1
            &&& u[b + 18] <= 31
            &&& u[b + 19] <= 127
            &&& u[b + 20] <= 15
        }
    &&& u[142] == u[145]
    &&& u[143] == u[146]
    &&& u[144] == u[147]
}

/// Position `x` of packed operator `op` lies in that operator.
proof fn lemma_div17(op: int, x: int)
    requires
        0 <= op < 6,
        0 <= x < 17,
    ensures
        (op * 17 + x) / 17 == op,
        (op * 17 + x) % 17 == x,
{
    assert((op * 17 + x) / 17 == op && (op * 17 + x) % 17 == x) by (nonlinear_arith)
        requires
            0 <= x < 17,
            0 <= op,
    ;
}

/// Unpacking a packed voice gives back the voice.
pub proof fn lemma_unpack_pack(u: Seq<u8>)
    requires
        packable(u),
    ensures
        unpacked_of(packed_of(u)) == u,
{
    let p = packed_of(u);
    assert forall|i: int| 0 <= i < 155 implies #[trigger] unpack_byte(p, i) == u[i] by {
        if i < 126 {
            let op = i / 21;
            let f = i % 21;
            assert(0 <= op < 6 && 0 <= f < 21 && i == op * 21 + f) by (nonlinear_arith)
                requires
                    0 <= i < 126,
                    op == i / 21,
                    f == i % 21,
            ;
            let b = op * 17;
            let ub = op * 21;
            lemma_div17(op, 11);
            lemma_div17(op, 12);
            lemma_div17(op, 13);
            lemma_div17(op, 14);
            lemma_div17(op, 15);
            lemma_div17(op, 16);
            assert(b + 16 < 102) by (nonlinear_arith)
                requires
                    b == op * 17,
                    0 <= op < 6,
            ;
            assert(u[ub + 11] <= 3);
            if f < 11 {
                lemma_div17(op, f);
                assert(p[b + f] == pack_byte(u, b + f));
            } else if f == 11 || f == 12 {
                let l = u[ub + 11];
                let r = u[ub + 12];
                assert(p[b + 11] == pack_byte(u, b + 11));
                assert(((l & 3) | ((r & 3) << 2u8)) & 0x0F & 3 == l && ((((l & 3) | ((r & 3) << 2u8))
                    & 0x0F) >> 2u8) & 3 == r) by (bit_vector)
                    requires
                        l <= 3,
                        r <= 3,
                ;
            } else if f == 13 || f == 20 {
                let rs = u[ub + 13];
                let dt = u[ub + 20];
                assert(p[b + 12] == pack_byte(u, b + 12));
                assert(((rs & 7) | ((dt & 15) << 3u8)) & 0x7F & 7 == rs && ((((rs & 7) | ((dt & 15)
                    << 3u8)) & 0x7F) >> 3u8) & 0x7F == dt) by (bit_vector)
                    requires
                        rs <= 7,
                        dt <= 15,
                ;
            } else if f == 14 || f == 15 {
                let a = u[ub + 14];
                let v = u[ub + 15];
                assert(p[b + 13] == pack_byte(u, b + 13));
                assert(((a & 3) | ((v & 7) << 2u8)) & 0x1F & 3 == a && ((((a & 3) | ((v & 7) << 2u8))
                    & 0x1F) >> 2u8) & 7 == v) by (bit_vector)
                    requires
                        a <= 3,
                        v <= 7,
                ;
            } else if f == 16 {
                let o = u[ub + 16];
                assert(p[b + 14] == pack_byte(u, b + 14));
                assert(o & 0x7F & 0x7F == o) by (bit_vector)
                    requires
                        o <= 127,
                ;
            } else if f == 17 || f == 18 {
                let m = u[ub + 17];
                let c = u[ub + 18];
                assert(p[b + 15] == pack_byte(u, b + 15));
                assert(((m & 1) | ((c & 31) << 1u8)) & 0x3F & 1 == m && ((((m & 1) | ((c & 31)
                    << 1u8)) & 0x3F) >> 1u8) & 0x1F == c) by (bit_vector)
                    requires
                        m <= 1,
                        c <= 31,
                ;
            } else {
                let o = u[ub + 19];
                assert(p[b + 16] == pack_byte(u, b + 16));
                assert(o & 0x7F & 0x7F == o) by (bit_vector)
                    requires
                        o <= 127,
                ;
            }
        } else if i < 145 {
            assert(p[i - 24] == pack_byte(u, i - 24));
        } else {
            assert(p[i - 27] == pack_byte(u, i - 27));
        }
    }
    assert(unpacked_of(p) =~= u);
}

/// Unpacks a 128-byte bank voice into the 155-byte voice layout.
pub fn unpack_voice_data(packed: &[u8]) -> (r: Result<Vec<u8>, SysexError>)
    ensures
        packed@.len() < 128 <==> r is Err,
        r is Err ==> r->Err_0 == SysexError::PackedVoiceTooShort,
        r is Ok ==> r->Ok_0@ == unpacked_of(packed@),
{
    if packed.len() < DX7_PACKED_VOICE_SIZE {
        return Err(SysexError::PackedVoiceTooShort);
    }
    Ok(unpack_at(packed, 0))
}

/// Unpacks the bank voice starting at `off`.
fn unpack_at(data: &[u8], off: usize) -> (r: Vec<u8>)
    requires
        off + 128 <= data@.len(),
    ensures
        r@ == unpacked_of(data@.subrange(off as int, off + 128)),
{
    let ghost p = data@.subrange(off as int, off + 128);
    let n: usize = data.len();
    let mut out: Vec<u8> = Vec::new();
    let mut i: usize = 0;
    while i < 155
        invariant
            i <= 155,
            n == data@.len(),
            off + 128 <= n,
            p == data@.subrange(off as int, off + 128),
            out@.len() == i,
            forall|k: int| 0 <= k < i ==> #[trigger] out@[k] == unpack_byte(p, k),
        decreases 155 - i,
    {
        let v: u8 = if i < 126 {
            let b: usize = off + i / 21 * 17;
            let f: usize = i % 21;
            assert(i / 21 * 17 + 16 < 128) by (nonlinear_arith)
                requires
                    i < 126,
            ;
            if f < 11 {
                data[b + f]
            } else if f == 11 {
                data[b + 11] & 0x0F & 3
            } else if f == 12 {
                ((data[b + 11] & 0x0F) >> 2) & 3
            } else if f == 13 {
                data[b + 12] & 0x7F & 7
            } else if f == 14 {
                data[b + 13] & 0x1F & 3
            } else if f == 15 {
                ((data[b + 13] & 0x1F) >> 2) & 7
            } else if f == 16 {
                data[b + 14] & 0x7F
            } else if f == 17 {
                data[b + 15] & 0x3F & 1
            } else if f == 18 {
                ((data[b + 15] & 0x3F) >> 1) & 0x1F
            } else if f == 19 {
                data[b + 16] & 0x7F
            } else {
                ((data[b + 12] & 0x7F) >> 3) & 0x7F
            }
        } else if i < 145 {
            data[off + (i - 24)]
        } else {
            data[off + (i - 27)]
        };
        out.push(v);
        i = i + 1;
    }
    assert(out@ =~= unpacked_of(p));
    out
}

/// Packs a 155-byte voice into the 128-byte bank layout.
pub fn pack_voice_data(unpacked: &[u8]) -> (r: Result<Vec<u8>, SysexError>)
    ensures
        unpacked@.len() < 155 <==> r is Err,
        r is Err ==> r->Err_0 == SysexError::VoiceTooShort,
        r is Ok ==> r->Ok_0@ == packed_of(unpacked@.subrange(0, 155)),
{
    if unpacked.len() < DX7_VOICE_SIZE {
        return Err(SysexError::VoiceTooShort);
    }
    let ghost u = unpacked@.subrange(0, 155);
    let mut out: Vec<u8> = Vec::new();
    let mut j: usize = 0;
    while j < 128
        invariant
            j <= 128,
            155 <= unpacked@.len(),
            u == unpacked@.subrange(0, 155),
            out@.len() == j,
            forall|k: int| 0 <= k < j ==> #[trigger] out@[k] == pack_byte(u, k),
        decreases 128 - j,
    {
        let v: u8 = if j < 102 {
            let b: usize = j / 17 * 21;
            let g: usize = j % 17;
            assert(j / 17 * 21 + 20 < 155) by (nonlinear_arith)
                requires
                    j < 102,
            ;
            if g < 11 {
                unpacked[b + g]
            } else if g == 11 {
                (unpacked[b + 11] & 3) | ((unpacked[b + 12] & 3) << 2)
            } else if g == 12 {
                (unpacked[b + 13] & 7) | ((unpacked[b + 20] & 15) << 3)
            } else if g == 13 {
                (unpacked[b + 14] & 3) | ((unpacked[b + 15] & 7) << 2)
            } else if g == 14 {
                unpacked[b + 16] & 0x7F
            } else if g == 15 {
                (unpacked[b + 17] & 1) | ((unpacked[b + 18] & 31) << 1)
            } else {
                unpacked[b + 19] & 0x7F
            }
        } else if j < 118 {
            unpacked[j + 24]
        } else {
            unpacked[j + 27]
        };
        out.push(v);
        j = j + 1;
    }
    assert(out@ =~= packed_of(u));
    Ok(out)
}

/// Byte `k` of a voice's ten-byte name field: the name's UTF-8 bytes,
/// padded with spaces.
pub open spec fn name_field_byte(name: Seq<char>, k: int) -> u8 {
    let b = vstd::utf8::encode_utf8(name);
    if k < b.len() {
        b[k]
    } else {
        0x20
    }
}

/// Byte `f` of an operator's 21 bytes in the unpacked voice layout: rates,
/// levels, break point, depths, curves, rate scaling, sensitivities, output
/// level, mode, coarse, fine, detune, one byte each.
pub open spec fn operator_byte(o: OperatorParams, f: int) -> u8 {
    if f == 0 {
        o.rates.attack
    } else if f == 1 {
        o.rates.decay1
    } else if f == 2 {
        o.rates.decay2
    } else if f == 3 {
        o.rates.release
    } else if f == 4 {
        o.levels.attack
    } else if f == 5 {
        o.levels.decay1
    } else if f == 6 {
        o.levels.decay2
    } else if f == 7 {
        o.levels.release
    } else if f == 8 {
        o.level_scaling_bp
    } else if f == 9 {
        o.level_scaling_ld
    } else if f == 10 {
        o.level_scaling_rd
    } else if f == 11 {
        o.level_scaling_lc
    } else if f == 12 {
        o.level_scaling_rc
    } else if f == 13 {
        o.rate_scaling
    } else if f == 14 {
        o.amp_mod_sens
    } else if f == 15 {
        o.velocity_sens
    } else if f == 16 {
        o.output_level
    } else if f == 17 {
        o.osc_mode
    } else if f == 18 {
        o.coarse_freq
    } else if f == 19 {
        o.fine_freq
    } else {
        o.detune
    }
}

/// Byte `k` (126 + k) of the voice-wide parameters.
pub open spec fn global_byte(g: GlobalParams, k: int) -> u8 {
    if k < 4 {
        g.pitch_eg_rate@[k]
    } else if k < 8 {
        g.pitch_eg_level@[k - 4]
    } else if k == 8 {
        g.algorithm
    } else if k == 9 {
        g.feedback
    } else if k == 10 {
        g.osc_sync
    } else if k == 11 {
        g.lfo_speed
    } else if k == 12 {
        g.lfo_delay
    } else if k == 13 {
        g.lfo_pitch_mod_depth
    } else if k == 14 {
        g.lfo_amp_mod_depth
    } else if k == 15 {
        g.lfo_sync
    } else if k == 16 {
        g.lfo_waveform
    } else if k == 17 {
        g.pitch_mod_sens
    } else {
        g.transpose
    }
}

/// The 155 bytes a patch is written as.
pub open spec fn patch_bytes(p: Dx7Patch) -> Seq<u8> {
    Seq::new(
        155,
        |i: int|
            if i < 126 {
                operator_byte(p.operators@[i / 21], i % 21)
            } else if i < 145 {
                global_byte(p.global, i - 126)
            } else {
                name_field_byte(p.name@, i - 145)
            },
    )
}

/// Writing a patch and reading it back gives the same operators and
/// voice-wide parameters.
pub proof fn lemma_to_data_from_data(p: Dx7Patch)
    ensures
        forall|op: int| 0 <= op < 6 ==> #[trigger] operator_of(patch_bytes(p), op * 21) == p.operators@[op],
        global_of(patch_bytes(p)) == p.global,
{
    let d = patch_bytes(p);
    assert forall|op: int| 0 <= op < 6 implies #[trigger] operator_of(d, op * 21) == p.operators@[op] by {
        assert forall|f: int| 0 <= f < 21 implies #[trigger] d[op * 21 + f] == operator_byte(
            p.operators@[op],
            f,
        ) by {
            assert((op * 21 + f) / 21 == op && (op * 21 + f) % 21 == f && op * 21 + f < 126)
                by (nonlinear_arith)
                requires
                    0 <= op < 6,
                    0 <= f < 21,
            ;
        }
        assert(d[op * 21 + 0] == d[op * 21]);
    }
    let g = global_of(d);
    assert(g.pitch_eg_rate@ =~= p.global.pitch_eg_rate@);
    assert(g.pitch_eg_level@ =~= p.global.pitch_eg_level@);
    assert(g.pitch_eg_rate == p.global.pitch_eg_rate);
    assert(g.pitch_eg_level == p.global.pitch_eg_level);
}

impl Dx7Patch {
    /// Writes the voice as 155 bytes in the unpacked voice layout: operators,
    /// voice-wide parameters, then the name padded with spaces.
    pub fn to_data(&self) -> (r: Vec<u8>)
        ensures
            r@ == patch_bytes(*self),
    {
        let name: &[u8] = self.name.as_str().as_bytes();
        let mut out: Vec<u8> = Vec::new();
        let mut i: usize = 0;
        while i < 155
            invariant
                i <= 155,
                name@ == vstd::utf8::encode_utf8(self.name@),
                out@.len() == i,
                forall|k: int| 0 <= k < i ==> #[trigger] out@[k] == patch_bytes(*self)[k],
            decreases 155 - i,
        {
            let v: u8 = if i < 126 {
                let o: OperatorParams = self.operators[i / 21];
                let f: usize = i % 21;
                if f == 0 {
                    o.rates.attack
                } else if f == 1 {
                    o.rates.decay1
                } else if f == 2 {
                    o.rates.decay2
                } else if f == 3 {
                    o.rates.release
                } else if f == 4 {
                    o.levels.attack
                } else if f == 5 {
                    o.levels.decay1
                } else if f == 6 {
                    o.levels.decay2
                } else if f == 7 {
                    o.levels.release
                } else if f == 8 {
                    o.level_scaling_bp
                } else if f == 9 {
                    o.level_scaling_ld
                } else if f == 10 {
                    o.level_scaling_rd
                } else if f == 11 {
                    o.level_scaling_lc
                } else if f == 12 {
                    o.level_scaling_rc
                } else if f == 13 {
                    o.rate_scaling
                } else if f == 14 {
                    o.amp_mod_sens
                } else if f == 15 {
                    o.velocity_sens
                } else if f == 16 {
                    o.output_level
                } else if f == 17 {
                    o.osc_mode
                } else if f == 18 {
                    o.coarse_freq
                } else if f == 19 {
                    o.fine_freq
                } else {
                    o.detune
                }
            } else if i < 145 {
                let g: GlobalParams = self.global;
                let k: usize = i - 126;
                if k < 4 {
                    g.pitch_eg_rate[k]
                } else if k < 8 {
                    g.pitch_eg_level[k - 4]
                } else if k == 8 {
                    g.algorithm
                } else if k == 9 {
                    g.feedback
                } else if k == 10 {
                    g.osc_sync
                } else if k == 11 {
                    g.lfo_speed
                } else if k == 12 {
                    g.lfo_delay
                } else if k == 13 {
                    g.lfo_pitch_mod_depth
                } else if k == 14 {
                    g.lfo_amp_mod_depth
                } else if k == 15 {
                    g.lfo_sync
                } else if k == 16 {
                    g.lfo_waveform
                } else if k == 17 {
                    g.pitch_mod_sens
                } else {
                    g.transpose
                }
            } else if i - 145 < name.len() {
                name[i - 145]
            } else {
                0x20
            };
            out.push(v);
            i = i + 1;
        }
        assert(out@ =~= patch_bytes(*self));
        out
    }
}

/// Whether `v` holds the 32 voices of the packed bank starting at `off`.
pub open spec fn bank_matches(v: Seq<Dx7Patch>, d: Seq<u8>, off: int) -> bool {
    &&& v.len() == 32
    &&& forall|k: int|
        0 <= k < 32 ==> patch_matches(#[trigger] v[k], unpacked_of(d.subrange(off + k * 128, off + k * 128 + 128)))
}

/// What a SysEx message `m` holds, or why it is refused: too short, a
/// wrong first or last byte, another manufacturer, a voice or bank message
/// too short for its format, or an unknown format.
pub open spec fn message_result(m: Seq<u8>, r: Result<Vec<Dx7Patch>, SysexError>) -> bool {
    if m.len() < 6 {
        r == Err::<Vec<Dx7Patch>, SysexError>(SysexError::MessageTooShort)
    } else if m[0] != SYSEX_START {
        r == Err::<Vec<Dx7Patch>, SysexError>(SysexError::InvalidStart)
    } else if m[m.len() - 1] != SYSEX_END {
        r == Err::<Vec<Dx7Patch>, SysexError>(SysexError::InvalidEnd)
    } else if m[1] != YAMAHA_ID {
        r == Err::<Vec<Dx7Patch>, SysexError>(SysexError::NotYamaha)
    } else if m[3] == DX7_SINGLE_VOICE {
        if m.len() < 163 {
            r == Err::<Vec<Dx7Patch>, SysexError>(SysexError::SingleVoiceTooShort)
        } else {
            r is Ok && r->Ok_0@.len() == 1 && patch_matches(r->Ok_0@[0], m.subrange(6, 161))
        }
    } else if m[3] == DX7_32_VOICES {
        if m.len() < 4104 {
            r == Err::<Vec<Dx7Patch>, SysexError>(SysexError::BankTooShort)
        } else {
            r is Ok && bank_matches(r->Ok_0@, m, 6)
        }
    } else {
        r == Err::<Vec<Dx7Patch>, SysexError>(SysexError::UnsupportedFormat(m[3]))
    }
}

/// Reads the 32 voices of a packed bank; fails on fewer than 4096 bytes.
pub fn parse_voice_bank(bank_data: &[u8]) -> (r: Result<Vec<Dx7Patch>, SysexError>)
    ensures
        bank_data@.len() < 4096 <==> r is Err,
        r is Err ==> r->Err_0 == SysexError::BankDataTooShort,
        r is Ok ==> bank_matches(r->Ok_0@, bank_data@, 0),
{
    if bank_data.len() < DX7_BANK_SIZE {
        return Err(SysexError::BankDataTooShort);
    }
    Ok(bank_at(bank_data, 0))
}

/// Reads the packed bank starting at `off`.
fn bank_at(data: &[u8], off: usize) -> (r: Vec<Dx7Patch>)
    requires
        off + 4096 <= data@.len(),
    ensures
        bank_matches(r@, data@, off as int),
{
    let n: usize = data.len();
    let mut patches: Vec<Dx7Patch> = Vec::new();
    let mut k: usize = 0;
    while k < 32
        invariant
            k <= 32,
            n == data@.len(),
            off + 4096 <= n,
            patches@.len() == k,
            forall|j: int|
                0 <= j < k ==> patch_matches(
                    #[trigger] patches@[j],
                    unpacked_of(data@.subrange(off + j * 128, off + j * 128 + 128)),
                ),
        decreases 32 - k,
    {
        assert(k * 128 + 128 <= 4096) by (nonlinear_arith)
            requires
                k < 32,
        ;
        let unpacked: Vec<u8> = unpack_at(data, off + k * 128);
        let patch = Dx7Patch::read_at(unpacked.as_slice(), 0);
        assert(unpacked@.subrange(0, 155) =~= unpacked@);
        patches.push(patch);
        k = k + 1;
    }
    patches
}

/// Reads one SysEx message: a single voice or a 32-voice bank.
pub fn parse_sysex_message(msg: &[u8]) -> (r: Result<Vec<Dx7Patch>, SysexError>)
    ensures
        message_result(msg@, r),
{
    let r = message_at(msg, 0, msg.len());
    assert(msg@.subrange(0, msg@.len() as int) =~= msg@);
    r
}

/// Reads the message `data[start..end]`.
fn message_at(data: &[u8], start: usize, end: usize) -> (r: Result<Vec<Dx7Patch>, SysexError>)
    requires
        start <= end <= data@.len(),
    ensures
        message_result(data@.subrange(start as int, end as int), r),
{
    let ghost m = data@.subrange(start as int, end as int);
    let len: usize = end - start;
    if len < 6 {
        return Err(SysexError::MessageTooShort);
    }
    if data[start] != SYSEX_START {
        return Err(SysexError::InvalidStart);
    }
    if data[end - 1] != SYSEX_END {
        return Err(SysexError::InvalidEnd);
    }
    if data[start + 1] != YAMAHA_ID {
        return Err(SysexError::NotYamaha);
    }
    let format: u8 = data[start + 3];
    if format == DX7_SINGLE_VOICE {
        if len < 163 {
            return Err(SysexError::SingleVoiceTooShort);
        }
        let patch = Dx7Patch::read_at(data, start + 6);
        assert(data@.subrange(start + 6, start + 6 + 155) =~= m.subrange(6, 161));
        let mut v: Vec<Dx7Patch> = Vec::new();
        v.push(patch);
        Ok(v)
    } else if format == DX7_32_VOICES {
        if len < 4104 {
            return Err(SysexError::BankTooShort);
        }
        let v = bank_at(data, start + 6);
        assert forall|k: int| 0 <= k < 32 implies patch_matches(
            #[trigger] v@[k],
            unpacked_of(m.subrange(6 + k * 128, 6 + k * 128 + 128)),
        ) by {
            assert(data@.subrange(start + 6 + k * 128, start + 6 + k * 128 + 128) =~= m.subrange(
                6 + k * 128,
                6 + k * 128 + 128,
            ));
        }
        Ok(v)
    } else {
        Err(SysexError::UnsupportedFormat(format))
    }
}

/// The unpacked voices message `m` holds: one for a single-voice message,
/// 32 for a bank, none for a message `message_result` refuses.
pub open spec fn message_voices(m: Seq<u8>) -> Seq<Seq<u8>> {
    if m.len() < 6 || m[0] != SYSEX_START || m[m.len() - 1] != SYSEX_END || m[1] != YAMAHA_ID {
        seq![]
    } else if m[3] == DX7_SINGLE_VOICE && m.len() >= 163 {
        seq![m.subrange(6, 161)]
    } else if m[3] == DX7_32_VOICES && m.len() >= 4104 {
        Seq::new(32, |k: int| unpacked_of(m.subrange(6 + k * 128, 6 + k * 128 + 128)))
    } else {
        seq![]
    }
}

/// Whether patches `v` hold voices `w`, one for one.
pub open spec fn voices_match(v: Seq<Dx7Patch>, w: Seq<Seq<u8>>) -> bool {
    &&& v.len() == w.len()
    &&& forall|i: int| 0 <= i < v.len() ==> patch_matches(#[trigger] v[i], w[i])
}

/// The messages of `d` from `pos` on, as (start, end) ranges, when a message
/// started at `start` (if any) is still open: each runs from a start byte to
/// the next end byte; bytes outside messages are skipped. None when a
/// message is never closed.
pub open spec fn scan_messages(d: Seq<u8>, pos: int, open: Option<int>) -> Option<Seq<(int, int)>>
    decreases d.len() - pos,
{
    if pos >= d.len() {
        if open is Some {
            None
        } else {
            Some(seq![])
        }
    } else {
        match open {
            None => if d[pos] == SYSEX_START {
                scan_messages(d, pos + 1, Some(pos))
            } else {
                scan_messages(d, pos + 1, None)
            },
            Some(start) => if d[pos] == SYSEX_END {
                match scan_messages(d, pos + 1, None) {
                    Some(rest) => Some(seq![(start, pos + 1)] + rest),
                    None => None,
                }
            } else {
                scan_messages(d, pos + 1, Some(start))
            },
        }
    }
}

/// The voices messages `msgs` of `d` hold, in order.
pub open spec fn voices_in(d: Seq<u8>, msgs: Seq<(int, int)>) -> Seq<Seq<u8>>
    decreases msgs.len(),
{
    if msgs.len() == 0 {
        seq![]
    } else {
        let (s, e) = msgs.last();
        voices_in(d, msgs.drop_last()) + message_voices(d.subrange(s, e))
    }
}

/// `done` followed by what a scan finds, if it finds anything.
pub open spec fn after(done: Seq<(int, int)>, o: Option<Seq<(int, int)>>) -> Option<Seq<(int, int)>> {
    match o {
        Some(r) => Some(done + r),
        None => None,
    }
}

/// A message's result holds exactly its voices.
proof fn lemma_message_voices(m: Seq<u8>, r: Result<Vec<Dx7Patch>, SysexError>)
    requires
        message_result(m, r),
    ensures
        r is Ok <==> message_voices(m).len() > 0,
        r is Ok ==> voices_match(r->Ok_0@, message_voices(m)),
{
    if r is Ok && m[3] == DX7_32_VOICES && m[3] != DX7_SINGLE_VOICE {
        let v = r->Ok_0@;
        assert forall|i: int| 0 <= i < v.len() implies patch_matches(#[trigger] v[i], message_voices(m)[i]) by {}
    }
}

/// Reads every DX7 voice in a stream of SysEx messages, in order. Bytes
/// outside messages and messages that hold no DX7 voice are skipped. It
/// fails on empty data, on a message start with no end after it, and when
/// no message held a voice.
pub fn parse_sysex_data(data: &[u8]) -> (r: Result<Vec<Dx7Patch>, SysexError>)
    ensures
        data@.len() == 0 <==> r == Err::<Vec<Dx7Patch>, SysexError>(SysexError::Empty),
        data@.len() > 0 ==> (scan_messages(data@, 0, None) is None <==> r
            == Err::<Vec<Dx7Patch>, SysexError>(SysexError::Unterminated)),
        data@.len() > 0 ==> match scan_messages(data@, 0, None) {
            Some(msgs) => {
                let w = voices_in(data@, msgs);
                &&& (w.len() == 0 <==> r == Err::<Vec<Dx7Patch>, SysexError>(SysexError::NoPatches))
                &&& (w.len() > 0 <==> r is Ok)
                &&& (r is Ok ==> voices_match(r->Ok_0@, w))
            },
            None => true,
        },
{
    if data.len() == 0 {
        return Err(SysexError::Empty);
    }
    let n: usize = data.len();
    let ghost d = data@;
    let ghost mut done: Seq<(int, int)> = seq![];
    let mut patches: Vec<Dx7Patch> = Vec::new();
    let mut pos: usize = 0;
    while pos < n
        invariant
            n == data@.len(),
            d == data@,
            pos <= n,
            scan_messages(d, 0, None) == after(done, scan_messages(d, pos as int, None)),
            voices_match(patches@, voices_in(d, done)),
        decreases n - pos,
    {
        let ghost p0 = pos;
        while pos < n && data[pos] != SYSEX_START
            invariant
                n == data@.len(),
                d == data@,
                p0 <= pos <= n,
                scan_messages(d, p0 as int, None) == scan_messages(d, pos as int, None),
            decreases n - pos,
        {
            pos = pos + 1;
        }
        if pos < n {
            let start: usize = pos;
            pos = pos + 1;
            while pos < n && data[pos] != SYSEX_END
                invariant
                    n == data@.len(),
                    d == data@,
                    p0 <= start < pos <= n,
                    scan_messages(d, start as int, None) == scan_messages(d, pos as int, Some(start as int)),
                decreases n - pos,
            {
                pos = pos + 1;
            }
            if pos >= n {
                assert(scan_messages(d, pos as int, Some(start as int)) is None);
                return Err(SysexError::Unterminated);
            }
            let ghost rest = scan_messages(d, pos + 1, None);
            pos = pos + 1;
            let result = message_at(data, start, pos);
            proof {
                let m = d.subrange(start as int, pos as int);
                lemma_message_voices(m, result);
                let done2 = done.push((start as int, pos as int));
                assert(done2.drop_last() =~= done);
                assert(voices_in(d, done2) == voices_in(d, done) + message_voices(m));
                match rest {
                    Some(r) => {
                        assert(done + (seq![(start as int, pos as int)] + r) =~= done2 + r);
                    },
                    None => {},
                }
                done = done2;
            }
            match result {
                Ok(mut found) => {
                    let ghost before = patches@;
                    patches.append(&mut found);
                    assert(voices_match(patches@, voices_in(d, done))) by {
                        let w = voices_in(d, done);
                        assert forall|i: int| 0 <= i < patches@.len() implies patch_matches(
                            #[trigger] patches@[i],
                            w[i],
                        ) by {
                            if i < before.len() {
                                assert(patches@[i] == before[i]);
                            }
                        }
                    }
                },
                Err(_) => {
                    assert(voices_in(d, done) =~= voices_in(d, done.drop_last()));
                },
            }
        }
    }
    assert(scan_messages(d, pos as int, None) == Some(Seq::<(int, int)>::empty()));
    assert(done + Seq::<(int, int)>::empty() =~= done);
    if patches.len() == 0 {
        return Err(SysexError::NoPatches);
    }
    Ok(patches)
}

/// Symbols a multisample name may hold besides letters and digits.
pub open spec fn allowed_symbol(c: char) -> bool {
    c == '~' || c == '!' || c == '@' || c == '#' || c == '$' || c == '%' || c == '^' || c == '&'
        || c == '(' || c == ')' || c == '_' || c == '+' || c == '-' || c == '=' || c == ' '
}

/// Accented letters a multisample name may hold.
pub open spec fn allowed_letter(c: char) -> bool {
    c == 'å' || c == 'ß' || c == 'ä' || c == 'ö' || c == 'ü' || c == 'æ' || c == 'ø' || c == 'ç'
        || c == 'ñ' || c == 'Å' || c == 'ẞ' || c == 'Ä' || c == 'Ö' || c == 'Ü' || c == 'Æ'
        || c == 'Ø' || c == 'Ç' || c == 'Ñ'
}

/// Whether a character may stand in a multisample name: ASCII letters and
/// digits, a few symbols and space, and some accented letters.
pub fn tonverk_allowed(c: char) -> (r: bool)
    ensures
        r == (('a' <= c <= 'z') || ('A' <= c <= 'Z') || ('0' <= c <= '9') || allowed_symbol(c)
            || allowed_letter(c)),
{
    ('a' <= c && c <= 'z') || ('A' <= c && c <= 'Z') || ('0' <= c && c <= '9') || c == '~' || c
        == '!' || c == '@' || c == '#' || c == '$' || c == '%' || c == '^' || c == '&' || c == '('
        || c == ')' || c == '_' || c == '+' || c == '-' || c == '=' || c == ' ' || c == 'å' || c
        == 'ß' || c == 'ä' || c == 'ö' || c == 'ü' || c == 'æ' || c == 'ø' || c == 'ç' || c == 'ñ'
        || c == 'Å' || c == 'ẞ' || c == 'Ä' || c == 'Ö' || c == 'Ü' || c == 'Æ' || c == 'Ø' || c
        == 'Ç' || c == 'Ñ'
}

} // verus!
