//! MIDI controller state: pitch bend, wheels, pedals and volume.
use vstd::prelude::*;

verus! {

/// Current values of the performance controllers of one MIDI channel.
#[derive(Clone, Copy, Debug)]
pub struct Controllers {
    /// 14-bit pitch bend, centred at 0x2000.
    pub pitch_bend: u16,
    /// Modulation wheel, 7 bits.
    pub mod_wheel: u8,
    /// Breath controller, 7 bits.
    pub breath: u8,
    /// Channel aftertouch, 7 bits.
    pub aftertouch: u8,
    /// Foot controller, 7 bits.
    pub foot: u8,
    /// Expression, 7 bits.
    pub expression: u8,
    /// Channel volume, 7 bits.
    pub volume: u8,
}

impl Controllers {
    /// The values every controller has at power-on.
    pub open spec fn initial() -> Controllers {
        Controllers {
            pitch_bend: 0x2000,
            mod_wheel: 0,
            breath: 0,
            aftertouch: 0,
            foot: 0,
            expression: 127,
            volume: 100,
        }
    }

    /// Controllers at their power-on values: bend centred, full expression,
    /// volume 100.
    pub fn new() -> (r: Self)
        ensures
            r == Self::initial(),
    {
        Controllers {
            pitch_bend: 0x2000,
            mod_wheel: 0,
            breath: 0,
            aftertouch: 0,
            foot: 0,
            expression: 127,
            volume: 100,
        }
    }

    /// Returns every controller to its power-on value.
    pub fn reset(&mut self)
        ensures
            *final(self) == Self::initial(),
    {
        *self = Self::new();
    }

    /// Sets the pitch bend, keeping its low 14 bits.
    pub fn set_pitch_bend(&mut self, value: u16)
        ensures
            *final(self) == (Controllers { pitch_bend: value & 0x3FFF, ..*old(self) }),
    {
        self.pitch_bend = value & 0x3FFF;
    }

    /// The pitch bend relative to its centre, in [-0x2000, 0x1FFF].
    pub fn get_pitch_bend_signed(&self) -> (r: i16)
        requires
            self.pitch_bend <= 0x3FFF,
        ensures
            r as int == self.pitch_bend as int - 0x2000,
    {
        (self.pitch_bend as i16) - 0x2000
    }

    /// Sets the modulation wheel, keeping its low 7 bits.
    pub fn set_mod_wheel(&mut self, value: u8)
        ensures
            *final(self) == (Controllers { mod_wheel: value & 0x7F, ..*old(self) }),
    {
        self.mod_wheel = value & 0x7F;
    }

    /// Sets the breath controller, keeping its low 7 bits.
    pub fn set_breath(&mut self, value: u8)
        ensures
            *final(self) == (Controllers { breath: value & 0x7F, ..*old(self) }),
    {
        self.breath = value & 0x7F;
    }

    /// Sets the aftertouch, keeping its low 7 bits.
    pub fn set_aftertouch(&mut self, value: u8)
        ensures
            *final(self) == (Controllers { aftertouch: value & 0x7F, ..*old(self) }),
    {
        self.aftertouch = value & 0x7F;
    }

    /// Sets the foot controller, keeping its low 7 bits.
    pub fn set_foot(&mut self, value: u8)
        ensures
            *final(self) == (Controllers { foot: value & 0x7F, ..*old(self) }),
    {
        self.foot = value & 0x7F;
    }

    /// Sets the expression, keeping its low 7 bits.
    pub fn set_expression(&mut self, value: u8)
        ensures
            *final(self) == (Controllers { expression: value & 0x7F, ..*old(self) }),
    {
        self.expression = value & 0x7F;
    }

    /// Sets the channel volume, keeping its low 7 bits.
    pub fn set_volume(&mut self, value: u8)
        ensures
            *final(self) == (Controllers { volume: value & 0x7F, ..*old(self) }),
    {
        self.volume = value & 0x7F;
    }
}

} // verus!
