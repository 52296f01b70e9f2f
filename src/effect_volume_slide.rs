use vstd::prelude::*;

verus! {

/// Full scale of a volume (`1.0`) in Q1.15.
pub const VOLUME_FULL: i32 = 32768;

/// One slide unit, `1/64` of full scale, in Q1.15.
pub const SLIDE_UNIT: i32 = 512;

/// The canonical volume range `[0, 1]`, in Q1.15.
pub open spec fn clamp_volume(v: int) -> int {
    if v < 0 {
        0
    } else if v > VOLUME_FULL {
        VOLUME_FULL as int
    } else {
        v
    }
}

/// Slide amount per tick (Q1.15) that a raw command byte encodes, or none
/// when both nibbles are set.
pub open spec fn slide_of(raw: u8) -> Option<int> {
    let hi = raw / 16;
    let lo = raw % 16;
    if hi != 0 && lo != 0 {
        None
    } else if hi != 0 {
        Some(hi * SLIDE_UNIT)
    } else {
        Some(-(lo * SLIDE_UNIT))
    }
}

/// The byte that decoding sees for a parameter under a direction selector:
/// `1` moves the low nibble up (slide up), `2` keeps only the low nibble
/// (slide down), anything else keeps the byte.
pub open spec fn remap_param(param: u8, updown: u8) -> u8 {
    if updown == 1 {
        ((param % 16) * 16) as u8
    } else if updown == 2 {
        param % 16
    } else {
        param
    }
}

/// What `xm_convert` returns for a raw byte.
pub open spec fn converted(raw: u8) -> Option<(Option<i32>, Option<i32>)> {
    match slide_of(raw) {
        Some(a) => Some((Some(a as i32), None)),
        None => None,
    }
}

/// Per-tick volume change, Q1.15, signed: positive slides up.
#[derive(Clone, Copy, Debug, PartialEq, Eq, Structural)]
pub struct Volume {
    pub value: i32,
}

/// Volume slide effect: holds the slide amount last decoded.
#[derive(Clone, Copy, Debug, PartialEq, Eq, Structural)]
pub struct EffectVolumeSlide {
    pub data: Volume,
}

impl Default for Volume {
    fn default() -> (r: Self)
        ensures
            r.value == 0,
    {
        Volume { value: 0 }
    }
}

impl Default for EffectVolumeSlide {
    fn default() -> (r: Self)
        ensures
            r.data.value == 0,
    {
        EffectVolumeSlide { data: Volume { value: 0 } }
    }
}

impl EffectVolumeSlide {
    /// First tick of a new command: stores the slide amount and returns it.
    pub fn tick0(&mut self, value: i32, _param2: i32) -> (r: i32)
        ensures
            final(self).data.value == value,
            r == value,
    {
        self.data.value = value;
        self.value()
    }

    /// A following tick: returns the stored slide amount, which the driver
    /// accumulates and clamps.
    pub fn tick(&mut self) -> (r: i32)
        ensures
            *final(self) == *old(self),
            r == old(self).data.value,
    {
        self.value()
    }

    /// Whether the slide still changes anything.
    pub fn in_progress(&self) -> (r: bool)
        ensures
            r == (self.data.value != 0),
    {
        self.data.value != 0
    }

    /// Re-asserts the stored slide amount.
    pub fn retrigger(&mut self) -> (r: i32)
        ensures
            *final(self) == *old(self),
            r == old(self).data.value,
    {
        self.value()
    }

    /// Brings a volume into the canonical range `[0, VOLUME_FULL]`.
    pub fn clamp(&self, volume: i32) -> (r: i32)
        ensures
            r == clamp_volume(volume as int),
            0 <= r <= VOLUME_FULL,
    {
        if volume < 0 {
            0
        } else if volume > VOLUME_FULL {
            VOLUME_FULL
        } else {
            volume
        }
    }

    /// The stored slide amount.
    pub fn value(&self) -> (r: i32)
        ensures
            r == self.data.value,
    {
        self.data.value
    }

    /// Decodes a raw command byte: the high nibble slides up, the low nibble
    /// slides down, each by `nibble / 64`; both set is illegal.
    pub fn xm_convert(rawval: u8, _special: u8) -> (r: Option<(Option<i32>, Option<i32>)>)
        ensures
            r == converted(rawval),
    {
        let hi: u8 = rawval / 16;
        let lo: u8 = rawval % 16;
        if hi != 0 && lo != 0 {
            return None;
        }
        if hi != 0 {
            Some((Some(hi as i32 * SLIDE_UNIT), None))
        } else {
            Some((Some(-(lo as i32 * SLIDE_UNIT)), None))
        }
    }

    /// Applies a command parameter under a direction selector (`1` up,
    /// `2` down, else decided by the byte); an illegal byte leaves the
    /// stored slide as it was.
    pub fn xm_update_effect(&mut self, param: u8, updown: u8, _special2: i32)
        ensures
            final(self).data.value == (match slide_of(remap_param(param, updown)) {
                Some(a) => a as i32,
                None => old(self).data.value,
            }),
    {
        let arg: u8 = if updown == 1 {
            (param % 16) * 16
        } else if updown == 2 {
            param % 16
        } else {
            param
        };
        if let Some((Some(vol_slide), None)) = Self::xm_convert(arg, 0) {
            self.tick0(vol_slide, 0);
        }
        self.retrigger();
    }
}

} // verus!
