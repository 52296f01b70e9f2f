use vstd::prelude::*;
use xmrs::prelude::{FrequencyType, Period, PeriodHelper, PitchQ};

verus! {

/// Period of a Q8.8 pitch, under linear (`true`) or Amiga frequencies.
pub uninterp spec fn period_of(linear: bool, pitch: int) -> int;

/// Q24.8 frequency of a period, under linear (`true`) or Amiga frequencies.
pub uninterp spec fn frequency_of(linear: bool, period: int) -> int;

/// The linear period of a Q8.8 pitch: `7680 - pitch / 4`, floored at 0.
pub open spec fn linear_period(pitch: int) -> int {
    let p = 7680 - pitch / 4;
    if p < 0 {
        0
    } else {
        p
    }
}

/// The Amiga frequency of a period in Q24.8 Hz: `3546894 * 256 / period`,
/// or 0 for a zero period.
pub open spec fn amiga_frequency(period: int) -> int {
    if period == 0 {
        0
    } else {
        908004864int / period
    }
}

/// Relies on xmrs `PeriodHelper::note_to_period`: a function of the mode
/// and the pitch, the exact integer map `7680 - (pitch >> 2)` in linear mode.
#[verifier::external_body]
pub(crate) fn note_to_period(linear: bool, pitch: i16) -> (r: u16)
    ensures
        r == period_of(linear, pitch as int),
        linear ==> r == linear_period(pitch as int),
{
    let mode = if linear {
        FrequencyType::LinearFrequencies
    } else {
        FrequencyType::AmigaFrequencies
    };
    PeriodHelper::new(mode, false).note_to_period(PitchQ::from_q8_8_i16(pitch)).raw()
}

/// Relies on xmrs `PeriodHelper::period_to_frequency`: a function of the mode
/// and the period, in Q24.8 Hz; in Amiga mode `(3546894 << 8) / period`,
/// and 0 for a zero period.
#[verifier::external_body]
pub(crate) fn period_to_frequency(linear: bool, period: u16) -> (r: u32)
    ensures
        r == frequency_of(linear, period as int),
        !linear ==> r == amiga_frequency(period as int),
{
    let mode = if linear {
        FrequencyType::LinearFrequencies
    } else {
        FrequencyType::AmigaFrequencies
    };
    PeriodHelper::new(mode, false).period_to_frequency(Period::from_raw(period)).raw_q24_8()
}

} // verus!
