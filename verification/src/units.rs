//! Validated playback units: output volume and tempo.
//!
//! Both are fixed-point quantities, so every conversion and every clamp is
//! exact integer arithmetic.

use vstd::prelude::*;
use vstd::std_specs::convert::FromSpecImpl;
use vstd::std_specs::convert::TryFromSpecImpl;
use vstd::string::StringExecFns;

use crate::text::hundredths;
use crate::text::thousandths;
use crate::text::to_hundredths;
use crate::text::to_thousandths;

verus! {

/// The result of moving `v` by `delta` and stopping at the ends of
/// `[low, high]`.
pub open spec fn clamped_sum(v: int, delta: int, low: int, high: int) -> int {
    if v + delta < low {
        low
    } else if v + delta > high {
        high
    } else {
        v + delta
    }
}

/// `n / unit` rounded to the nearest whole number, halves rounding up.
pub open spec fn rounded_div(n: int, unit: int) -> int {
    (n + unit / 2) / unit
}

/// Output volume, stored in hundredths of a percent.
#[derive(Debug, Clone, Copy, PartialEq, Eq, Structural)]
pub struct Volume(u32);

impl Volume {
    /// How many stored units make one percent.
    pub const PER_PERCENT: u32 = 100;

    /// The stored value of full volume, which is also the denominator of the
    /// gain returned by [`Volume::as_scale`].
    pub const FULL_SCALE: u32 = 10_000;

    /// The volume in hundredths of a percent.
    pub closed spec fn value(self) -> int {
        self.0 as int
    }

    /// A volume lies between silence and one hundred percent.
    pub open spec fn wf(self) -> bool {
        0 <= self.value() <= Self::FULL_SCALE
    }

    /// The volume in whole percent, rounded to the nearest.
    pub open spec fn percent(self) -> u32 {
        rounded_div(self.value(), 100) as u32
    }

    /// The volume in hundredths of a percent, in `[0, 10_000]`.
    pub fn as_percentage(self) -> (r: u32)
        ensures
            r == self.value(),
    {
        self.0
    }

    /// The volume as a gain: the numerator of a fraction over
    /// [`Volume::FULL_SCALE`].
    pub fn as_scale(self) -> (r: u32)
        ensures
            r == self.value(),
    {
        self.0
    }

    /// The volume in percent, as one reads it on a display.
    pub fn to_string(&self) -> (r: String)
        ensures
            r@ == "vol:"@ + hundredths(self.value() as nat) + "%"@,
    {
        let mut r: String = "vol:".to_owned();
        let number: String = to_hundredths(self.0 as u128);
        r.append(number.as_str());
        r.append("%");
        r
    }

    /// Moves the volume by `value` hundredths of a percent, stopping at
    /// silence and at full volume.
    pub fn saturating_add(self, value: i32) -> (r: Self)
        requires
            self.wf(),
        ensures
            r.wf(),
            r.value() == clamped_sum(self.value(), value as int, 0, Self::FULL_SCALE as int),
    {
        let moved: i64 = self.0 as i64 + value as i64;
        if moved < 0 {
            Volume(0)
        } else if moved > Self::FULL_SCALE as i64 {
            Volume(Self::FULL_SCALE)
        } else {
            Volume(moved as u32)
        }
    }
}

impl TryFrom<u32> for Volume {
    type Error = ();

    /// Accepts a whole percentage from 0 to 100 and rejects anything above.
    fn try_from(value: u32) -> (r: Result<Self, ()>)
        ensures
            value <= 100 ==> r.is_ok() && r.unwrap().wf() && r.unwrap().value() == value * 100,
            value > 100 ==> r.is_err(),
    {
        if value <= 100 {
            Ok(Volume(value * Self::PER_PERCENT))
        } else {
            Err(())
        }
    }
}

impl TryFromSpecImpl<u32> for Volume {
    open spec fn obeys_try_from_spec() -> bool {
        true
    }

    closed spec fn try_from_spec(value: u32) -> Result<Self, ()> {
        if value <= 100 {
            Ok(Volume((value * 100) as u32))
        } else {
            Err(())
        }
    }
}

impl From<Volume> for u32 {
    /// The volume as a whole percentage, rounded to the nearest.
    fn from(value: Volume) -> (r: u32)
    {
        ((value.0 as u64 + 50) / 100) as u32
    }
}

impl FromSpecImpl<Volume> for u32 {
    open spec fn obeys_from_spec() -> bool {
        true
    }

    open spec fn from_spec(value: Volume) -> u32 {
        value.percent()
    }
}

/// Tempo in thousandths of a beat per minute.
#[derive(Debug, Clone, Copy, PartialEq, Eq, Structural)]
pub struct Bpm(u32);

impl Bpm {
    /// How many stored units make one beat per minute.
    pub const PER_BPM: u32 = 1_000;

    /// The slowest tempo, 40 beats per minute.
    pub const MIN: u32 = 40_000;

    /// The fastest tempo, 300 beats per minute.
    pub const MAX: u32 = 300_000;

    /// The tempo in thousandths of a beat per minute.
    pub closed spec fn value(self) -> int {
        self.0 as int
    }

    /// A tempo lies between the slowest and the fastest one.
    pub open spec fn wf(self) -> bool {
        Self::MIN <= self.value() <= Self::MAX
    }

    /// The tempo in whole beats per minute, rounded to the nearest.
    pub open spec fn whole(self) -> u32 {
        rounded_div(self.value(), 1000) as u32
    }

    /// The tempo in thousandths of a beat per minute.
    pub fn as_milli_bpm(self) -> (r: u32)
        ensures
            r == self.value(),
    {
        self.0
    }

    /// The tempo in beats per minute, as one reads it on a display.
    pub fn to_string(&self) -> (r: String)
        ensures
            r@ == thousandths(self.value() as nat) + "bpm"@,
    {
        let mut r: String = to_thousandths(self.0 as u128);
        r.append("bpm");
        r
    }

    /// Moves the tempo by `value` thousandths of a beat per minute, stopping
    /// at the slowest and at the fastest tempo.
    pub fn saturating_add(self, value: i32) -> (r: Self)
        requires
            self.wf(),
        ensures
            r.wf(),
            r.value() == clamped_sum(self.value(), value as int, Self::MIN as int, Self::MAX as int),
    {
        let moved: i64 = self.0 as i64 + value as i64;
        if moved < Self::MIN as i64 {
            Bpm(Self::MIN)
        } else if moved > Self::MAX as i64 {
            Bpm(Self::MAX)
        } else {
            Bpm(moved as u32)
        }
    }
}

impl TryFrom<u32> for Bpm {
    type Error = ();

    /// Accepts a whole number of beats per minute from 40 to 300 and rejects
    /// anything outside.
    fn try_from(value: u32) -> (r: Result<Self, ()>)
        ensures
            40 <= value <= 300 ==> r.is_ok() && r.unwrap().wf() && r.unwrap().value() == value
                * 1000,
            value < 40 || value > 300 ==> r.is_err(),
    {
        if 40 <= value && value <= 300 {
            Ok(Bpm(value * Self::PER_BPM))
        } else {
            Err(())
        }
    }
}

impl TryFromSpecImpl<u32> for Bpm {
    open spec fn obeys_try_from_spec() -> bool {
        true
    }

    closed spec fn try_from_spec(value: u32) -> Result<Self, ()> {
        if 40 <= value <= 300 {
            Ok(Bpm((value * 1000) as u32))
        } else {
            Err(())
        }
    }
}

impl From<Bpm> for u32 {
    /// The tempo in whole beats per minute, rounded to the nearest.
    fn from(value: Bpm) -> (r: u32)
    {
        ((value.0 as u64 + 500) / 1000) as u32
    }
}

impl FromSpecImpl<Bpm> for u32 {
    open spec fn obeys_from_spec() -> bool {
        true
    }

    open spec fn from_spec(value: Bpm) -> u32 {
        value.whole()
    }
}

} // verus!
