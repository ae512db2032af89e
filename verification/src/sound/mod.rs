//! Instruments, note events and the beat axis.

use vstd::prelude::*;

pub mod playback;
pub mod score;

verus! {

/// A position or a span on the beat axis, in ticks.
pub type Beat = u128;

/// Ticks in one beat.
///
/// A tempo of one thousandth of a beat per minute moves the beat axis by one
/// tick per nanosecond, so elapsed nanoseconds times tempo is an exact tick
/// count.
pub const TICKS_PER_BEAT: Beat = 60_000_000_000_000;

/// The percussion voices the machine can play.
#[derive(Debug, Clone, Copy, Hash, PartialEq, Eq, Structural)]
pub enum Instrument {
    HiHat,
    Snare,
    BassDrum,
}

impl Instrument {
    /// The position of this instrument in cyclic order.
    pub open spec fn index(self) -> nat {
        match self {
            Instrument::HiHat => 0,
            Instrument::Snare => 1,
            Instrument::BassDrum => 2,
        }
    }

    /// The instrument at `index`, starting over after the last one.
    pub open spec fn of_index(index: int) -> Instrument {
        if index % 3 == 0 {
            Instrument::HiHat
        } else if index % 3 == 1 {
            Instrument::Snare
        } else {
            Instrument::BassDrum
        }
    }

    /// Picks the instrument at `index`, starting over after the last one.
    pub fn from_index(index: usize) -> (r: Self)
        ensures
            r == Self::of_index(index as int),
            r.index() == index % 3,
    {
        let k: usize = index % 3;
        if k == 0 {
            Instrument::HiHat
        } else if k == 1 {
            Instrument::Snare
        } else {
            Instrument::BassDrum
        }
    }

    /// The position of this instrument in cyclic order.
    pub fn to_index(self) -> (r: usize)
        ensures
            r == self.index(),
    {
        match self {
            Instrument::HiHat => 0,
            Instrument::Snare => 1,
            Instrument::BassDrum => 2,
        }
    }
}

/// A request to start one voice of an instrument.
#[derive(Debug, Clone, Copy, Hash, PartialEq, Eq, Structural)]
pub struct NoteEvent {
    pub instrument: Instrument,
}

/// Tells whether a sound file can serve as a sample: its samples have to be
/// whole numbers of 16 bits on a single channel.
pub fn wav_supported(integer: bool, bits_per_sample: u16, channels: u16) -> (r: bool)
    ensures
        r == (integer && bits_per_sample == 16 && channels == 1),
{
    integer && bits_per_sample == 16 && channels == 1
}

} // verus!
