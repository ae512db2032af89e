//! A quadrature rotary encoder.

use vstd::prelude::*;

verus! {

/// One step of the encoder in one direction.
#[derive(Debug, Clone, Copy, PartialEq, Eq, Structural)]
pub enum Pulse {
    Cw,
    Ccw,
}

impl Pulse {
    /// What the step adds to the position.
    pub open spec fn spec_delta(self) -> i32 {
        match self {
            Pulse::Cw => -1i32,
            Pulse::Ccw => 1i32,
        }
    }

    /// What the step adds to the position.
    #[verifier::when_used_as_spec(spec_delta)]
    pub fn delta(self) -> (r: i32)
        ensures
            r == self.spec_delta(),
    {
        match self {
            Pulse::Cw => -1,
            Pulse::Ccw => 1,
        }
    }
}

/// The place of a pin reading in the cycle that the two pins run through
/// when the shaft turns clockwise: both low, first high, both high, second
/// high.
pub open spec fn phase(pins: (bool, bool)) -> int {
    match pins {
        (false, false) => 0,
        (true, false) => 1,
        (true, true) => 2,
        (false, true) => 3,
    }
}

/// The step that leads from one pin reading to the next: clockwise if the
/// phase moved one forward, counterclockwise if it moved one back, and none
/// if it stayed or jumped by two.
pub open spec fn decoded(last: (bool, bool), pins: (bool, bool)) -> Option<Pulse> {
    if phase(pins) == (phase(last) + 1) % 4 {
        Some(Pulse::Cw)
    } else if phase(pins) == (phase(last) + 3) % 4 {
        Some(Pulse::Ccw)
    } else {
        None
    }
}

/// `x` held between `low` and `high`.
pub open spec fn clamped(x: int, low: int, high: int) -> int {
    if x < low {
        low
    } else if x > high {
        high
    } else {
        x
    }
}

/// Tells the direction of the step between two pin readings.
pub fn decode(last: (bool, bool), pins: (bool, bool)) -> (r: Option<Pulse>)
    ensures
        r == decoded(last, pins),
{
    match (last, pins) {
        ((false, false), (true, false))
        | ((true, false), (true, true))
        | ((true, true), (false, true))
        | ((false, true), (false, false)) => Some(Pulse::Cw),
        ((false, false), (false, true))
        | ((false, true), (true, true))
        | ((true, true), (true, false))
        | ((true, false), (false, false)) => Some(Pulse::Ccw),
        _ => None,
    }
}

/// The position of an encoder, kept between two limits.
pub struct Encoder {
    offset: i32,
    limit_min: i32,
    limit_max: i32,
    last_state: Option<(bool, bool)>,
}

impl Encoder {
    /// The position.
    pub closed spec fn offset(self) -> int {
        self.offset as int
    }

    /// The lowest position.
    pub closed spec fn limit_min(self) -> int {
        self.limit_min as int
    }

    /// The highest position.
    pub closed spec fn limit_max(self) -> int {
        self.limit_max as int
    }

    /// The pin reading from which the next step is told.
    pub closed spec fn last_state(self) -> Option<(bool, bool)> {
        self.last_state
    }

    /// The limits are in order.
    pub open spec fn wf(self) -> bool {
        self.limit_min() <= self.limit_max()
    }

    /// An encoder at position `initial` that has not read its pins yet.
    pub fn new(limit_min: i32, limit_max: i32, initial: i32) -> (r: Self)
        requires
            limit_min <= limit_max,
        ensures
            r.wf(),
            r.offset() == initial,
            r.limit_min() == limit_min,
            r.limit_max() == limit_max,
            r.last_state().is_none(),
    {
        Encoder { offset: initial, limit_min, limit_max, last_state: None }
    }

    /// The position after the steps `sum` were added to it, held between
    /// the limits.
    pub open spec fn moved(self, sum: int) -> int {
        clamped(clamped(self.offset() + sum, i32::MIN as int, i32::MAX as int), self.limit_min(), self.limit_max())
    }

    /// The position after the pin reading `pins` was taken in.
    pub open spec fn offset_after(self, pins: (bool, bool)) -> int {
        match self.last_state() {
            None => self.offset(),
            Some(last) => match decoded(last, pins) {
                Some(pulse) => self.moved(pulse.spec_delta() as int),
                None => self.offset(),
            },
        }
    }

    /// The pin reading that is kept after `pins` was taken in.
    pub open spec fn last_state_after(self, pins: (bool, bool)) -> Option<(bool, bool)> {
        match self.last_state() {
            None => Some(pins),
            Some(last) => if decoded(last, pins).is_some() {
                Some(pins)
            } else {
                self.last_state()
            },
        }
    }

    /// Takes in one reading of the two pins.
    ///
    /// The first reading is only kept. A later one that is one step away
    /// from the kept one moves the position by that step and is kept in its
    /// place; any other reading changes nothing.
    pub fn update(&mut self, a: bool, b: bool)
        requires
            old(self).wf(),
        ensures
            final(self).wf(),
            final(self).limit_min() == old(self).limit_min(),
            final(self).limit_max() == old(self).limit_max(),
            final(self).offset() == old(self).offset_after((a, b)),
            final(self).last_state() == old(self).last_state_after((a, b)),
    {
        let last: (bool, bool) = match self.last_state {
            None => {
                self.last_state = Some((a, b));
                return ;
            },
            Some(last) => last,
        };
        match decode(last, (a, b)) {
            Some(pulse) => {
                self.last_state = Some((a, b));
                self.add(pulse.delta());
            },
            None => {},
        }
    }

    /// Adds `sum` steps to the position and holds it between the limits.
    pub fn add(&mut self, sum: i32)
        requires
            old(self).wf(),
        ensures
            final(self).wf(),
            final(self).limit_min() == old(self).limit_min(),
            final(self).limit_max() == old(self).limit_max(),
            final(self).last_state() == old(self).last_state(),
            final(self).offset() == old(self).moved(sum as int),
    {
        let wide: i64 = self.offset as i64 + sum as i64;
        let held: i32 = if wide < i32::MIN as i64 {
            i32::MIN
        } else if wide > i32::MAX as i64 {
            i32::MAX
        } else {
            wide as i32
        };
        self.offset = if held < self.limit_min {
            self.limit_min
        } else if held > self.limit_max {
            self.limit_max
        } else {
            held
        };
    }

    /// The position of the encoder.
    pub fn get_offset(&mut self) -> (r: i32)
        ensures
            *final(self) == *old(self),
            r == old(self).offset(),
    {
        self.offset
    }
}

} // verus!
