//! A two-axis joystick read through the converter.

use vstd::prelude::*;

use crate::hal::mcp320x::Channel;

verus! {

/// Where the stick points.
#[derive(Debug, Clone, Copy, PartialEq, Eq, Structural)]
pub enum Direction {
    Center,
    Up,
    Down,
    Left,
    Right,
}

/// The raw reading of an axis at rest: half of the range of the converter.
pub const REST: u16 = 2048;

/// How far an axis has to leave its rest before the stick counts as moved:
/// a quarter of the range.
pub const THRESHOLD: u16 = 1024;

/// How far the raw reading `raw` lies from rest.
pub open spec fn deflection(raw: u16) -> int {
    if raw >= REST {
        raw - REST
    } else {
        REST - raw
    }
}

impl Direction {
    /// The direction of the raw readings `x` and `y`.
    ///
    /// The stick is centred while both axes stay within the threshold.
    /// Else the axis that is further from rest decides, the second one when
    /// both are as far: a high first axis is left, a high second axis is up.
    pub open spec fn of(x: u16, y: u16) -> Direction {
        if deflection(x) < THRESHOLD && deflection(y) < THRESHOLD {
            Direction::Center
        } else if deflection(x) > deflection(y) {
            if x > REST {
                Direction::Left
            } else {
                Direction::Right
            }
        } else if y > REST {
            Direction::Up
        } else {
            Direction::Down
        }
    }

    /// Tells the direction from the raw readings of the two axes.
    pub fn new(x: u16, y: u16) -> (r: Self)
        ensures
            r == Self::of(x, y),
    {
        let dx: u16 = if x >= REST {
            x - REST
        } else {
            REST - x
        };
        let dy: u16 = if y >= REST {
            y - REST
        } else {
            REST - y
        };
        if dx < THRESHOLD && dy < THRESHOLD {
            Direction::Center
        } else if dx > dy {
            if x > REST {
                Direction::Left
            } else {
                Direction::Right
            }
        } else if y > REST {
            Direction::Up
        } else {
            Direction::Down
        }
    }
}

/// The inputs of the converter that the two axes are wired to.
pub struct Joystick {
    x_axis: Channel,
    y_axis: Channel,
    sample_count: usize,
}

impl Joystick {
    /// The input of the first axis.
    pub closed spec fn x_axis(self) -> Channel {
        self.x_axis
    }

    /// The input of the second axis.
    pub closed spec fn y_axis(self) -> Channel {
        self.y_axis
    }

    /// How many readings go into the median of one axis.
    pub closed spec fn sample_count(self) -> int {
        self.sample_count as int
    }

    /// A joystick on the two inputs, read five times per axis.
    pub fn new(x_axis: Channel, y_axis: Channel) -> (r: Self)
        ensures
            r.x_axis() == x_axis,
            r.y_axis() == y_axis,
            r.sample_count() == 5,
    {
        Joystick { x_axis, y_axis, sample_count: 5 }
    }

    /// The inputs to read, first axis first.
    pub fn channels(&self) -> (r: [Channel; 2])
        ensures
            r[0] == self.x_axis(),
            r[1] == self.y_axis(),
    {
        [self.x_axis, self.y_axis]
    }

    /// How many readings go into the median of one axis.
    pub fn samples_per_axis(&self) -> (r: usize)
        ensures
            r == self.sample_count(),
    {
        self.sample_count
    }

    /// The direction of the stick, given the median raw reading of each
    /// axis, or nothing if either reading failed.
    pub fn get(&self, x: Option<u16>, y: Option<u16>) -> (r: Option<Direction>)
        ensures
            r == match (x, y) {
                (Some(x), Some(y)) => Some(Direction::of(x, y)),
                _ => None::<Direction>,
            },
    {
        match (x, y) {
            (Some(x), Some(y)) => Some(Direction::new(x, y)),
            _ => None,
        }
    }
}

} // verus!
