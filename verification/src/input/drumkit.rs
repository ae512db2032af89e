//! Air drums: a jolt along an axis of the accelerometer plays a drum.

use vstd::prelude::*;
use vstd::std_specs::convert::FromSpecImpl;

use crate::input::accelerometer::Accelerometer;
use crate::input::accelerometer::Measurement;
use crate::sound::Instrument;
use crate::time::elapsed;
use crate::time::since;

verus! {

/// A hit along the first, the second or the third axis.
#[derive(Debug, Clone, Copy, PartialEq, Eq, Structural)]
pub enum Event {
    A,
    B,
    C,
}

impl Event {
    /// The hit that belongs to axis `i`.
    pub open spec fn of_axis(i: int) -> Event {
        if i == 0 {
            Event::A
        } else if i == 1 {
            Event::B
        } else {
            Event::C
        }
    }

    /// The drum that a hit plays.
    pub open spec fn instrument(self) -> Instrument {
        match self {
            Event::A => Instrument::BassDrum,
            Event::B => Instrument::HiHat,
            Event::C => Instrument::Snare,
        }
    }
}

impl From<Event> for Instrument {
    fn from(value: Event) -> (r: Instrument) {
        match value {
            Event::A => Instrument::BassDrum,
            Event::B => Instrument::HiHat,
            Event::C => Instrument::Snare,
        }
    }
}

impl FromSpecImpl<Event> for Instrument {
    open spec fn obeys_from_spec() -> bool {
        true
    }

    open spec fn from_spec(value: Event) -> Instrument {
        value.instrument()
    }
}

/// Whether an axis reports a hit: its last hit, if any, lies at least
/// `timeout` back, and the acceleration is above the threshold.
pub open spec fn hits(
    value: u128,
    threshold: u128,
    prev: Option<u64>,
    timeout: u64,
    now: u64,
) -> bool {
    &&& prev.is_none() || since(prev.unwrap(), now) >= timeout
    &&& value > threshold
}

/// The hits of the three axes in their order, given which of them hit.
pub open spec fn events_of(first: bool, second: bool, third: bool) -> Seq<Event> {
    (if first {
        seq![Event::A]
    } else {
        Seq::<Event>::empty()
    }) + (if second {
        seq![Event::B]
    } else {
        Seq::<Event>::empty()
    }) + (if third {
        seq![Event::C]
    } else {
        Seq::<Event>::empty()
    })
}

/// The thresholds of the three axes and the time of the last hit of each.
pub struct Drumkit {
    acc: Accelerometer,
    thresholds: [u128; 3],
    prev: [Option<u64>; 3],
    timeout: u64,
}

impl Drumkit {
    /// The sensor that the kit reads.
    pub closed spec fn accelerometer(self) -> Accelerometer {
        self.acc
    }

    /// The acceleration above which each axis hits, in thousandths of the
    /// standard gravity.
    pub closed spec fn thresholds(self) -> Seq<u128> {
        self.thresholds@
    }

    /// The clock reading of the last hit of each axis.
    pub closed spec fn prev(self) -> Seq<Option<u64>> {
        self.prev@
    }

    /// The nanoseconds for which an axis is deaf after a hit.
    pub closed spec fn timeout(self) -> u64 {
        self.timeout
    }

    /// Whether axis `i` hits on the measurement `vals` at `now`.
    pub open spec fn hits_axis(self, vals: Seq<u128>, i: int, now: u64) -> bool {
        hits(vals[i], self.thresholds()[i], self.prev()[i], self.timeout(), now)
    }

    /// The hits in the measurement `vals` at `now`.
    pub open spec fn events_at(self, vals: Option<Measurement>, now: u64) -> Seq<Event> {
        match vals {
            None => Seq::empty(),
            Some(vals) => events_of(
                self.hits_axis(vals@, 0, now),
                self.hits_axis(vals@, 1, now),
                self.hits_axis(vals@, 2, now),
            ),
        }
    }

    /// The clock reading of the last hit of axis `i` after the measurement
    /// `vals` at `now`.
    pub open spec fn prev_after(self, vals: Option<Measurement>, i: int, now: u64) -> Option<u64> {
        match vals {
            None => self.prev()[i],
            Some(vals) => if self.hits_axis(vals@, i, now) {
                Some(now)
            } else {
                self.prev()[i]
            },
        }
    }

    /// A drum kit that has not been hit yet.
    pub fn new(acc: Accelerometer, thresholds: [u128; 3], timeout: u64) -> (r: Self)
        ensures
            r.accelerometer() == acc,
            r.thresholds() == thresholds@,
            r.prev() == seq![None::<u64>, None::<u64>, None::<u64>],
            r.timeout() == timeout,
    {
        let prev: [Option<u64>; 3] = [None, None, None];
        proof {
            assert(prev@ =~= seq![None::<u64>, None::<u64>, None::<u64>]);
        }
        Drumkit { acc, thresholds, prev, timeout }
    }

    /// The sensor to read.
    pub fn sensor(&self) -> (r: &Accelerometer)
        ensures
            *r == self.accelerometer(),
    {
        &self.acc
    }

    /// The hits in one measurement, or none if the measurement failed.
    ///
    /// An axis hits when its acceleration is above its threshold and its
    /// last hit lies at least the timeout back; it then remembers `now`.
    pub fn get(&mut self, vals: Option<Measurement>, now: u64) -> (r: Vec<Event>)
        ensures
            final(self).accelerometer() == old(self).accelerometer(),
            final(self).thresholds() == old(self).thresholds(),
            final(self).timeout() == old(self).timeout(),
            final(self).prev().len() == 3,
            r@ == old(self).events_at(vals, now),
            forall|i: int|
                0 <= i < 3 ==> #[trigger] final(self).prev()[i] == old(self).prev_after(
                    vals,
                    i,
                    now,
                ),
    {
        let mut events: Vec<Event> = Vec::new();
        let vals: Measurement = match vals {
            None => {
                return events;
            },
            Some(vals) => vals,
        };
        let first: bool = self.hit(&vals, 0, now);
        let second: bool = self.hit(&vals, 1, now);
        let third: bool = self.hit(&vals, 2, now);
        let mut prev: [Option<u64>; 3] = self.prev;
        if first {
            events.push(Event::A);
            prev = [Some(now), prev[1], prev[2]];
        }
        if second {
            events.push(Event::B);
            prev = [prev[0], Some(now), prev[2]];
        }
        if third {
            events.push(Event::C);
            prev = [prev[0], prev[1], Some(now)];
        }
        proof {
            assert(events@ =~= events_of(first, second, third));
        }
        self.prev = prev;
        events
    }

    /// Whether axis `i` hits on the measurement `vals` at `now`.
    fn hit(&self, vals: &Measurement, i: usize, now: u64) -> (r: bool)
        requires
            i < 3,
        ensures
            r == self.hits_axis(vals@, i as int, now),
    {
        let deaf: bool = match self.prev[i] {
            None => false,
            Some(prev) => {
                elapsed(prev, now) < self.timeout
            },
        };
        !deaf && vals[i] > self.thresholds[i]
    }
}

} // verus!
