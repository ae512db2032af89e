//! A push button with debounce and repeat events.

use vstd::prelude::*;

use crate::time::elapsed;
use crate::time::since;

verus! {

/// What the button reports.
#[derive(Debug, Clone, Copy, PartialEq, Eq, Structural)]
pub enum Event {
    Pressed,
    Repeat,
}

/// Where the button stands, with the clock reading at which it got there.
#[derive(Debug, Clone, Copy, PartialEq, Eq, Structural)]
pub enum State {
    Pressed(u64),
    Repeat(u64),
    Up,
}

/// The state and the event that follow from `state` when the contact reads
/// `pressed` at clock reading `now`.
///
/// A button that is up reports a press at once. A button that is down stays
/// down while the contact is closed, and also while it reads open for less
/// than the debounce time. While it is down it reports again after
/// `timeout` and then after every `repeat_timeout`.
pub open spec fn next(
    state: State,
    debounce: u64,
    timeout: u64,
    repeat_timeout: u64,
    pressed: bool,
    now: u64,
) -> (State, Option<Event>) {
    match state {
        State::Up => if pressed {
            (State::Pressed(now), Some(Event::Pressed))
        } else {
            (State::Up, None)
        },
        State::Pressed(prev) => if !pressed && since(prev, now) >= debounce {
            (State::Up, None)
        } else if since(prev, now) > timeout {
            (State::Repeat(now), Some(Event::Pressed))
        } else {
            (State::Pressed(prev), None)
        },
        State::Repeat(prev) => if !pressed && since(prev, now) >= debounce {
            (State::Up, None)
        } else if since(prev, now) > repeat_timeout {
            (State::Repeat(now), Some(Event::Repeat))
        } else {
            (State::Repeat(prev), None)
        },
    }
}

/// A button and its timing, all times in nanoseconds.
pub struct Button {
    debounce: u64,
    timeout: u64,
    repeat_timeout: u64,
    state: State,
}

impl Button {
    /// How long an open contact is taken for a bounce.
    pub closed spec fn debounce(self) -> u64 {
        self.debounce
    }

    /// How long the button is held before it reports again.
    pub closed spec fn timeout(self) -> u64 {
        self.timeout
    }

    /// How long the button is held between two further reports.
    pub closed spec fn repeat_timeout(self) -> u64 {
        self.repeat_timeout
    }

    /// Where the button stands.
    pub closed spec fn state(self) -> State {
        self.state
    }

    /// A button that is up.
    pub fn new(debounce: u64, timeout: u64, repeat_timeout: u64) -> (r: Self)
        ensures
            r.debounce() == debounce,
            r.timeout() == timeout,
            r.repeat_timeout() == repeat_timeout,
            r.state() == State::Up,
    {
        Button { debounce, timeout, repeat_timeout, state: State::Up }
    }

    /// Takes in one reading of the contact and reports the event it causes.
    pub fn update(&mut self, pressed: bool, now: u64) -> (r: Option<Event>)
        ensures
            final(self).debounce() == old(self).debounce(),
            final(self).timeout() == old(self).timeout(),
            final(self).repeat_timeout() == old(self).repeat_timeout(),
            (final(self).state(), r) == next(
                old(self).state(),
                old(self).debounce(),
                old(self).timeout(),
                old(self).repeat_timeout(),
                pressed,
                now,
            ),
    {
        self.update_state(pressed, now)
    }

    fn update_state(&mut self, pressed: bool, now: u64) -> (r: Option<Event>)
        ensures
            final(self).debounce() == old(self).debounce(),
            final(self).timeout() == old(self).timeout(),
            final(self).repeat_timeout() == old(self).repeat_timeout(),
            (final(self).state(), r) == next(
                old(self).state(),
                old(self).debounce(),
                old(self).timeout(),
                old(self).repeat_timeout(),
                pressed,
                now,
            ),
    {
        let (next, event): (State, Option<Event>) = match self.state {
            State::Up => {
                if pressed {
                    (State::Pressed(now), Some(Event::Pressed))
                } else {
                    (State::Up, None)
                }
            },
            State::Pressed(prev) => {
                let delta: u64 = elapsed(prev, now);
                if pressed || delta < self.debounce {
                    if delta > self.timeout {
                        (State::Repeat(now), Some(Event::Pressed))
                    } else {
                        (State::Pressed(prev), None)
                    }
                } else {
                    (State::Up, None)
                }
            },
            State::Repeat(prev) => {
                let delta: u64 = elapsed(prev, now);
                if pressed || delta < self.debounce {
                    if delta > self.repeat_timeout {
                        (State::Repeat(now), Some(Event::Repeat))
                    } else {
                        (State::Repeat(prev), None)
                    }
                } else {
                    (State::Up, None)
                }
            },
        };
        self.state = next;
        event
    }
}

} // verus!
