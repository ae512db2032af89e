//! A pulse-width modulated output of the kernel, driven through the files
//! of its directory.
//!
//! The functions here decide what to write and keep track of what was
//! written; the caller writes each value to the file of its attribute, in
//! the order given.

use vstd::prelude::*;
use vstd::string::StringExecFns;

use crate::text::decimal;
use crate::text::to_decimal;

verus! {

/// A frequency in hertz.
#[derive(Debug, Clone, Copy, PartialEq, Eq, Structural)]
pub struct Frequency(u64);

impl Frequency {
    /// The frequency in hertz.
    pub closed spec fn value(self) -> u64 {
        self.0
    }

    /// The frequency of `value` hertz.
    pub fn hz(value: u64) -> (r: Self)
        ensures
            r.value() == value,
    {
        Frequency(value)
    }

    /// The frequency in hertz.
    pub fn as_hz(self) -> (r: u64)
        ensures
            r == self.value(),
    {
        self.0
    }

    /// The frequency in hertz, followed by its unit.
    pub fn to_string(self) -> (r: String)
        ensures
            r@ == decimal(self.value() as nat) + "Hz"@,
    {
        let mut r: String = to_decimal(self.0 as u128);
        r.append("Hz");
        r
    }
}

/// The files of the directory of an output.
#[derive(Debug, Clone, Copy, PartialEq, Eq, Structural)]
pub enum Attribute {
    /// The length of one cycle in nanoseconds.
    Period,
    /// The length of the high part of one cycle in nanoseconds.
    DutyCycle,
    /// One while the output runs, zero while it rests.
    Enable,
}

/// One value to write to one file.
#[derive(Debug, Clone, Copy, PartialEq, Eq, Structural)]
pub struct Write {
    pub attribute: Attribute,
    pub value: u64,
}

/// The nanoseconds in a second.
pub const NANOS_PER_SECOND: u64 = 1_000_000_000;

/// The writes that switch the output on or off, given whether it is on:
/// none if it is as wanted.
pub open spec fn enable_writes(is_enabled: bool, enable: bool) -> Seq<Write> {
    if is_enabled == enable {
        Seq::empty()
    } else {
        seq![Write { attribute: Attribute::Enable, value: if enable {
            1u64
        } else {
            0u64
        } }]
    }
}

/// The writes that set a frequency other than zero: the duty cycle and the
/// period pass through values that fit whatever was set before, then the
/// period becomes one cycle and the duty cycle half of it.
pub open spec fn frequency_writes(frequency: u64) -> Seq<Write> {
    seq![
        Write { attribute: Attribute::DutyCycle, value: 250_000 },
        Write { attribute: Attribute::Period, value: 500_000 },
        Write { attribute: Attribute::Period, value: NANOS_PER_SECOND / frequency },
        Write { attribute: Attribute::DutyCycle, value: NANOS_PER_SECOND / frequency / 2 },
    ]
}

/// An output that blinks at a frequency.
pub struct Pwm {
    path: String,
    previous: Option<Frequency>,
    is_enabled: bool,
}

impl Pwm {
    /// The directory of the output.
    pub closed spec fn path(self) -> Seq<char> {
        self.path@
    }

    /// The frequency that was set last.
    pub closed spec fn previous(self) -> Option<Frequency> {
        self.previous
    }

    /// Whether the output was switched on.
    pub closed spec fn is_enabled(self) -> bool {
        self.is_enabled
    }

    /// An output of which nothing is known yet, taken to be off.
    pub fn new(path: &str) -> (r: Self)
        ensures
            r.path() == path@,
            r.previous().is_none(),
            !r.is_enabled(),
    {
        Pwm { path: path.to_owned(), previous: None, is_enabled: false }
    }

    /// The directory of the output.
    pub fn directory(&self) -> (r: &str)
        ensures
            r@ == self.path(),
    {
        self.path.as_str()
    }

    /// The writes that bring the output to a known state: a period of a
    /// millisecond, half of it high, and off.
    pub fn init(&mut self) -> (writes: Vec<Write>)
        ensures
            *final(self) == *old(self),
            writes@ == seq![
                Write { attribute: Attribute::Period, value: 1_000_000 },
                Write { attribute: Attribute::DutyCycle, value: 500_000 },
                Write { attribute: Attribute::Enable, value: 0 },
            ],
    {
        let mut writes: Vec<Write> = Vec::new();
        writes.push(Write { attribute: Attribute::Period, value: 1_000_000 });
        writes.push(Write { attribute: Attribute::DutyCycle, value: 500_000 });
        writes.push(Write { attribute: Attribute::Enable, value: 0 });
        assert(writes@ =~= seq![
            Write { attribute: Attribute::Period, value: 1_000_000 },
            Write { attribute: Attribute::DutyCycle, value: 500_000 },
            Write { attribute: Attribute::Enable, value: 0 },
        ]);
        writes
    }

    /// The writes that make the output blink at `frequency`.
    ///
    /// The frequency zero switches the output off. Another one that was not
    /// set last is set and the output switched on. The one that was set
    /// last needs nothing.
    pub fn set(&mut self, frequency: Frequency) -> (writes: Vec<Write>)
        ensures
            final(self).path() == old(self).path(),
            frequency.value() == 0 ==> {
                &&& writes@ == enable_writes(old(self).is_enabled(), false)
                &&& !final(self).is_enabled()
                &&& final(self).previous() == old(self).previous()
            },
            frequency.value() != 0 && old(self).previous() != Some(frequency) ==> {
                &&& writes@ == frequency_writes(frequency.value()) + enable_writes(
                    old(self).is_enabled(),
                    true,
                )
                &&& final(self).is_enabled()
                &&& final(self).previous() == Some(frequency)
            },
            frequency.value() != 0 && old(self).previous() == Some(frequency) ==> {
                &&& writes@ == Seq::<Write>::empty()
                &&& final(self).is_enabled() == old(self).is_enabled()
                &&& final(self).previous() == old(self).previous()
            },
    {
        if frequency.as_hz() == 0 {
            return self.set_enable(false);
        }
        let same: bool = match self.previous {
            None => false,
            Some(prev) => prev.as_hz() == frequency.as_hz(),
        };
        let mut writes: Vec<Write> = Vec::new();
        if !same {
            let period: u64 = NANOS_PER_SECOND / frequency.as_hz();
            let duty: u64 = period / 2;
            writes.push(Write { attribute: Attribute::DutyCycle, value: 250_000 });
            writes.push(Write { attribute: Attribute::Period, value: 500_000 });
            writes.push(Write { attribute: Attribute::Period, value: period });
            writes.push(Write { attribute: Attribute::DutyCycle, value: duty });
            let mut enable: Vec<Write> = self.set_enable(true);
            let ghost before = writes@;
            let ghost tail = enable@;
            writes.append(&mut enable);
            assert(before =~= frequency_writes(frequency.value()));
            assert(writes@ =~= frequency_writes(frequency.value()) + tail);
            self.previous = Some(frequency);
        }
        writes
    }

    /// The writes that switch the output on or off: none if it is as wanted.
    pub fn set_enable(&mut self, enable: bool) -> (writes: Vec<Write>)
        ensures
            final(self).path() == old(self).path(),
            final(self).previous() == old(self).previous(),
            final(self).is_enabled() == enable,
            writes@ == enable_writes(old(self).is_enabled(), enable),
    {
        let mut writes: Vec<Write> = Vec::new();
        if self.is_enabled == enable {
            return writes;
        }
        self.is_enabled = enable;
        writes.push(Write { attribute: Attribute::Enable, value: if enable {
            1
        } else {
            0
        } });
        assert(writes@ =~= enable_writes(!enable, enable));
        writes
    }
}

/// The writes that set a period and a duty cycle and switch the output on
/// or off: the duty cycle is cleared first, so that it never exceeds the
/// period on the way.
pub open spec fn full_writes(period: u64, duty_cycle: u64, enable: bool) -> Seq<Write> {
    seq![
        Write { attribute: Attribute::DutyCycle, value: 0 },
        Write { attribute: Attribute::Period, value: period },
        Write { attribute: Attribute::DutyCycle, value: duty_cycle },
        Write { attribute: Attribute::Enable, value: if enable {
            1u64
        } else {
            0u64
        } },
    ]
}

/// An output with a frequency and a duty cycle, of which all that was
/// written is remembered.
pub struct PWM {
    path: String,
    period: Option<u64>,
    duty_cycle: Option<u64>,
    enable: Option<bool>,
}

impl PWM {
    /// The directory of the output.
    pub closed spec fn path(self) -> Seq<char> {
        self.path@
    }

    /// The period that was written last, in nanoseconds.
    pub closed spec fn period(self) -> Option<u64> {
        self.period
    }

    /// The duty cycle that was written last, in nanoseconds.
    pub closed spec fn duty_cycle(self) -> Option<u64> {
        self.duty_cycle
    }

    /// Whether the output was switched on or off last.
    pub closed spec fn enable(self) -> Option<bool> {
        self.enable
    }

    /// An output of which nothing is known yet.
    pub fn new(path: &str) -> (r: Self)
        ensures
            r.path() == path@,
            r.period().is_none(),
            r.duty_cycle().is_none(),
            r.enable().is_none(),
    {
        PWM { path: path.to_owned(), period: None, duty_cycle: None, enable: None }
    }

    /// The directory of the output.
    pub fn directory(&self) -> (r: &str)
        ensures
            r@ == self.path(),
    {
        self.path.as_str()
    }

    /// The writes that make the output run at `frequency`, which is not
    /// zero, high for `duty_cycle` billionths of each cycle, and on or off
    /// as `enable` says: none if all three were written last.
    pub fn set(&mut self, frequency: Frequency, duty_cycle: u64, enable: bool) -> (writes: Vec<
        Write,
    >)
        requires
            frequency.value() != 0,
        ensures
            final(self).path() == old(self).path(),
            ({
                let period = NANOS_PER_SECOND / frequency.value();
                let duty = duty_cycle / frequency.value();
                if old(self).period() == Some(period) && old(self).duty_cycle() == Some(duty)
                    && old(self).enable() == Some(enable) {
                    &&& writes@ == Seq::<Write>::empty()
                    &&& final(self).period() == old(self).period()
                    &&& final(self).duty_cycle() == old(self).duty_cycle()
                    &&& final(self).enable() == old(self).enable()
                } else {
                    &&& writes@ == full_writes(period, duty, enable)
                    &&& final(self).period() == Some(period)
                    &&& final(self).duty_cycle() == Some(duty)
                    &&& final(self).enable() == Some(enable)
                }
            }),
    {
        let period: u64 = NANOS_PER_SECOND / frequency.as_hz();
        let duty: u64 = duty_cycle / frequency.as_hz();
        let mut writes: Vec<Write> = Vec::new();
        let same_period: bool = match self.period {
            Some(current) => current == period,
            None => false,
        };
        let same_duty: bool = match self.duty_cycle {
            Some(current) => current == duty,
            None => false,
        };
        let same_enable: bool = match self.enable {
            Some(current) => current == enable,
            None => false,
        };
        if same_period && same_duty && same_enable {
            return writes;
        }
        writes.push(Write { attribute: Attribute::DutyCycle, value: 0 });
        writes.push(Write { attribute: Attribute::Period, value: period });
        writes.push(Write { attribute: Attribute::DutyCycle, value: duty });
        writes.push(Write { attribute: Attribute::Enable, value: if enable {
            1
        } else {
            0
        } });
        assert(writes@ =~= full_writes(period, duty, enable));
        self.duty_cycle = Some(duty);
        self.period = Some(period);
        self.enable = Some(enable);
        writes
    }

    /// The writes that switch the output on or off: none if that was
    /// written last.
    pub fn set_enable(&mut self, enable: bool) -> (writes: Vec<Write>)
        ensures
            final(self).path() == old(self).path(),
            final(self).period() == old(self).period(),
            final(self).duty_cycle() == old(self).duty_cycle(),
            final(self).enable() == Some(enable),
            writes@ == if old(self).enable() == Some(enable) {
                Seq::<Write>::empty()
            } else {
                seq![Write { attribute: Attribute::Enable, value: if enable {
                    1u64
                } else {
                    0u64
                } }]
            },
    {
        let mut writes: Vec<Write> = Vec::new();
        let same: bool = match self.enable {
            Some(current) => current == enable,
            None => false,
        };
        if same {
            return writes;
        }
        self.enable = Some(enable);
        writes.push(Write { attribute: Attribute::Enable, value: if enable {
            1
        } else {
            0
        } });
        assert(writes@ =~= seq![Write { attribute: Attribute::Enable, value: if enable {
            1u64
        } else {
            0u64
        } }]);
        writes
    }
}

} // verus!
