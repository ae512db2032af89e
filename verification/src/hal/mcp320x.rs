//! The MCP320X line of analog-to-digital converters: the packets that go
//! over the bus and the readings that come back.

use vstd::prelude::*;

verus! {

/// The inputs of the converter.
#[derive(Debug, Clone, Copy, PartialEq, Eq, Structural)]
pub enum Channel {
    CH0,
    CH1,
    CH2,
    CH3,
    CH4,
    CH5,
    CH6,
    CH7,
}

impl Channel {
    /// The number of the input, from 0 to 7.
    pub open spec fn spec_number(self) -> u8 {
        match self {
            Channel::CH0 => 0u8,
            Channel::CH1 => 1u8,
            Channel::CH2 => 2u8,
            Channel::CH3 => 3u8,
            Channel::CH4 => 4u8,
            Channel::CH5 => 5u8,
            Channel::CH6 => 6u8,
            Channel::CH7 => 7u8,
        }
    }

    /// The number of the input, from 0 to 7.
    #[verifier::when_used_as_spec(spec_number)]
    pub fn number(self) -> (r: u8)
        ensures
            r == self.spec_number(),
            r < 8,
    {
        match self {
            Channel::CH0 => 0,
            Channel::CH1 => 1,
            Channel::CH2 => 2,
            Channel::CH3 => 3,
            Channel::CH4 => 4,
            Channel::CH5 => 5,
            Channel::CH6 => 6,
            Channel::CH7 => 7,
        }
    }

    /// The name of the input, followed by a line break.
    pub fn to_string(self) -> (r: String)
        ensures
            r@ == match self {
                Channel::CH0 => "CH0\n"@,
                Channel::CH1 => "CH1\n"@,
                Channel::CH2 => "CH2\n"@,
                Channel::CH3 => "CH3\n"@,
                Channel::CH4 => "CH4\n"@,
                Channel::CH5 => "CH5\n"@,
                Channel::CH6 => "CH6\n"@,
                Channel::CH7 => "CH7\n"@,
            },
    {
        match self {
            Channel::CH0 => "CH0\n".to_owned(),
            Channel::CH1 => "CH1\n".to_owned(),
            Channel::CH2 => "CH2\n".to_owned(),
            Channel::CH3 => "CH3\n".to_owned(),
            Channel::CH4 => "CH4\n".to_owned(),
            Channel::CH5 => "CH5\n".to_owned(),
            Channel::CH6 => "CH6\n".to_owned(),
            Channel::CH7 => "CH7\n".to_owned(),
        }
    }
}

/// How many of `samples` lie below `bound`.
pub open spec fn count_below(samples: Seq<u16>, bound: int) -> int
    decreases samples.len(),
{
    if samples.len() == 0 {
        0
    } else {
        count_below(samples.drop_last(), bound) + if samples.last() < bound {
            1int
        } else {
            0int
        }
    }
}

/// Whether `value` is what stands at place `samples.len() / 2` once
/// `samples` are put in order: it is one of them, at most that many lie
/// below it, and more than that many do not lie above it.
pub open spec fn is_median(samples: Seq<u16>, value: u16) -> bool {
    &&& samples.contains(value)
    &&& count_below(samples, value as int) <= samples.len() / 2
    &&& samples.len() / 2 < count_below(samples, value + 1)
}

/// Counting is monotone in the bound and never exceeds the length.
pub proof fn lemma_count_below_bounds(samples: Seq<u16>, low: int, high: int)
    requires
        low <= high,
    ensures
        0 <= count_below(samples, low) <= count_below(samples, high) <= samples.len(),
    decreases samples.len(),
{
    if samples.len() > 0 {
        lemma_count_below_bounds(samples.drop_last(), low, high);
    }
}

/// No two different values are both the median of the same samples.
pub proof fn lemma_median_unique(samples: Seq<u16>, a: u16, b: u16)
    requires
        is_median(samples, a),
        is_median(samples, b),
    ensures
        a == b,
{
    if a < b {
        lemma_count_below_bounds(samples, a + 1, b as int);
    } else if b < a {
        lemma_count_below_bounds(samples, b + 1, a as int);
    }
}

/// A converter on a bus, with its reference voltage in microvolts.
pub struct MCP320X {
    vref: u32,
}

impl MCP320X {
    /// One more than the largest raw reading.
    pub const MAX_RAW: u16 = 4096;

    /// The reference voltage in microvolts.
    pub closed spec fn vref(self) -> int {
        self.vref as int
    }

    /// The voltage in microvolts that the raw reading `raw` stands for,
    /// rounded down.
    pub open spec fn voltage_of(self, raw: int) -> int {
        raw * self.vref() / 4096
    }

    /// A converter with the reference voltage `vref` microvolts.
    pub fn new(vref: u32) -> (r: Self)
        ensures
            r.vref() == vref,
    {
        MCP320X { vref }
    }

    /// The raw reading in the answer `rx` of the converter.
    pub fn get_single(rx: [u8; 3]) -> (r: u16)
        ensures
            r == (rx[1] % 16) * 256 + rx[2],
            r < Self::MAX_RAW,
    {
        Self::parse_rx(rx)
    }

    /// The median of a number of raw readings.
    pub fn get_median(samples: &Vec<u16>) -> (r: u16)
        requires
            samples@.len() > 0,
        ensures
            is_median(samples@, r),
    {
        let n: usize = samples.len();
        let mid: usize = n / 2;
        let mut i: usize = 0;
        while i < n
            invariant
                i <= n,
                n == samples@.len(),
                mid == n / 2,
                forall|k: int| 0 <= k < i ==> !is_median(samples@, #[trigger] samples@[k]),
            decreases n - i,
        {
            let value: u16 = samples[i];
            let below: usize = Self::count(samples, value as u32);
            let upto: usize = Self::count(samples, value as u32 + 1);
            if below <= mid && mid < upto {
                assert(samples@.contains(samples@[i as int]));
                return value;
            }
            i = i + 1;
        }
        proof {
            lemma_median_exists(samples@);
            let m = choose|m: u16| is_median(samples@, m);
            let k = choose|k: int| 0 <= k < samples@.len() && samples@[k] == m;
            assert(!is_median(samples@, samples@[k]));
        }
        samples[0]
    }

    /// How many of `samples` lie below `bound`.
    fn count(samples: &Vec<u16>, bound: u32) -> (r: usize)
        ensures
            r == count_below(samples@, bound as int),
    {
        let n: usize = samples.len();
        let mut r: usize = 0;
        let mut i: usize = 0;
        proof {
            assert(samples@.take(0) =~= Seq::<u16>::empty());
        }
        while i < n
            invariant
                i <= n,
                n == samples@.len(),
                r <= i,
                r == count_below(samples@.take(i as int), bound as int),
            decreases n - i,
        {
            proof {
                assert(samples@.take(i + 1).drop_last() =~= samples@.take(i as int));
                assert(samples@.take(i + 1).last() == samples@[i as int]);
            }
            if (samples[i] as u32) < bound {
                r = r + 1;
            }
            i = i + 1;
        }
        proof {
            assert(samples@.take(n as int) =~= samples@);
        }
        r
    }

    /// The voltage in microvolts in the answer `rx` of the converter.
    pub fn get_voltage_single(&self, rx: [u8; 3]) -> (r: u64)
        ensures
            r == self.voltage_of((rx[1] % 16) * 256 + rx[2]),
    {
        self.to_voltage(Self::get_single(rx))
    }

    /// The voltage in microvolts of the median of a number of raw readings.
    pub fn get_voltage_median(&self, samples: &Vec<u16>) -> (r: u64)
        requires
            samples@.len() > 0,
        ensures
            exists|m: u16| is_median(samples@, m) && r == self.voltage_of(m as int),
    {
        let m: u16 = Self::get_median(samples);
        self.to_voltage(m)
    }

    /// The voltage in microvolts that a raw reading stands for.
    pub fn to_voltage(&self, raw: u16) -> (r: u64)
        ensures
            r == self.voltage_of(raw as int),
    {
        let vref: u64 = self.vref as u64;
        assert(raw * vref <= 65535 * 0xffff_ffff) by (nonlinear_arith)
            requires
                0 <= raw <= 65535,
                0 <= vref <= 0xffff_ffff,
        ;
        let product: u64 = raw as u64 * vref;
        product / 4096
    }

    /// The packet that asks for one single-ended reading of `channel`: the
    /// start bit, the mode bit and the highest bit of the channel number in
    /// the first byte, its two lower bits at the top of the second.
    pub fn get_tx(channel: Channel) -> (tx: [u8; 3])
        ensures
            tx[0] == 6 + channel.spec_number() / 4,
            tx[1] == (channel.spec_number() % 4) * 64,
            tx[2] == 0,
    {
        let number: u8 = channel.number();
        let first: u8 = (0x1 << 2) | (0x1 << 1) | (number >> 2);
        let second: u8 = number << 6;
        assert(first == 6 + number / 4) by (bit_vector)
            requires
                first == (0x1u8 << 2) | (0x1u8 << 1) | (number >> 2),
                number < 8,
        ;
        assert(second == (number % 4) * 64) by (bit_vector)
            requires
                second == number << 6,
                number < 8,
        ;
        [first, second, 0x0]
    }

    /// The raw reading in an answer: the low four bits of the second byte
    /// and the whole third.
    pub fn parse_rx(rx: [u8; 3]) -> (r: u16)
        ensures
            r == (rx[1] % 16) * 256 + rx[2],
            r < Self::MAX_RAW,
    {
        let high: u16 = (rx[1] & 0x0F) as u16;
        let low: u16 = rx[2] as u16;
        let b: u8 = rx[1];
        assert(b & 0x0F == b % 16) by (bit_vector);
        let r: u16 = (high << 8) | low;
        assert(r == high * 256 + low) by (bit_vector)
            requires
                r == (high << 8) | low,
                high < 16,
                low < 256,
        ;
        r
    }
}

/// Every sample list that is not empty has a median.
pub proof fn lemma_median_exists(samples: Seq<u16>)
    requires
        samples.len() > 0,
    ensures
        exists|m: u16| is_median(samples, m),
{
    let mid = samples.len() / 2;
    lemma_count_none(samples);
    lemma_crossing(samples, mid as int, 0);
    let m = choose|m: u16|
        samples.contains(m) && count_below(samples, m as int) <= mid < count_below(
            samples,
            m + 1,
        );
    assert(is_median(samples, m));
}

/// No sample lies below zero.
proof fn lemma_count_none(samples: Seq<u16>)
    ensures
        count_below(samples, 0) == 0,
    decreases samples.len(),
{
    if samples.len() > 0 {
        lemma_count_none(samples.drop_last());
    }
}

/// Some sample is the first bound at which the count passes `mid`.
proof fn lemma_crossing(samples: Seq<u16>, mid: int, bound: int)
    requires
        0 <= mid < samples.len(),
        0 <= bound <= 65536,
        count_below(samples, bound) <= mid,
    ensures
        exists|m: u16|
            samples.contains(m) && count_below(samples, m as int) <= mid < count_below(
                samples,
                m + 1,
            ),
    decreases 65536 - bound,
{
    if bound == 65536 {
        lemma_count_all(samples);
    } else {
        if count_below(samples, bound + 1) > mid {
            lemma_count_step(samples, bound);
            let m = bound as u16;
            assert(samples.contains(m));
        } else {
            lemma_crossing(samples, mid, bound + 1);
        }
    }
}

/// Every sample lies below 65536.
proof fn lemma_count_all(samples: Seq<u16>)
    ensures
        count_below(samples, 65536) == samples.len(),
    decreases samples.len(),
{
    if samples.len() > 0 {
        lemma_count_all(samples.drop_last());
    }
}

/// The count grows from one bound to the next only if a sample equals the
/// first.
proof fn lemma_count_step(samples: Seq<u16>, bound: int)
    requires
        count_below(samples, bound) < count_below(samples, bound + 1),
    ensures
        exists|k: int| 0 <= k < samples.len() && samples[k] == bound,
    decreases samples.len(),
{
    if samples.len() > 0 {
        if samples.last() == bound {
            assert(samples[samples.len() - 1] == bound);
        } else {
            lemma_count_step(samples.drop_last(), bound);
            let k = choose|k: int|
                0 <= k < samples.drop_last().len() && samples.drop_last()[k] == bound;
            assert(samples[k] == bound);
        }
    }
}

} // verus!
