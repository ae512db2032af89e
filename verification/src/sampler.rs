//! A window of timed samples of a voltage, with figures on the signal and
//! on the regularity of the sampling.

use vstd::prelude::*;
use vstd::std_specs::convert::FromSpecImpl;

use vstd::string::StringExecFns;

use crate::text::decimal;
use crate::text::pad_left;
use crate::text::pad_right;
use crate::text::padded_left;
use crate::text::padded_right;
use crate::text::three_places;
use crate::text::to_decimal;
use crate::text::to_three_places;
use crate::time::elapsed;
use crate::time::since;

verus! {

/// A voltage in microvolts, taken at a clock reading.
#[derive(Debug, Clone, Copy, PartialEq, Eq, Structural)]
pub struct Sample {
    pub voltage: u64,
    pub time: u64,
}

impl Sample {
    /// The sample of `voltage` microvolts taken at `now`.
    pub fn new(voltage: u64, now: u64) -> (r: Self)
        ensures
            r == (Sample { voltage, time: now }),
    {
        Sample { voltage, time: now }
    }
}

/// Figures on the time between samples, in nanoseconds.
#[derive(Debug, Clone, Copy, PartialEq, Eq, Structural)]
pub struct JitterInfo {
    pub max: u64,
    pub min: u64,
    pub avg: u64,
    pub num_samples: usize,
}

/// The smallest of `gaps`, which are not empty.
pub open spec fn min_of(gaps: Seq<u64>) -> u64
    decreases gaps.len(),
{
    if gaps.len() <= 1 {
        gaps[0]
    } else if gaps.last() < min_of(gaps.drop_last()) {
        gaps.last()
    } else {
        min_of(gaps.drop_last())
    }
}

/// The largest of `gaps`, which are not empty.
pub open spec fn max_of(gaps: Seq<u64>) -> u64
    decreases gaps.len(),
{
    if gaps.len() <= 1 {
        gaps[0]
    } else if gaps.last() > max_of(gaps.drop_last()) {
        gaps.last()
    } else {
        max_of(gaps.drop_last())
    }
}

/// The sum of `gaps`.
pub open spec fn sum_of(gaps: Seq<u64>) -> int
    decreases gaps.len(),
{
    if gaps.len() == 0 {
        0
    } else {
        sum_of(gaps.drop_last()) + gaps.last()
    }
}

/// The smallest and the largest gap are gaps, no gap lies outside them, and
/// the sum is at most as many times the largest.
pub proof fn lemma_extremes(gaps: Seq<u64>)
    requires
        gaps.len() > 0,
    ensures
        gaps.contains(min_of(gaps)),
        gaps.contains(max_of(gaps)),
        forall|i: int| 0 <= i < gaps.len() ==> min_of(gaps) <= #[trigger] gaps[i] <= max_of(gaps),
        0 <= sum_of(gaps) <= gaps.len() * u64::MAX,
    decreases gaps.len(),
{
    if gaps.len() == 1 {
        assert(gaps[0] == gaps.last());
        assert(gaps.drop_last().len() == 0);
        assert(sum_of(gaps.drop_last()) == 0);
    } else {
        let rest = gaps.drop_last();
        lemma_extremes(rest);
        let a = choose|a: int| 0 <= a < rest.len() && rest[a] == min_of(rest);
        let b = choose|b: int| 0 <= b < rest.len() && rest[b] == max_of(rest);
        assert(gaps[a] == rest[a]);
        assert(gaps[b] == rest[b]);
        assert(gaps[gaps.len() - 1] == gaps.last());
        assert forall|i: int| 0 <= i < gaps.len() implies min_of(gaps) <= #[trigger] gaps[i]
            <= max_of(gaps) by {
            if i < rest.len() {
                assert(rest[i] == gaps[i]);
            }
        }
        assert(gaps.len() * u64::MAX == rest.len() * u64::MAX + u64::MAX) by (nonlinear_arith)
            requires
                gaps.len() == rest.len() + 1,
        ;
    }
}

/// The figures on a number of gaps as they are gathered.
#[derive(Debug, Clone, Copy, PartialEq, Eq, Structural)]
pub struct HistoryJitterStats {
    pub min: u64,
    pub max: u64,
    pub total: u128,
    pub count: usize,
}

impl HistoryJitterStats {
    /// Whether these are the figures on `gaps`.
    pub open spec fn describes(self, gaps: Seq<u64>) -> bool {
        &&& gaps.len() > 0
        &&& self.min == min_of(gaps)
        &&& self.max == max_of(gaps)
        &&& self.total == sum_of(gaps)
        &&& self.count == gaps.len()
    }

    /// The figures on one gap.
    pub fn new(delta: u64) -> (r: Self)
        ensures
            r == (HistoryJitterStats { min: delta, max: delta, total: delta as u128, count: 1 }),
            r.describes(seq![delta]),
    {
        proof {
            assert(seq![delta].drop_last() =~= Seq::<u64>::empty());
            assert(sum_of(Seq::<u64>::empty()) == 0);
            assert(seq![delta].last() == delta);
        }
        HistoryJitterStats { min: delta, max: delta, total: delta as u128, count: 1 }
    }

    /// The figures on a number of gaps, or nothing if there is none.
    pub fn try_from_iter(deltas: &Vec<u64>) -> (r: Option<Self>)
        ensures
            r.is_some() <==> deltas@.len() > 0,
            r.is_some() ==> r.unwrap().describes(deltas@),
    {
        let n: usize = deltas.len();
        if n == 0 {
            return None;
        }
        let mut stats = HistoryJitterStats::new(deltas[0]);
        let mut i: usize = 1;
        proof {
            assert(deltas@.take(1) =~= seq![deltas@[0]]);
        }
        while i < n
            invariant
                1 <= i <= n,
                n == deltas@.len(),
                stats.describes(deltas@.take(i as int)),
            decreases n - i,
        {
            proof {
                assert(deltas@.take(i + 1) =~= deltas@.take(i as int).push(deltas@[i as int]));
                stats.lemma_updated(deltas@.take(i as int), deltas@[i as int]);
            }
            stats = stats.update(deltas[i]);
            i = i + 1;
        }
        proof {
            assert(deltas@.take(n as int) =~= deltas@);
        }
        Some(stats)
    }

    /// The figures with one more gap taken in.
    pub open spec fn updated(self, delta: u64) -> HistoryJitterStats {
        HistoryJitterStats {
            min: if delta < self.min {
                delta
            } else {
                self.min
            },
            max: if delta > self.max {
                delta
            } else {
                self.max
            },
            total: (self.total + delta) as u128,
            count: (self.count + 1) as usize,
        }
    }

    /// Whether the sum and the count have room for one more gap.
    pub open spec fn has_room(self, delta: u64) -> bool {
        self.total + delta <= u128::MAX && self.count < usize::MAX
    }

    /// Taking in one more gap gives the figures on the gaps with that one
    /// after them.
    pub proof fn lemma_updated(self, gaps: Seq<u64>, delta: u64)
        requires
            self.describes(gaps),
            gaps.len() < usize::MAX,
        ensures
            self.has_room(delta),
            self.updated(delta).describes(gaps.push(delta)),
    {
        lemma_extremes(gaps);
        assert(gaps.push(delta).drop_last() =~= gaps);
        assert(gaps.push(delta).last() == delta);
        assert(gaps.len() * u64::MAX <= usize::MAX * u64::MAX) by (nonlinear_arith)
            requires
                gaps.len() <= usize::MAX,
        ;
    }

    /// Takes in one more gap.
    pub fn update(self, delta: u64) -> (r: Self)
        requires
            self.has_room(delta),
        ensures
            r == self.updated(delta),
    {
        let min: u64 = if delta < self.min {
            delta
        } else {
            self.min
        };
        let max: u64 = if delta > self.max {
            delta
        } else {
            self.max
        };
        let total: u128 = self.total + delta as u128;
        let count: usize = self.count + 1;
        HistoryJitterStats { min, max, total, count }
    }
}

impl JitterInfo {
    /// A time in nanoseconds as milliseconds with three places, the rest
    /// cut off, put to the right of six characters.
    pub open spec fn millis_text(nanos: u64) -> Seq<char> {
        padded_left(three_places((nanos / 1000) as nat), 6)
    }

    /// The figures in one line: the range and the mean of the times in
    /// milliseconds, and after a slash how many times there were.
    pub fn to_string(&self) -> (r: String)
        ensures
            r@ == "ms["@ + Self::millis_text(self.min) + ", "@ + Self::millis_text(self.max)
                + "] avg "@ + Self::millis_text(self.avg) + "/"@ + padded_right(
                decimal(self.num_samples as nat),
                4,
            ),
    {
        let min: String = Self::millis(self.min);
        let max: String = Self::millis(self.max);
        let avg: String = Self::millis(self.avg);
        let count: String = to_decimal(self.num_samples as u128);
        let num: String = pad_right(count.as_str(), 4);
        let mut r: String = "ms[".to_owned();
        r.append(min.as_str());
        r.append(", ");
        r.append(max.as_str());
        r.append("] avg ");
        r.append(avg.as_str());
        r.append("/");
        r.append(num.as_str());
        r
    }

    /// Writes a time in nanoseconds as milliseconds.
    fn millis(nanos: u64) -> (r: String)
        ensures
            r@ == Self::millis_text(nanos),
    {
        let text: String = to_three_places((nanos / 1000) as u128);
        pad_left(text.as_str(), 6)
    }

    /// The figures on `gaps`, which are not empty: the smallest, the
    /// largest, the mean rounded down, and their number.
    pub open spec fn of(gaps: Seq<u64>) -> JitterInfo {
        JitterInfo {
            max: max_of(gaps),
            min: min_of(gaps),
            avg: (sum_of(gaps) / gaps.len() as int) as u64,
            num_samples: gaps.len() as usize,
        }
    }
}

/// The mean of `count` gaps that sum up to `total`, rounded down and held
/// to what fits; zero for no gaps.
pub open spec fn mean_of(total: u128, count: usize) -> u64 {
    if count == 0 {
        0
    } else if total / count as u128 > u64::MAX {
        u64::MAX
    } else {
        (total / count as u128) as u64
    }
}

impl From<HistoryJitterStats> for JitterInfo {
    /// The figures to report: the extremes as they are, and the mean in
    /// place of the sum.
    fn from(value: HistoryJitterStats) -> (r: JitterInfo)
        ensures
            value.count > 0 && value.total <= value.count * u64::MAX ==> r == (JitterInfo {
                max: value.max,
                min: value.min,
                avg: (value.total / value.count as u128) as u64,
                num_samples: value.count,
            }),
    {
        if value.count == 0 {
            return JitterInfo { max: value.max, min: value.min, avg: 0, num_samples: 0 };
        }
        let count: u128 = value.count as u128;
        let mean: u128 = value.total / count;
        let avg: u64 = if mean > u64::MAX as u128 {
            u64::MAX
        } else {
            mean as u64
        };
        proof {
            if value.total <= value.count * u64::MAX {
                let total = value.total as int;
                let n = value.count as int;
                assert(total / n <= u64::MAX) by (nonlinear_arith)
                    requires
                        0 < n,
                        0 <= total <= n * u64::MAX,
                ;
            }
        }
        JitterInfo { max: value.max, min: value.min, avg, num_samples: value.count }
    }
}

impl FromSpecImpl<HistoryJitterStats> for JitterInfo {
    open spec fn obeys_from_spec() -> bool {
        true
    }

    open spec fn from_spec(value: HistoryJitterStats) -> JitterInfo {
        JitterInfo {
            max: value.max,
            min: value.min,
            avg: mean_of(value.total, value.count),
            num_samples: value.count,
        }
    }
}

/// The test that picks the samples from `cutoff` on.
pub open spec fn not_before(cutoff: int) -> spec_fn(Sample) -> bool {
    |sample: Sample| sample.time >= cutoff
}

/// The test that picks the samples taken less than `period` before `now`.
pub open spec fn recent(now: u64, period: u64) -> spec_fn(Sample) -> bool {
    |sample: Sample| since(sample.time, now) < period
}

/// The voltage of a sample.
pub open spec fn voltage_of() -> spec_fn(Sample) -> u64 {
    |sample: Sample| sample.voltage
}

/// Whether the samples are in the order of their times.
pub open spec fn chronological(samples: Seq<Sample>) -> bool {
    forall|i: int, j: int| 0 <= i <= j < samples.len() ==> samples[i].time <= samples[j].time
}

/// The running mean after one more voltage: the first voltage as it is,
/// and from then on 999 parts of the mean and one part of the voltage,
/// rounded down.
pub open spec fn mean_step(avg: Option<u64>, voltage: u64) -> u64 {
    match avg {
        None => voltage,
        Some(avg) => ((avg * 999 + voltage) / 1000) as u64,
    }
}

/// The running mean after `samples`.
pub open spec fn mean_after(avg: Option<u64>, samples: Seq<Sample>) -> Option<u64>
    decreases samples.len(),
{
    if samples.len() == 0 {
        avg
    } else {
        Some(mean_step(mean_after(avg, samples.drop_last()), samples.last().voltage))
    }
}

/// How far below the mean a voltage has to fall to count as a dip, in
/// microvolts.
pub const DIP_DEPTH: u64 = 100_000;

/// How far below the mean a voltage has to rise again before the next dip
/// counts, in microvolts.
pub const DIP_RELEASE: u64 = 70_000;

/// Whether the signal is in a dip after `voltages`, and how many dips began
/// in them.
pub open spec fn dips(voltages: Seq<u64>, avg: int) -> (bool, nat)
    decreases voltages.len(),
{
    if voltages.len() == 0 {
        (false, 0)
    } else {
        let (low, count) = dips(voltages.drop_last(), avg);
        let voltage = voltages.last();
        if !low && voltage < avg - DIP_DEPTH {
            (true, count + 1)
        } else if low && voltage > avg - DIP_RELEASE {
            (false, count)
        } else {
            (low, count)
        }
    }
}

/// The times between each sample and the next, for the samples that were
/// taken less than `period` before `now`.
pub open spec fn gaps(samples: Seq<Sample>, now: u64, period: u64) -> Seq<u64>
    decreases samples.len(),
{
    if samples.len() < 2 {
        Seq::empty()
    } else {
        let first = samples[samples.len() - 2];
        let second = samples[samples.len() - 1];
        let before = gaps(samples.drop_last(), now, period);
        if since(first.time, now) < period {
            before.push(since(first.time, second.time) as u64)
        } else {
            before
        }
    }
}

/// The samples of the last second or so.
pub struct Sampler {
    total: u128,
    avg: Option<u64>,
    period: u64,
    samples: Vec<Sample>,
}

impl Sampler {
    /// How many samples were taken in all.
    pub closed spec fn total(self) -> int {
        self.total as int
    }

    /// The running mean of the voltage in microvolts.
    pub closed spec fn avg(self) -> Option<u64> {
        self.avg
    }

    /// The length of the window in nanoseconds.
    pub closed spec fn period(self) -> u64 {
        self.period
    }

    /// The samples that are kept, oldest first.
    pub closed spec fn samples(self) -> Seq<Sample> {
        self.samples@
    }

    /// The samples are in the order of their times.
    pub open spec fn wf(self) -> bool {
        chronological(self.samples())
    }

    /// The clock reading before which a sample is dropped at `now`.
    pub open spec fn cutoff(self, now: u64) -> int {
        if now >= self.period() {
            now - self.period()
        } else {
            0
        }
    }

    /// Whether `samples` may be taken in at `now`: they are in the order
    /// of their times, none is older than the last sample that is still
    /// kept at `now`, and the count of all samples has room for them.
    pub open spec fn accepts(self, samples: Seq<Sample>, now: u64) -> bool {
        &&& chronological(self.samples().filter(not_before(self.cutoff(now))) + samples)
        &&& self.total() + samples.len() <= u128::MAX
    }

    /// A sampler with a window of one second.
    pub fn new() -> (r: Self)
        ensures
            r.wf(),
            r.total() == 0,
            r.avg().is_none(),
            r.period() == 1_000_000_000,
            r.samples() == Seq::<Sample>::empty(),
    {
        Sampler { total: 0, avg: None, period: 1_000_000_000, samples: Vec::new() }
    }

    /// Tells whether `samples` may be taken in at `now`.
    pub fn can_take(&self, samples: &Vec<Sample>, now: u64) -> (r: bool)
        requires
            self.wf(),
        ensures
            r == self.accepts(samples@, now),
    {
        let n: usize = samples.len();
        if n as u128 > u128::MAX - self.total {
            return false;
        }
        let idx: usize = self.first_kept(now);
        let kept: usize = self.samples.len() - idx;
        let mut last: u64 = if kept > 0 {
            self.samples[idx + kept - 1].time
        } else {
            0
        };
        let ghost all = self.samples@.skip(idx as int) + samples@;
        let mut i: usize = 0;
        proof {
            assert forall|a: int, b: int| 0 <= a <= b < kept implies (#[trigger] all[a]).time <= (
            #[trigger] all[b]).time by {
                assert(all[a] == self.samples@[a + idx]);
                assert(all[b] == self.samples@[b + idx]);
            }
        }
        while i < n
            invariant
                i <= n,
                n == samples@.len(),
                kept == self.samples@.len() - idx,
                idx <= self.samples@.len(),
                all == self.samples@.skip(idx as int) + samples@,
                all == self.samples().filter(not_before(self.cutoff(now))) + samples@,
                forall|a: int, b: int|
                    0 <= a <= b < kept + i ==> (#[trigger] all[a]).time <= (#[trigger] all[b]).time,
                kept + i > 0 ==> all[kept + i - 1].time == last,
                kept + i == 0 ==> last == 0,
            decreases n - i,
        {
            let time: u64 = samples[i].time;
            assert(all[kept + i] == samples@[i as int]);
            if time < last {
                proof {
                    assert(all[kept + i - 1].time > all[kept + i].time);
                }
                return false;
            }
            last = time;
            i = i + 1;
        }
        true
    }

    /// The place of the first sample that is kept at `now`.
    fn first_kept(&self, now: u64) -> (idx: usize)
        requires
            self.wf(),
        ensures
            idx <= self.samples().len(),
            self.samples().filter(not_before(self.cutoff(now))) == self.samples().skip(idx as int),
            chronological(self.samples().skip(idx as int)),
    {
        let cutoff: u64 = if now >= self.period {
            now - self.period
        } else {
            0
        };
        let n: usize = self.samples.len();
        let mut idx: usize = 0;
        while idx < n && self.samples[idx].time < cutoff
            invariant
                idx <= n,
                n == self.samples@.len(),
                forall|k: int| 0 <= k < idx ==> self.samples@[k].time < cutoff,
            decreases n - idx,
        {
            idx = idx + 1;
        }
        proof {
            lemma_cull(self.samples@, idx as int, cutoff as int);
        }
        idx
    }

    /// Drops the samples that are older than the window at `now` and takes
    /// in `samples`.
    pub fn extend_samples(&mut self, samples: &Vec<Sample>, now: u64)
        requires
            old(self).wf(),
            old(self).accepts(samples@, now),
        ensures
            final(self).wf(),
            final(self).period() == old(self).period(),
            final(self).samples() == old(self).samples().filter(not_before(old(self).cutoff(now)))
                + samples@,
            final(self).total() == old(self).total() + samples@.len(),
            final(self).avg() == mean_after(old(self).avg(), samples@),
    {
        self.cull_old_samples(now);
        let ghost culled = self.samples();
        let n: usize = samples.len();
        let mut i: usize = 0;
        proof {
            assert(samples@.take(0) =~= Seq::<Sample>::empty());
            assert(self.samples() =~= culled + samples@.take(0));
        }
        while i < n
            invariant
                i <= n,
                n == samples@.len(),
                self.period() == old(self).period(),
                self.samples() == culled + samples@.take(i as int),
                self.total() == old(self).total() + i,
                old(self).total() + n <= u128::MAX,
                self.avg() == mean_after(old(self).avg(), samples@.take(i as int)),
            decreases n - i,
        {
            let sample: Sample = samples[i];
            proof {
                assert(samples@.take(i + 1).drop_last() =~= samples@.take(i as int));
                assert(samples@.take(i + 1).last() == sample);
            }
            self.samples.push(sample);
            self.total = self.total + 1;
            self.avg = Some(Self::mean(self.avg, sample.voltage));
            proof {
                assert(self.samples() =~= culled + samples@.take(i + 1));
            }
            i = i + 1;
        }
        proof {
            assert(samples@.take(n as int) =~= samples@);
        }
    }

    /// Takes in one sample.
    pub fn add_sample(&mut self, sample: Sample, now: u64)
        requires
            old(self).wf(),
            old(self).accepts(seq![sample], now),
        ensures
            final(self).wf(),
            final(self).period() == old(self).period(),
            final(self).samples() == old(self).samples().filter(
                not_before(old(self).cutoff(now)),
            ).push(sample),
            final(self).total() == old(self).total() + 1,
            final(self).avg() == Some(mean_step(old(self).avg(), sample.voltage)),
    {
        let mut one: Vec<Sample> = Vec::new();
        one.push(sample);
        proof {
            assert(one@ =~= seq![sample]);
            assert(one@.drop_last() =~= Seq::<Sample>::empty());
            assert(one@.last() == sample);
            assert(mean_after(self.avg(), Seq::<Sample>::empty()) == self.avg());
        }
        self.extend_samples(&one, now);
        proof {
            assert(self.samples() =~= old(self).samples().filter(
                not_before(old(self).cutoff(now)),
            ).push(sample));
        }
    }

    /// The running mean after one more voltage.
    fn mean(avg: Option<u64>, voltage: u64) -> (r: u64)
        ensures
            r == mean_step(avg, voltage),
    {
        match avg {
            None => voltage,
            Some(avg) => {
                let sum: u128 = avg as u128 * 999 + voltage as u128;
                (sum / 1000) as u64
            },
        }
    }

    /// Drops the samples that are older than the window at `now`.
    fn cull_old_samples(&mut self, now: u64)
        requires
            old(self).wf(),
        ensures
            final(self).wf(),
            final(self).period() == old(self).period(),
            final(self).total() == old(self).total(),
            final(self).avg() == old(self).avg(),
            final(self).samples() == old(self).samples().filter(not_before(old(self).cutoff(now))),
    {
        let idx: usize = self.first_kept(now);
        let tail: Vec<Sample> = self.samples.split_off(idx);
        self.samples = tail;
    }

    /// How many samples were taken less than the window before `now`.
    pub fn history_size(&self, now: u64) -> (r: usize)
        ensures
            r == self.samples().filter(recent(now, self.period())).len(),
    {
        self.history(now).len()
    }

    /// The voltages of the samples taken less than the window before `now`,
    /// oldest first.
    pub fn history(&self, now: u64) -> (r: Vec<u64>)
        ensures
            r@ == self.samples().filter(recent(now, self.period())).map_values(voltage_of()),
    {
        let ghost pred = recent(now, self.period);
        let mut r: Vec<u64> = Vec::new();
        let n: usize = self.samples.len();
        let mut i: usize = 0;
        proof {
            assert(self.samples@.take(0) =~= Seq::<Sample>::empty());
            assert(self.samples@.take(0).filter(pred).map_values(voltage_of()) =~= Seq::<
                u64,
            >::empty());
        }
        while i < n
            invariant
                i <= n,
                n == self.samples@.len(),
                pred == recent(now, self.period),
                r@ == self.samples@.take(i as int).filter(pred).map_values(voltage_of()),
            decreases n - i,
        {
            let sample: Sample = self.samples[i];
            let keep: bool = elapsed(sample.time, now) < self.period;
            proof {
                let before = self.samples@.take(i as int);
                assert(self.samples@.take(i + 1) =~= before.push(sample));
                before.lemma_filter_push(sample, pred);
                assert(pred(sample) == keep);
                if keep {
                    assert(before.push(sample).filter(pred).map_values(voltage_of())
                        =~= before.filter(pred).map_values(voltage_of()).push(sample.voltage));
                }
            }
            if keep {
                r.push(sample.voltage);
            }
            i = i + 1;
        }
        proof {
            assert(self.samples@.take(n as int) =~= self.samples@);
        }
        r
    }

    /// How many samples were taken in all.
    pub fn get_total_samples(&self) -> (r: u128)
        ensures
            r == self.total(),
    {
        self.total
    }

    /// The running mean of the voltage in microvolts, once there was a
    /// sample.
    pub fn get_avg(&self) -> (r: Option<u64>)
        ensures
            r == self.avg(),
    {
        self.avg
    }

    /// How many dips began in the window before `now`: a dip begins when
    /// the voltage falls more than a tenth of a volt below the running
    /// mean, and the next can begin once it has risen to less than seven
    /// hundredths below.
    pub fn get_dips_count(&self, now: u64) -> (r: usize)
        ensures
            r == match self.avg() {
                None => 0,
                Some(avg) => dips(
                    self.samples().filter(recent(now, self.period())).map_values(voltage_of()),
                    avg as int,
                ).1,
            },
    {
        let avg: u64 = match self.avg {
            None => {
                return 0;
            },
            Some(avg) => avg,
        };
        let history: Vec<u64> = self.history(now);
        let n: usize = history.len();
        let mut low: bool = false;
        let mut count: usize = 0;
        let mut i: usize = 0;
        proof {
            assert(history@.take(0) =~= Seq::<u64>::empty());
        }
        while i < n
            invariant
                i <= n,
                n == history@.len(),
                count <= i,
                (low, count as nat) == dips(history@.take(i as int), avg as int),
            decreases n - i,
        {
            let voltage: u64 = history[i];
            proof {
                assert(history@.take(i + 1).drop_last() =~= history@.take(i as int));
                assert(history@.take(i + 1).last() == voltage);
            }
            if !low && (voltage as u128) + (DIP_DEPTH as u128) < avg as u128 {
                low = true;
                count = count + 1;
            } else if low && (voltage as u128) + (DIP_RELEASE as u128) > avg as u128 {
                low = false;
            }
            i = i + 1;
        }
        proof {
            assert(history@.take(n as int) =~= history@);
        }
        count
    }

    /// Figures on the times between the samples of the window before `now`,
    /// or nothing if there are no two samples to tell a time between.
    pub fn get_jitter_info(&self, now: u64) -> (r: Option<JitterInfo>)
        ensures
            r == if gaps(self.samples(), now, self.period()).len() == 0 {
                None
            } else {
                Some(JitterInfo::of(gaps(self.samples(), now, self.period())))
            },
    {
        let deltas: Vec<u64> = self.deltas(now);
        match HistoryJitterStats::try_from_iter(&deltas) {
            None => None,
            Some(stats) => {
                proof {
                    lemma_extremes(deltas@);
                }
                Some(JitterInfo::from(stats))
            },
        }
    }

    /// The times between each sample and the next, for the samples of the
    /// window before `now`.
    fn deltas(&self, now: u64) -> (r: Vec<u64>)
        ensures
            r@ == gaps(self.samples(), now, self.period()),
    {
        let mut r: Vec<u64> = Vec::new();
        let n: usize = self.samples.len();
        if n < 2 {
            return r;
        }
        let mut i: usize = 1;
        proof {
            assert(self.samples@.take(1).len() < 2);
        }
        while i < n
            invariant
                1 <= i <= n,
                n == self.samples@.len(),
                r@ == gaps(self.samples@.take(i as int), now, self.period),
            decreases n - i,
        {
            let first: Sample = self.samples[i - 1];
            let second: Sample = self.samples[i];
            proof {
                let upto = self.samples@.take(i + 1);
                assert(upto.drop_last() =~= self.samples@.take(i as int));
                assert(upto[upto.len() - 2] == first);
                assert(upto[upto.len() - 1] == second);
            }
            if elapsed(first.time, now) < self.period {
                r.push(elapsed(first.time, second.time));
            }
            i = i + 1;
        }
        proof {
            assert(self.samples@.take(n as int) =~= self.samples@);
        }
        r
    }
}

/// In samples that are in the order of their times, those from `cutoff` on
/// are what is left when the older ones are taken from the front.
proof fn lemma_cull(samples: Seq<Sample>, idx: int, cutoff: int)
    requires
        chronological(samples),
        0 <= idx <= samples.len(),
        forall|k: int| 0 <= k < idx ==> samples[k].time < cutoff,
        idx < samples.len() ==> samples[idx].time >= cutoff,
    ensures
        samples.filter(not_before(cutoff)) == samples.skip(idx),
        chronological(samples.skip(idx)),
    decreases samples.len(),
{
    let pred = not_before(cutoff);
    if samples.len() == 0 {
        assert(samples.filter(pred) =~= samples.skip(idx));
    } else {
        let rest = samples.drop_last();
        let last = samples.last();
        assert(samples =~= rest.push(last));
        rest.lemma_filter_push(last, pred);
        if idx == samples.len() {
            lemma_cull(rest, idx - 1, cutoff);
            assert(rest.skip(idx - 1).len() == 0);
            assert(samples[idx - 1].time < cutoff);
            assert(samples.filter(pred) =~= samples.skip(idx));
        } else {
            lemma_cull(rest, idx, cutoff);
            assert(samples[idx].time <= samples[samples.len() - 1].time);
            assert(pred(last));
            assert(rest.skip(idx).push(last) =~= samples.skip(idx));
        }
    }
    assert forall|i: int, j: int| 0 <= i <= j < samples.skip(idx).len() implies samples.skip(
        idx,
    )[i].time <= samples.skip(idx)[j].time by {
        assert(samples.skip(idx)[i] == samples[i + idx]);
        assert(samples.skip(idx)[j] == samples[j + idx]);
    }
}

} // verus!
