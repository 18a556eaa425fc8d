//! Aggregation of many measured spans, in two passes and without rounding:
//! the number of spans `n` and, per metric, the total `S`, the minimum, the
//! maximum and the sum of squared scaled deviations `sum((n * x - S)^2)`.
//! The mean is `S / n`; the population variance is that last sum over `n^3`.

use vstd::prelude::*;
use crate::events::{EventCount, PerformanceCounters};
use crate::wide::{base128, WideSum};

verus! {

/// Why a batch of spans cannot be summarized.
#[derive(Clone, Copy, Debug, PartialEq, Eq, Structural)]
pub enum StatsError {
    /// No repetition was asked for: there is no mean to report.
    InvalidRepetitions,
}

/// The four metrics of a span, as a sample.
pub open spec fn counters_of(c: EventCount) -> PerformanceCounters {
    PerformanceCounters {
        cycles: c.cycles(),
        branches: c.branches(),
        missed_branches: c.missed_branches(),
        instructions: c.instructions(),
    }
}

/// The sum of metric `k` over the spans.
pub open spec fn total_of(s: Seq<EventCount>, k: int) -> int
    decreases s.len(),
{
    if s.len() == 0 {
        0
    } else {
        total_of(s.drop_last(), k) + counters_of(s.last()).metric(k)
    }
}

/// The smallest value of metric `k` over the spans (`u64::MAX` for none).
pub open spec fn minimum_of(s: Seq<EventCount>, k: int) -> int
    decreases s.len(),
{
    if s.len() == 0 {
        u64::MAX as int
    } else {
        let m = minimum_of(s.drop_last(), k);
        let v = counters_of(s.last()).metric(k) as int;
        if m <= v {
            m
        } else {
            v
        }
    }
}

/// The largest value of metric `k` over the spans (zero for none).
pub open spec fn maximum_of(s: Seq<EventCount>, k: int) -> int
    decreases s.len(),
{
    if s.len() == 0 {
        0
    } else {
        let m = maximum_of(s.drop_last(), k);
        let v = counters_of(s.last()).metric(k) as int;
        if m >= v {
            m
        } else {
            v
        }
    }
}

/// `sum((n * x - total)^2)` of metric `k` over the spans: `n` times the
/// sample's deviation from the mean `total / n`, squared.
pub open spec fn squared_gaps(s: Seq<EventCount>, k: int, n: int, total: int) -> int
    decreases s.len(),
{
    if s.len() == 0 {
        0
    } else {
        let g = n * counters_of(s.last()).metric(k) - total;
        squared_gaps(s.drop_last(), k, n, total) + g * g
    }
}

/// Per-metric sums, wide enough for any number of `u64` values that a `Vec` can hold.
#[derive(Clone, Copy, Debug, PartialEq, Eq, Structural)]
pub struct Totals {
    pub cycles: u128,
    pub branches: u128,
    pub missed_branches: u128,
    pub instructions: u128,
}

impl Totals {
    /// Metric `k`, in the order of `PerformanceCounters::metric`.
    pub open spec fn metric(self, k: int) -> u128 {
        if k == 0 {
            self.cycles
        } else if k == 1 {
            self.branches
        } else if k == 2 {
            self.missed_branches
        } else {
            self.instructions
        }
    }

    pub fn zero() -> (r: Self)
        ensures
            forall|k: int| 0 <= k < 4 ==> #[trigger] r.metric(k) == 0,
    {
        Totals { cycles: 0, branches: 0, missed_branches: 0, instructions: 0 }
    }

    /// Adds a sample's metrics.
    pub fn add_assign(&mut self, other: &PerformanceCounters)
        requires
            forall|k: int| 0 <= k < 4 ==> #[trigger] old(self).metric(k) + other.metric(k) <= u128::MAX,
        ensures
            forall|k: int| 0 <= k < 4 ==> #[trigger] final(self).metric(k) == old(self).metric(k) + other.metric(k),
    {
        assert(self.metric(0) + other.metric(0) <= u128::MAX);
        assert(self.metric(1) + other.metric(1) <= u128::MAX);
        assert(self.metric(2) + other.metric(2) <= u128::MAX);
        assert(self.metric(3) + other.metric(3) <= u128::MAX);
        self.cycles = self.cycles + other.cycles as u128;
        self.branches = self.branches + other.branches as u128;
        self.missed_branches = self.missed_branches + other.missed_branches as u128;
        self.instructions = self.instructions + other.instructions as u128;
    }
}

/// Per-metric sums of squared scaled deviations.
#[derive(Clone, Copy, Debug, PartialEq, Eq, Structural)]
pub struct Deviations {
    pub cycles: WideSum,
    pub branches: WideSum,
    pub missed_branches: WideSum,
    pub instructions: WideSum,
}

/// `|n * x - total|`.
fn gap(n: usize, x: u64, total: u128) -> (r: u128)
    ensures
        r * r == (n * x - total) * (n * x - total),
{
    assert(n * x <= u128::MAX) by (nonlinear_arith)
        requires n <= u64::MAX, x <= u64::MAX;
    let scaled = n as u128 * x as u128;
    if scaled >= total {
        scaled - total
    } else {
        let r = total - scaled;
        assert(r * r == (n * x - total) * (n * x - total)) by (nonlinear_arith)
            requires r == total - n * x;
        r
    }
}

impl Deviations {
    /// Metric `k`, in the order of `PerformanceCounters::metric`.
    pub open spec fn metric(self, k: int) -> WideSum {
        if k == 0 {
            self.cycles
        } else if k == 1 {
            self.branches
        } else if k == 2 {
            self.missed_branches
        } else {
            self.instructions
        }
    }

    pub fn zero() -> (r: Self)
        ensures
            forall|k: int| 0 <= k < 4 ==> (#[trigger] r.metric(k)).value() == 0 && r.metric(k).top == 0,
    {
        Deviations {
            cycles: WideSum::zero(),
            branches: WideSum::zero(),
            missed_branches: WideSum::zero(),
            instructions: WideSum::zero(),
        }
    }

    /// Adds the squared scaled deviation of one sample from the totals of `n` samples.
    pub fn add_sample(&mut self, n: usize, sample: &PerformanceCounters, total: &Totals)
        requires
            forall|k: int| 0 <= k < 4 ==> (#[trigger] old(self).metric(k)).top < u128::MAX,
        ensures
            forall|k: int|
                0 <= k < 4 ==> (#[trigger] final(self).metric(k)).value() == old(self).metric(k).value() + (n
                    * sample.metric(k) - total.metric(k)) * (n * sample.metric(k) - total.metric(k)),
            forall|k: int| 0 <= k < 4 ==> (#[trigger] final(self).metric(k)).top <= old(self).metric(k).top + 1,
    {
        assert(self.metric(0).top < u128::MAX);
        assert(self.metric(1).top < u128::MAX);
        assert(self.metric(2).top < u128::MAX);
        assert(self.metric(3).top < u128::MAX);
        self.cycles.add_square(gap(n, sample.cycles, total.cycles));
        self.branches.add_square(gap(n, sample.branches, total.branches));
        self.missed_branches.add_square(gap(n, sample.missed_branches, total.missed_branches));
        self.instructions.add_square(gap(n, sample.instructions, total.instructions));
    }
}

/// The exact aggregates of a batch of spans.
#[derive(Clone, Copy, Debug, PartialEq, Eq, Structural)]
pub struct RunTotals {
    pub count: usize,
    pub total: Totals,
    pub minimum: PerformanceCounters,
    pub maximum: PerformanceCounters,
    /// `sum((count * x - total)^2)` per metric; over `count^3` it is the population variance.
    pub squared_deviation: Deviations,
}

/// `r` holds the aggregates of the spans `s`.
pub open spec fn summarizes(r: RunTotals, s: Seq<EventCount>) -> bool {
    &&& r.count == s.len()
    &&& forall|k: int| 0 <= k < 4 ==> #[trigger] r.total.metric(k) == total_of(s, k)
    &&& forall|k: int| 0 <= k < 4 ==> #[trigger] r.minimum.metric(k) == minimum_of(s, k)
    &&& forall|k: int| 0 <= k < 4 ==> #[trigger] r.maximum.metric(k) == maximum_of(s, k)
    &&& forall|k: int|
        0 <= k < 4 ==> (#[trigger] r.squared_deviation.metric(k)).value() == squared_gaps(
            s,
            k,
            s.len() as int,
            total_of(s, k),
        )
}

proof fn lemma_total_bounded(s: Seq<EventCount>, k: int)
    ensures
        0 <= total_of(s, k) <= s.len() * (u64::MAX as int),
    decreases s.len(),
{
    if s.len() > 0 {
        lemma_total_bounded(s.drop_last(), k);
        let n = s.drop_last().len() as int;
        assert(n * (u64::MAX as int) + u64::MAX as int == (n + 1) * (u64::MAX as int)) by (nonlinear_arith);
    }
}

/// Summarizes the spans of one run. Fails when there are none, rather than
/// reporting a mean of nothing.
pub fn summarize(samples: &Vec<EventCount>) -> (r: Result<RunTotals, StatsError>)
    ensures
        samples@.len() == 0 ==> r == Err::<RunTotals, StatsError>(StatsError::InvalidRepetitions),
        samples@.len() > 0 ==> r is Ok && summarizes(r->Ok_0, samples@),
{
    if samples.len() == 0 {
        return Err(StatsError::InvalidRepetitions);
    }
    let mut total = Totals::zero();
    let mut minimum = PerformanceCounters::from_value(u64::MAX);
    let mut maximum = PerformanceCounters::from_value(0);
    let mut i: usize = 0;
    while i < samples.len()
        invariant
            i <= samples@.len(),
            forall|k: int| 0 <= k < 4 ==> #[trigger] total.metric(k) == total_of(samples@.take(i as int), k),
            forall|k: int| 0 <= k < 4 ==> #[trigger] minimum.metric(k) == minimum_of(samples@.take(i as int), k),
            forall|k: int| 0 <= k < 4 ==> #[trigger] maximum.metric(k) == maximum_of(samples@.take(i as int), k),
        decreases samples@.len() - i,
    {
        let sample = PerformanceCounters::from_event_count(samples[i]);
        let ghost prefix = samples@.take(i as int);
        let ghost next = samples@.take(i + 1);
        assert(next.drop_last() =~= prefix);
        assert(next.last() == samples@[i as int]);
        proof {
            assert forall|k: int| 0 <= k < 4 implies #[trigger] total.metric(k) + sample.metric(k) <= u128::MAX by {
                lemma_total_bounded(prefix, k);
                let n = i as int;
                assert(n < 0x1_0000_0000_0000_0000);
                assert(n * (u64::MAX as int) + u64::MAX as int <= u128::MAX) by (nonlinear_arith)
                    requires n < 0x1_0000_0000_0000_0000, n >= 0;
            }
        }
        total.add_assign(&sample);
        minimum.min(&sample);
        maximum.max(&sample);
        proof {
            assert forall|k: int| 0 <= k < 4 implies #[trigger] counters_of(next.last()).metric(k) == sample.metric(k) by {
            }
        }
        i += 1;
    }
    assert(samples@.take(samples@.len() as int) =~= samples@);
    let n = samples.len();
    let mut squared_deviation = Deviations::zero();
    let mut j: usize = 0;
    while j < n
        invariant
            n == samples@.len(),
            j <= n,
            forall|k: int| 0 <= k < 4 ==> #[trigger] total.metric(k) == total_of(samples@, k),
            forall|k: int|
                0 <= k < 4 ==> (#[trigger] squared_deviation.metric(k)).value() == squared_gaps(
                    samples@.take(j as int),
                    k,
                    n as int,
                    total_of(samples@, k),
                ),
            forall|k: int| 0 <= k < 4 ==> (#[trigger] squared_deviation.metric(k)).top <= j,
        decreases n - j,
    {
        let sample = PerformanceCounters::from_event_count(samples[j]);
        let ghost prefix = samples@.take(j as int);
        let ghost next = samples@.take(j + 1);
        assert(next.drop_last() =~= prefix);
        assert(next.last() == samples@[j as int]);
        assert forall|k: int| 0 <= k < 4 implies (#[trigger] squared_deviation.metric(k)).top < u128::MAX by {
            assert(j < n);
        }
        squared_deviation.add_sample(n, &sample, &total);
        proof {
            assert forall|k: int| 0 <= k < 4 implies #[trigger] counters_of(next.last()).metric(k) == sample.metric(k) by {
            }
        }
        j += 1;
    }
    assert(samples@.take(n as int) =~= samples@);
    Ok(RunTotals { count: n, total, minimum, maximum, squared_deviation })
}

proof fn lemma_total_between_extremes(s: Seq<EventCount>, k: int)
    ensures
        s.len() * minimum_of(s, k) <= total_of(s, k) <= s.len() * maximum_of(s, k),
        s.len() > 0 ==> minimum_of(s, k) <= maximum_of(s, k),
    decreases s.len(),
{
    if s.len() > 0 {
        let t = s.drop_last();
        lemma_total_between_extremes(t, k);
        let n = t.len() as int;
        let v = counters_of(s.last()).metric(k) as int;
        let lo = minimum_of(s, k);
        let hi = maximum_of(s, k);
        assert(lo <= minimum_of(t, k) && lo <= v);
        assert(hi >= maximum_of(t, k) && hi >= v);
        lemma_minimum_nonnegative(s, k);
        assert(n * lo <= n * minimum_of(t, k)) by (nonlinear_arith)
            requires lo <= minimum_of(t, k), n >= 0;
        assert(n * maximum_of(t, k) <= n * hi) by (nonlinear_arith)
            requires hi >= maximum_of(t, k), n >= 0;
        assert((n + 1) * lo == n * lo + lo) by (nonlinear_arith);
        assert((n + 1) * hi == n * hi + hi) by (nonlinear_arith);
    }
}

proof fn lemma_minimum_nonnegative(s: Seq<EventCount>, k: int)
    ensures
        minimum_of(s, k) >= 0,
    decreases s.len(),
{
    if s.len() > 0 {
        lemma_minimum_nonnegative(s.drop_last(), k);
    }
}

/// The mean of every metric lies between its minimum and its maximum:
/// `count * minimum <= total <= count * maximum`, for any non-empty batch.
pub proof fn lemma_mean_within_extremes(r: RunTotals, s: Seq<EventCount>, k: int)
    requires
        summarizes(r, s),
        s.len() > 0,
        0 <= k < 4,
    ensures
        r.minimum.metric(k) <= r.maximum.metric(k),
        r.count * r.minimum.metric(k) <= r.total.metric(k) <= r.count * r.maximum.metric(k),
{
    lemma_total_between_extremes(s, k);
}

/// A batch of one span: the total, the minimum and the maximum of every
/// metric are that span's value, so the mean is the sample itself, and the
/// sum of squared deviations, hence the standard deviation, is zero.
pub proof fn lemma_single_span_summary(r: RunTotals, s: Seq<EventCount>, k: int)
    requires
        summarizes(r, s),
        s.len() == 1,
        0 <= k < 4,
    ensures
        r.count == 1,
        r.total.metric(k) == counters_of(s[0]).metric(k),
        r.minimum.metric(k) == counters_of(s[0]).metric(k),
        r.maximum.metric(k) == counters_of(s[0]).metric(k),
        r.squared_deviation.metric(k).value() == 0,
{
    let t = s.drop_last();
    assert(t.len() == 0);
    assert(s.last() == s[0]);
    assert(total_of(t, k) == 0);
    assert(minimum_of(t, k) == u64::MAX as int);
    assert(maximum_of(t, k) == 0);
    assert(r.total.metric(k) == total_of(s, k));
    assert(r.minimum.metric(k) == minimum_of(s, k));
    assert(r.maximum.metric(k) == maximum_of(s, k));
    let x = counters_of(s.last()).metric(k) as int;
    assert(total_of(s, k) == x);
    assert(squared_gaps(t, k, 1, x) == 0);
    assert(squared_gaps(s, k, 1, x) == squared_gaps(t, k, 1, x) + (1 * x - x) * (1 * x - x));
    assert((1 * x - x) * (1 * x - x) == 0) by (nonlinear_arith);
    assert(r.squared_deviation.metric(k).value() == squared_gaps(s, k, 1, total_of(s, k)));
}

} // verus!
