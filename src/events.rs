//! Counter samples and the per-span event counts derived from them.

use vstd::prelude::*;

verus! {

/// The number of counter registers read in one go, across every class.
pub const KPC_MAX_COUNTERS: usize = 32;

/// The events counted over one measured span, with the wall-clock time it took.
///
/// Slots: 0 cycles, 1 instructions, 2 missed branches, 3 reserved (zero), 4 branches.
#[derive(Clone, Copy, Debug)]
pub struct EventCount {
    pub elapsed_nanos: u64,
    pub event_counts: [u64; 5],
}

impl EventCount {
    /// A count built from its four metrics; the reserved slot is zero.
    pub fn new(elapsed_nanos: u64, cycles: u64, instructions: u64, missed_branches: u64, branches: u64) -> (r: Self)
        ensures
            r.elapsed_nanos == elapsed_nanos,
            r.event_counts@ == seq![cycles, instructions, missed_branches, 0u64, branches],
    {
        let r = EventCount {
            elapsed_nanos,
            event_counts: [cycles, instructions, missed_branches, 0, branches],
        };
        assert(r.event_counts@ =~= seq![cycles, instructions, missed_branches, 0u64, branches]);
        r
    }

    /// A count with every metric and the elapsed time at zero.
    pub fn zero() -> (r: Self)
        ensures
            r.elapsed_nanos == 0,
            r.event_counts@ == seq![0u64, 0u64, 0u64, 0u64, 0u64],
    {
        Self::new(0, 0, 0, 0, 0)
    }

    pub open spec fn spec_cycles(self) -> u64 {
        self.event_counts@[0]
    }

    pub open spec fn spec_instructions(self) -> u64 {
        self.event_counts@[1]
    }

    pub open spec fn spec_missed_branches(self) -> u64 {
        self.event_counts@[2]
    }

    pub open spec fn spec_branches(self) -> u64 {
        self.event_counts@[4]
    }

    #[verifier::when_used_as_spec(spec_cycles)]
    pub fn cycles(self) -> (r: u64)
        ensures
            r == self.event_counts@[0],
    {
        self.event_counts[0]
    }

    #[verifier::when_used_as_spec(spec_instructions)]
    pub fn instructions(self) -> (r: u64)
        ensures
            r == self.event_counts@[1],
    {
        self.event_counts[1]
    }

    #[verifier::when_used_as_spec(spec_missed_branches)]
    pub fn missed_branches(self) -> (r: u64)
        ensures
            r == self.event_counts@[2],
    {
        self.event_counts[2]
    }

    #[verifier::when_used_as_spec(spec_branches)]
    pub fn branches(self) -> (r: u64)
        ensures
            r == self.event_counts@[4],
    {
        self.event_counts[4]
    }

    pub fn elapsed_nanos(self) -> (r: u64)
        ensures
            r == self.elapsed_nanos,
    {
        self.elapsed_nanos
    }
}

/// `a - b`, or zero where `b` exceeds `a`.
pub open spec fn clamped_diff(a: u64, b: u64) -> u64 {
    if a >= b { (a - b) as u64 } else { 0 }
}

/// The four tracked counter values at one instant.
#[derive(Clone, Copy, Debug, PartialEq, Eq, Structural)]
pub struct PerformanceCounters {
    pub cycles: u64,
    pub branches: u64,
    pub missed_branches: u64,
    pub instructions: u64,
}

impl PerformanceCounters {
    /// Metric `k` of the four, in the order cycles, branches, missed branches, instructions.
    pub open spec fn metric(self, k: int) -> u64 {
        if k == 0 {
            self.cycles
        } else if k == 1 {
            self.branches
        } else if k == 2 {
            self.missed_branches
        } else {
            self.instructions
        }
    }

    pub fn new_u64(c: u64, b: u64, m: u64, i: u64) -> (r: Self)
        ensures
            r.cycles == c,
            r.branches == b,
            r.missed_branches == m,
            r.instructions == i,
    {
        PerformanceCounters { cycles: c, branches: b, missed_branches: m, instructions: i }
    }

    /// Every metric set to `init`.
    pub fn from_value(init: u64) -> (r: Self)
        ensures
            forall|k: int| 0 <= k < 4 ==> #[trigger] r.metric(k) == init,
    {
        PerformanceCounters { cycles: init, branches: init, missed_branches: init, instructions: init }
    }

    pub fn from_event_count(event_count: EventCount) -> (r: Self)
        ensures
            r.cycles == event_count.cycles(),
            r.branches == event_count.branches(),
            r.missed_branches == event_count.missed_branches(),
            r.instructions == event_count.instructions(),
    {
        PerformanceCounters {
            cycles: event_count.cycles(),
            branches: event_count.branches(),
            missed_branches: event_count.missed_branches(),
            instructions: event_count.instructions(),
        }
    }

    /// Lowers each metric to `other`'s where that is smaller.
    pub fn min(&mut self, other: &Self)
        ensures
            forall|k: int|
                0 <= k < 4 ==> #[trigger] final(self).metric(k) == if old(self).metric(k) <= other.metric(k) {
                    old(self).metric(k)
                } else {
                    other.metric(k)
                },
    {
        if other.cycles < self.cycles {
            self.cycles = other.cycles;
        }
        if other.branches < self.branches {
            self.branches = other.branches;
        }
        if other.missed_branches < self.missed_branches {
            self.missed_branches = other.missed_branches;
        }
        if other.instructions < self.instructions {
            self.instructions = other.instructions;
        }
    }

    /// Raises each metric to `other`'s where that is larger.
    pub fn max(&mut self, other: &Self)
        ensures
            forall|k: int|
                0 <= k < 4 ==> #[trigger] final(self).metric(k) == if old(self).metric(k) >= other.metric(k) {
                    old(self).metric(k)
                } else {
                    other.metric(k)
                },
    {
        if other.cycles > self.cycles {
            self.cycles = other.cycles;
        }
        if other.branches > self.branches {
            self.branches = other.branches;
        }
        if other.missed_branches > self.missed_branches {
            self.missed_branches = other.missed_branches;
        }
        if other.instructions > self.instructions {
            self.instructions = other.instructions;
        }
    }

    pub open spec fn spec_since(self, start: Self) -> Self {
        PerformanceCounters {
            cycles: clamped_diff(self.cycles, start.cycles),
            branches: clamped_diff(self.branches, start.branches),
            missed_branches: clamped_diff(self.missed_branches, start.missed_branches),
            instructions: clamped_diff(self.instructions, start.instructions),
        }
    }

    /// The work done between `start` and `self`: each metric's difference,
    /// clamped at zero where a counter went backwards.
    #[verifier::when_used_as_spec(spec_since)]
    pub fn since(self, start: Self) -> (r: Self)
        ensures
            r == self.spec_since(start),
            forall|k: int| 0 <= k < 4 ==> #[trigger] r.metric(k) == clamped_diff(self.metric(k), start.metric(k)),
    {
        PerformanceCounters {
            cycles: if self.cycles >= start.cycles { self.cycles - start.cycles } else { 0 },
            branches: if self.branches >= start.branches { self.branches - start.branches } else { 0 },
            missed_branches: if self.missed_branches >= start.missed_branches {
                self.missed_branches - start.missed_branches
            } else {
                0
            },
            instructions: if self.instructions >= start.instructions {
                self.instructions - start.instructions
            } else {
                0
            },
        }
    }
}

/// A counter that only moved forward yields its exact advance: for every
/// metric that did not go backwards, `start + delta == end`, so the delta is
/// never clamped and never negative.
pub proof fn lemma_forward_counters_give_exact_delta(end: PerformanceCounters, start: PerformanceCounters)
    requires
        forall|k: int| 0 <= k < 4 ==> #[trigger] end.metric(k) >= start.metric(k),
    ensures
        forall|k: int| 0 <= k < 4 ==> #[trigger] end.since(start).metric(k) + start.metric(k) == end.metric(k),
{
    assert forall|k: int| 0 <= k < 4 implies #[trigger] end.since(start).metric(k) + start.metric(k) == end.metric(k) by {
        assert(end.metric(k) >= start.metric(k));
    }
}

} // verus!
