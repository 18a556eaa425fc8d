//! The snapshot/diff collector: takes a sample at `start`, another at `end`,
//! and turns the two into the event counts of the span between them.
//!
//! The collector performs no I/O. The caller reads the clock and the counter
//! registers and hands the readings in; setup is driven through
//! `next_setup_step` and `advance_setup`.

use vstd::prelude::*;
use crate::events::{
    clamped_diff, lemma_forward_counters_give_exact_delta, EventCount, PerformanceCounters, KPC_MAX_COUNTERS,
};
use crate::mapper::{sample_of, AppleEvents, Reply, SetupModel, SetupState, SetupStep};

verus! {

/// The abstract state of a collector.
pub struct CollectorModel {
    pub setup: SetupModel,
    /// Timestamp of the last `start`, in nanoseconds.
    pub start_clock: u64,
    /// Counter values sampled at the last `start`.
    pub start_sample: PerformanceCounters,
    /// The counts that the last `end` reported.
    pub last_count: EventCount,
}

/// A sample with every metric at zero.
pub open spec fn zero_counters() -> PerformanceCounters {
    PerformanceCounters { cycles: 0, branches: 0, missed_branches: 0, instructions: 0 }
}

/// An event count holds the four metrics of `p` and nothing in the reserved slot.
pub open spec fn holds_counters(c: EventCount, p: PerformanceCounters) -> bool {
    &&& c.cycles() == p.cycles
    &&& c.instructions() == p.instructions
    &&& c.missed_branches() == p.missed_branches
    &&& c.branches() == p.branches
    &&& c.event_counts@[3] == 0
}

impl CollectorModel {
    pub open spec fn wf(self) -> bool {
        self.setup.wf()
    }

    /// The counts that `end` reports for a register read with result `code`
    /// into `raw`: the advance since `start` when setup succeeded, zero otherwise.
    pub open spec fn span_counters(self, code: i32, raw: Seq<u64>) -> PerformanceCounters {
        if self.setup.state == SetupState::Ready {
            sample_of(self.setup.slots, code, raw).since(self.start_sample)
        } else {
            zero_counters()
        }
    }
}

pub struct EventCollector {
    count: EventCount,
    start_clock: u64,
    apple_events: AppleEvents,
    diff: PerformanceCounters,
}

impl View for EventCollector {
    type V = CollectorModel;

    closed spec fn view(&self) -> CollectorModel {
        CollectorModel {
            setup: self.apple_events@,
            start_clock: self.start_clock,
            start_sample: self.diff,
            last_count: self.count,
        }
    }
}

impl EventCollector {
    /// A collector whose setup has not begun.
    pub fn new() -> (r: Self)
        ensures
            r@.wf(),
            r@.setup.state == SetupState::Uninitialized,
            r@.setup.step == SetupStep::QueryPermission,
            r@.setup.resolved.len() == 0,
            r@.start_clock == 0,
            r@.start_sample == zero_counters(),
            r@.last_count.elapsed_nanos == 0,
            r@.last_count.event_counts@ == seq![0u64, 0u64, 0u64, 0u64, 0u64],
            r@.setup.classes == 0,
            r@.setup.reg_count == 0,
            r@.setup.slots.len() == KPC_MAX_COUNTERS,
            forall|i: int| 0 <= i < KPC_MAX_COUNTERS ==> #[trigger] r@.setup.slots[i] == 0,
            r@.setup.regs.len() == KPC_MAX_COUNTERS,
            forall|i: int| 0 <= i < KPC_MAX_COUNTERS ==> #[trigger] r@.setup.regs[i] == 0,
    {
        EventCollector {
            count: EventCount::zero(),
            start_clock: 0,
            apple_events: AppleEvents::new(),
            diff: PerformanceCounters::new_u64(0, 0, 0, 0),
        }
    }

    /// The counter mapper this collector owns.
    pub fn events(&self) -> (r: &AppleEvents)
        ensures
            r@ == self@.setup,
    {
        &self.apple_events
    }

    /// The backend operation setup needs next, or `None` once it has settled.
    pub fn next_setup_step(&self) -> (r: Option<SetupStep>)
        ensures
            r == (if self@.setup.is_settled() { None } else { Some(self@.setup.step) }),
    {
        self.apple_events.next_step()
    }

    /// Hands the backend's answer to the pending setup step to the mapper.
    pub fn advance_setup(&mut self, reply: Reply)
        requires
            old(self)@.wf(),
        ensures
            final(self)@.wf(),
            final(self)@.setup == old(self)@.setup.after(reply),
            final(self)@.start_clock == old(self)@.start_clock,
            final(self)@.start_sample == old(self)@.start_sample,
            final(self)@.last_count == old(self)@.last_count,
            final(self)@.setup.remaining() < old(self)@.setup.remaining() || old(self)@.setup.is_settled(),
    {
        self.apple_events.advance(reply);
    }

    /// Whether setup succeeded, so that `start` and `end` read the counters.
    pub fn has_events(&self) -> (r: bool)
        ensures
            r == (self@.setup.state == SetupState::Ready),
    {
        self.apple_events.has_events()
    }

    /// Opens a span at time `now_nanos`. When setup succeeded, `raw` is the
    /// register buffer that a read with result `code` filled, and its tracked
    /// values become the start sample; otherwise the readings are ignored.
    /// A second `start` replaces the first.
    pub fn start(&mut self, now_nanos: u64, code: i32, raw: &[u64])
        requires
            old(self)@.wf(),
            raw@.len() == KPC_MAX_COUNTERS,
        ensures
            final(self)@.wf(),
            final(self)@.setup == old(self)@.setup,
            final(self)@.start_clock == now_nanos,
            final(self)@.last_count == old(self)@.last_count,
            final(self)@.start_sample == if old(self)@.setup.state == SetupState::Ready {
                sample_of(old(self)@.setup.slots, code, raw@)
            } else {
                old(self)@.start_sample
            },
    {
        if self.apple_events.has_events() {
            self.diff = self.apple_events.get_counters(code, raw);
        }
        self.start_clock = now_nanos;
    }

    /// Closes the span at time `now_nanos`, with the register readings as for
    /// `start`. Returns the span's counts (zero when setup did not succeed)
    /// and the time since `start`, clamped at zero.
    pub fn end(&mut self, now_nanos: u64, code: i32, raw: &[u64]) -> (r: EventCount)
        requires
            old(self)@.wf(),
            raw@.len() == KPC_MAX_COUNTERS,
        ensures
            final(self)@ == (CollectorModel { last_count: r, ..old(self)@ }),
            holds_counters(r, old(self)@.span_counters(code, raw@)),
            r.elapsed_nanos == clamped_diff(now_nanos, old(self)@.start_clock),
    {
        let delta = if self.apple_events.has_events() {
            let end = self.apple_events.get_counters(code, raw);
            end.since(self.diff)
        } else {
            PerformanceCounters::new_u64(0, 0, 0, 0)
        };
        let elapsed = if now_nanos >= self.start_clock { now_nanos - self.start_clock } else { 0 };
        self.count = EventCount::new(elapsed, delta.cycles, delta.instructions, delta.missed_branches, delta.branches);
        self.count
    }
}

/// Degrade to zero: while setup has not succeeded (a refused permission
/// query settles it as failed), every span reports zero for all four metrics,
/// whatever the register readings.
pub proof fn lemma_unready_spans_count_zero(m: CollectorModel, code: i32, raw: Seq<u64>)
    requires
        m.setup.state != SetupState::Ready,
    ensures
        m.span_counters(code, raw) == zero_counters(),
{
}

/// With counters that only moved forward between `start` and `end`, the span
/// reports each metric's exact advance: `start + count == end`.
pub proof fn lemma_forward_span_is_exact(m: CollectorModel, code: i32, raw: Seq<u64>)
    requires
        m.setup.state == SetupState::Ready,
        forall|k: int| 0 <= k < 4 ==> #[trigger] sample_of(m.setup.slots, code, raw).metric(k) >= m.start_sample.metric(k),
    ensures
        forall|k: int| 0 <= k < 4 ==> #[trigger] m.span_counters(code, raw).metric(k) + m.start_sample.metric(k)
            == sample_of(m.setup.slots, code, raw).metric(k),
{
    lemma_forward_counters_give_exact_delta(sample_of(m.setup.slots, code, raw), m.start_sample);
}

/// A span whose end was read later on the clock than its start reports a
/// nonzero elapsed time: exactly the difference of the two readings. This
/// holds whatever the setup outcome, a refused permission included.
pub proof fn lemma_later_end_has_elapsed_time(m: CollectorModel, now_nanos: u64)
    requires
        now_nanos > m.start_clock,
    ensures
        clamped_diff(now_nanos, m.start_clock) == now_nanos - m.start_clock,
        clamped_diff(now_nanos, m.start_clock) > 0,
{
}

} // verus!
