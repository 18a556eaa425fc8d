//! The counter mapper: the one-time protocol that negotiates access to the
//! counters, resolves the tracked events, programs the registers and learns
//! which register holds which event; and the sampler that reads the tracked
//! values through that mapping.
//!
//! The protocol is a state machine. `next_step` names the backend operation
//! to perform; the caller performs it and hands the answer to `advance`.
//! Every step is a gate: a nonzero code settles the machine as `Failed`.

use vstd::prelude::*;
use crate::events::{KPC_MAX_COUNTERS, PerformanceCounters};

verus! {

/// Number of logical events tracked: cycles, instructions, branches, branch misses.
pub const TRACKED_EVENTS: usize = 4;

/// Bit of the configurable counter class in a class mask.
pub const KPC_CLASS_CONFIGURABLE_MASK: u32 = 2;

/// Where the setup protocol stands.
#[derive(Clone, Copy, Debug, PartialEq, Eq, Structural)]
pub enum SetupState {
    Uninitialized,
    Failed,
    Ready,
}

/// A backend operation that the protocol needs performed next.
#[derive(Clone, Copy, Debug, PartialEq, Eq, Structural)]
pub enum SetupStep {
    /// Ask whether the counters may be forced (needs elevated privilege).
    QueryPermission,
    /// Load the hardware event database.
    LoadDatabase,
    /// Create a configuration bound to the database.
    CreateConfig,
    /// Reserve the fixed and configurable counter classes in the configuration.
    ForceCounters,
    /// Look up candidate name `candidate` of logical event `event` in the database.
    ResolveEvent { event: usize, candidate: usize },
    /// Register the event resolved for logical event `event` in the configuration.
    AddEvent { event: usize },
    /// Read the configuration's counter-class mask.
    ReadClasses,
    /// Read how many configurable registers the configuration uses.
    ReadRegisterCount,
    /// Read the register slot of each registered event.
    ReadSlotMapping,
    /// Read the values to program into the registers.
    ReadRegisterValues,
    /// Force all counters on.
    ForceAllCounters,
    /// Program the registers with the values read (see `register_values`).
    ProgramRegisters,
    /// Enable counting for the class mask.
    EnableCounting,
    /// Enable per-thread counting for the class mask.
    EnableThreadCounting,
}

/// The backend's answer to a step; `code` is zero on success.
pub enum Reply {
    Status { code: i32 },
    Classes { code: i32, classes: u32 },
    RegisterCount { code: i32, count: usize },
    SlotMapping { code: i32, slots: Vec<usize> },
    RegisterValues { code: i32, values: Vec<u64> },
}

impl Reply {
    pub open spec fn spec_code(&self) -> i32 {
        match *self {
            Reply::Status { code } => code,
            Reply::Classes { code, .. } => code,
            Reply::RegisterCount { code, .. } => code,
            Reply::SlotMapping { code, .. } => code,
            Reply::RegisterValues { code, .. } => code,
        }
    }

    /// The backend's result code carried by the answer.
    #[verifier::when_used_as_spec(spec_code)]
    pub fn code(&self) -> (r: i32)
        ensures
            r == self.spec_code(),
    {
        match self {
            Reply::Status { code } => *code,
            Reply::Classes { code, .. } => *code,
            Reply::RegisterCount { code, .. } => *code,
            Reply::SlotMapping { code, .. } => *code,
            Reply::RegisterValues { code, .. } => *code,
        }
    }
}

/// How many candidate hardware names logical event `event` has.
pub open spec fn candidate_count(event: int) -> int {
    if event == 0 {
        3
    } else if event == 1 {
        2
    } else if event == 2 {
        3
    } else {
        4
    }
}

/// The printable name of logical event `event`.
pub open spec fn event_text(event: int) -> Seq<char> {
    if event == 0 {
        "cycles"@
    } else if event == 1 {
        "instructions"@
    } else if event == 2 {
        "branches"@
    } else {
        "branch-misses"@
    }
}

/// The hardware-database names that may count logical event `event`, in
/// the order they are tried.
pub open spec fn candidate_text(event: int, candidate: int) -> Seq<char> {
    if event == 0 {
        if candidate == 0 {
            "FIXED_CYCLES"@
        } else if candidate == 1 {
            "CPU_CLK_UNHALTED.THREAD"@
        } else {
            "CPU_CLK_UNHALTED.CORE"@
        }
    } else if event == 1 {
        if candidate == 0 {
            "FIXED_INSTRUCTIONS"@
        } else {
            "INST_RETIRED.ANY"@
        }
    } else if event == 2 {
        if candidate == 0 {
            "INST_BRANCH"@
        } else if candidate == 1 {
            "BR_INST_RETIRED.ALL_BRANCHES"@
        } else {
            "INST_RETIRED.ANY"@
        }
    } else {
        if candidate == 0 {
            "BRANCH_MISPRED_NONSPEC"@
        } else if candidate == 1 {
            "BRANCH_MISPREDICT"@
        } else if candidate == 2 {
            "BR_MISP_RETIRED.ALL_BRANCHES"@
        } else {
            "BR_INST_RETIRED.MISPRED"@
        }
    }
}

/// The printable name of logical event `event`.
pub fn event_name(event: usize) -> (r: Option<&'static str>)
    ensures
        r is Some <==> event < TRACKED_EVENTS,
        r is Some ==> r->Some_0@ == event_text(event as int),
{
    match event {
        0 => Some("cycles"),
        1 => Some("instructions"),
        2 => Some("branches"),
        3 => Some("branch-misses"),
        _ => None,
    }
}

/// Candidate `candidate` among the hardware-database names that may count
/// logical event `event`, in the order they are tried.
pub fn candidate_name(event: usize, candidate: usize) -> (r: Option<&'static str>)
    ensures
        r is Some <==> event < TRACKED_EVENTS && candidate < candidate_count(event as int),
        r is Some ==> r->Some_0@ == candidate_text(event as int, candidate as int),
{
    match (event, candidate) {
        // Apple A7-A15; Intel Core 1st-10th; Intel Yonah, Merom
        (0, 0) => Some("FIXED_CYCLES"),
        (0, 1) => Some("CPU_CLK_UNHALTED.THREAD"),
        (0, 2) => Some("CPU_CLK_UNHALTED.CORE"),
        // Apple A7-A15; Intel Yonah, Merom, Core 1st-10th
        (1, 0) => Some("FIXED_INSTRUCTIONS"),
        (1, 1) => Some("INST_RETIRED.ANY"),
        // Apple A7-A15; Intel Core 1st-10th; Intel Yonah, Merom
        (2, 0) => Some("INST_BRANCH"),
        (2, 1) => Some("BR_INST_RETIRED.ALL_BRANCHES"),
        (2, 2) => Some("INST_RETIRED.ANY"),
        // Apple since macOS 12; Apple A7-A14; Intel Core 2nd-10th; Intel Yonah, Merom
        (3, 0) => Some("BRANCH_MISPRED_NONSPEC"),
        (3, 1) => Some("BRANCH_MISPREDICT"),
        (3, 2) => Some("BR_MISP_RETIRED.ALL_BRANCHES"),
        (3, 3) => Some("BR_INST_RETIRED.MISPRED"),
        _ => None,
    }
}

/// A slot mapping usable for sampling: one register slot per tracked event,
/// each within the register buffer.
pub open spec fn slots_valid(slots: Seq<usize>) -> bool {
    &&& slots.len() >= TRACKED_EVENTS
    &&& forall|k: int| 0 <= k < TRACKED_EVENTS ==> #[trigger] slots[k] < KPC_MAX_COUNTERS
}

/// Register values usable for programming: one per register of the buffer.
pub open spec fn regs_valid(regs: Seq<u64>) -> bool {
    regs.len() >= KPC_MAX_COUNTERS
}

/// The tracked values in a register buffer read with result `code`. A failed
/// read gives the sentinel sample with every metric at one.
pub open spec fn sample_of(slots: Seq<usize>, code: i32, raw: Seq<u64>) -> PerformanceCounters {
    if code != 0 {
        PerformanceCounters { cycles: 1, branches: 1, missed_branches: 1, instructions: 1 }
    } else {
        PerformanceCounters {
            cycles: raw[slots[0] as int],
            instructions: raw[slots[1] as int],
            branches: raw[slots[2] as int],
            missed_branches: raw[slots[3] as int],
        }
    }
}

/// Position of a step in the protocol's order.
pub open spec fn position(step: SetupStep) -> int {
    match step {
        SetupStep::QueryPermission => 0,
        SetupStep::LoadDatabase => 1,
        SetupStep::CreateConfig => 2,
        SetupStep::ForceCounters => 3,
        SetupStep::ResolveEvent { event, candidate } => 4 + 8 * event + candidate,
        SetupStep::AddEvent { event } => 36 + event,
        SetupStep::ReadClasses => 40,
        SetupStep::ReadRegisterCount => 41,
        SetupStep::ReadSlotMapping => 42,
        SetupStep::ReadRegisterValues => 43,
        SetupStep::ForceAllCounters => 44,
        SetupStep::ProgramRegisters => 45,
        SetupStep::EnableCounting => 46,
        SetupStep::EnableThreadCounting => 47,
    }
}

/// The abstract state of the counter mapper.
pub struct SetupModel {
    pub state: SetupState,
    /// The pending step, meaningful while `Uninitialized`.
    pub step: SetupStep,
    /// For each logical event resolved so far, the index of the candidate name that resolved.
    pub resolved: Seq<usize>,
    pub classes: u32,
    pub reg_count: usize,
    /// Logical event index to register slot.
    pub slots: Seq<usize>,
    /// Values to program into the registers.
    pub regs: Seq<u64>,
}

impl SetupModel {
    pub open spec fn is_settled(self) -> bool {
        self.state != SetupState::Uninitialized
    }

    /// How the pending step fits with the events resolved so far.
    pub open spec fn step_wf(self) -> bool {
        match self.step {
            SetupStep::QueryPermission | SetupStep::LoadDatabase | SetupStep::CreateConfig
            | SetupStep::ForceCounters => self.resolved.len() == 0,
            SetupStep::ResolveEvent { event, candidate } => {
                &&& event < TRACKED_EVENTS
                &&& candidate < candidate_count(event as int)
                &&& self.resolved.len() == event
            },
            SetupStep::AddEvent { event } => event < TRACKED_EVENTS && self.resolved.len()
                == TRACKED_EVENTS,
            _ => self.resolved.len() == TRACKED_EVENTS,
        }
    }

    pub open spec fn wf(self) -> bool {
        &&& !self.is_settled() ==> self.step_wf()
        &&& !self.is_settled() && position(self.step) > position(SetupStep::ReadSlotMapping)
            ==> slots_valid(self.slots)
        &&& !self.is_settled() && position(self.step) > position(SetupStep::ReadRegisterValues)
            ==> regs_valid(self.regs)
        &&& self.state == SetupState::Ready ==> slots_valid(self.slots)
        &&& self.state == SetupState::Ready ==> regs_valid(self.regs)
    }

    /// Steps left before the protocol settles.
    pub open spec fn remaining(self) -> int {
        if self.is_settled() {
            0
        } else {
            48 - position(self.step)
        }
    }

    pub open spec fn fail(self) -> Self {
        SetupModel { state: SetupState::Failed, ..self }
    }

    pub open spec fn goto(self, step: SetupStep) -> Self {
        SetupModel { step, ..self }
    }

    /// The step after `step` once it succeeded, for steps whose answer is a bare status.
    pub open spec fn next_after(self, step: SetupStep) -> SetupStep {
        match step {
            SetupStep::QueryPermission => SetupStep::LoadDatabase,
            SetupStep::LoadDatabase => SetupStep::CreateConfig,
            SetupStep::CreateConfig => SetupStep::ForceCounters,
            SetupStep::ForceCounters => SetupStep::ResolveEvent { event: 0, candidate: 0 },
            SetupStep::AddEvent { event } => if event + 1 < TRACKED_EVENTS {
                SetupStep::AddEvent { event: (event + 1) as usize }
            } else {
                SetupStep::ReadClasses
            },
            SetupStep::ForceAllCounters => if self.classes & KPC_CLASS_CONFIGURABLE_MASK != 0
                && self.reg_count != 0 {
                SetupStep::ProgramRegisters
            } else {
                SetupStep::EnableCounting
            },
            SetupStep::ProgramRegisters => SetupStep::EnableCounting,
            _ => SetupStep::EnableThreadCounting,
        }
    }

    /// The state after the backend answered `reply` to the pending step.
    /// A settled state ignores every answer; an answer of the wrong kind fails.
    pub open spec fn after(self, reply: Reply) -> Self {
        if self.is_settled() {
            self
        } else {
            match self.step {
                SetupStep::ResolveEvent { event, candidate } => match reply {
                    Reply::Status { code } => if code == 0 {
                        let m = SetupModel { resolved: self.resolved.push(candidate), ..self };
                        if event + 1 < TRACKED_EVENTS {
                            m.goto(SetupStep::ResolveEvent { event: (event + 1) as usize, candidate: 0 })
                        } else {
                            m.goto(SetupStep::AddEvent { event: 0 })
                        }
                    } else if candidate + 1 < candidate_count(event as int) {
                        self.goto(SetupStep::ResolveEvent { event, candidate: (candidate + 1) as usize })
                    } else {
                        self.fail()
                    },
                    _ => self.fail(),
                },
                SetupStep::ReadClasses => match reply {
                    Reply::Classes { code, classes } => if code == 0 {
                        SetupModel { classes, step: SetupStep::ReadRegisterCount, ..self }
                    } else {
                        self.fail()
                    },
                    _ => self.fail(),
                },
                SetupStep::ReadRegisterCount => match reply {
                    Reply::RegisterCount { code, count } => if code == 0 {
                        SetupModel { reg_count: count, step: SetupStep::ReadSlotMapping, ..self }
                    } else {
                        self.fail()
                    },
                    _ => self.fail(),
                },
                SetupStep::ReadSlotMapping => match reply {
                    Reply::SlotMapping { code, slots } => if code == 0 && slots_valid(slots@) {
                        SetupModel { slots: slots@, step: SetupStep::ReadRegisterValues, ..self }
                    } else {
                        self.fail()
                    },
                    _ => self.fail(),
                },
                SetupStep::ReadRegisterValues => match reply {
                    Reply::RegisterValues { code, values } => if code == 0 && regs_valid(values@) {
                        SetupModel { regs: values@, step: SetupStep::ForceAllCounters, ..self }
                    } else {
                        self.fail()
                    },
                    _ => self.fail(),
                },
                SetupStep::EnableThreadCounting => match reply {
                    Reply::Status { code } => if code == 0 {
                        SetupModel { state: SetupState::Ready, ..self }
                    } else {
                        self.fail()
                    },
                    _ => self.fail(),
                },
                _ => match reply {
                    Reply::Status { code } => if code == 0 {
                        self.goto(self.next_after(self.step))
                    } else {
                        self.fail()
                    },
                    _ => self.fail(),
                },
            }
        }
    }
}

/// The counter mapper and sampler.
pub struct AppleEvents {
    state: SetupState,
    step: SetupStep,
    resolved: Vec<usize>,
    classes: u32,
    reg_count: usize,
    counter_map: Vec<usize>,
    regs: Vec<u64>,
}

impl View for AppleEvents {
    type V = SetupModel;

    closed spec fn view(&self) -> SetupModel {
        SetupModel {
            state: self.state,
            step: self.step,
            resolved: self.resolved@,
            classes: self.classes,
            reg_count: self.reg_count,
            slots: self.counter_map@,
            regs: self.regs@,
        }
    }
}

impl AppleEvents {
    /// A mapper that has not begun the protocol.
    pub fn new() -> (r: Self)
        ensures
            r@.state == SetupState::Uninitialized,
            r@.step == SetupStep::QueryPermission,
            r@.resolved.len() == 0,
            r@.classes == 0,
            r@.reg_count == 0,
            r@.slots.len() == KPC_MAX_COUNTERS,
            forall|i: int| 0 <= i < KPC_MAX_COUNTERS ==> #[trigger] r@.slots[i] == 0,
            r@.regs.len() == KPC_MAX_COUNTERS,
            forall|i: int| 0 <= i < KPC_MAX_COUNTERS ==> #[trigger] r@.regs[i] == 0,
            r@.wf(),
    {
        let mut counter_map: Vec<usize> = Vec::new();
        let mut regs: Vec<u64> = Vec::new();
        let mut i: usize = 0;
        while i < KPC_MAX_COUNTERS
            invariant
                i <= KPC_MAX_COUNTERS,
                counter_map@.len() == i,
                regs@.len() == i,
                forall|j: int| 0 <= j < i ==> #[trigger] counter_map@[j] == 0,
                forall|j: int| 0 <= j < i ==> #[trigger] regs@[j] == 0,
            decreases KPC_MAX_COUNTERS - i,
        {
            counter_map.push(0);
            regs.push(0);
            i += 1;
        }
        AppleEvents {
            state: SetupState::Uninitialized,
            step: SetupStep::QueryPermission,
            resolved: Vec::new(),
            classes: 0,
            reg_count: 0,
            counter_map,
            regs,
        }
    }

    pub fn setup_state(&self) -> (r: SetupState)
        ensures
            r == self@.state,
    {
        self.state
    }

    /// Whether setup succeeded and the counters can be sampled.
    pub fn has_events(&self) -> (r: bool)
        ensures
            r == (self@.state == SetupState::Ready),
    {
        self.state == SetupState::Ready
    }

    /// The backend operation to perform next, or `None` once the protocol has settled.
    pub fn next_step(&self) -> (r: Option<SetupStep>)
        ensures
            r == (if self@.is_settled() { None } else { Some(self@.step) }),
    {
        if self.state == SetupState::Uninitialized {
            Some(self.step)
        } else {
            None
        }
    }

    /// The counter-class mask read from the configuration.
    pub fn classes(&self) -> (r: u32)
        ensures
            r == self@.classes,
    {
        self.classes
    }

    /// The values to program into the registers; once setup is ready, at
    /// least one per register of the buffer.
    pub fn register_values(&self) -> (r: &Vec<u64>)
        requires
            self@.wf(),
        ensures
            r@ == self@.regs,
            self@.state == SetupState::Ready || (!self@.is_settled() && position(self@.step) > position(
                SetupStep::ReadRegisterValues,
            )) ==> r@.len() >= KPC_MAX_COUNTERS,
    {
        &self.regs
    }

    /// For each logical event, the index of the candidate name that resolved.
    pub fn resolved_candidates(&self) -> (r: &Vec<usize>)
        ensures
            r@ == self@.resolved,
    {
        &self.resolved
    }

    /// Takes the backend's answer to the pending step.
    pub fn advance(&mut self, reply: Reply)
        requires
            old(self)@.wf(),
        ensures
            final(self)@ == old(self)@.after(reply),
            final(self)@.wf(),
            final(self)@.remaining() < old(self)@.remaining() || old(self)@.is_settled(),
    {
        if self.state != SetupState::Uninitialized {
            return;
        }
        match self.step {
            SetupStep::ResolveEvent { event, candidate } => match reply {
                Reply::Status { code } => {
                    if code == 0 {
                        self.resolved.push(candidate);
                        if event + 1 < TRACKED_EVENTS {
                            self.step = SetupStep::ResolveEvent { event: event + 1, candidate: 0 };
                        } else {
                            self.step = SetupStep::AddEvent { event: 0 };
                        }
                    } else if candidate + 1 < Self::candidates(event) {
                        self.step = SetupStep::ResolveEvent { event, candidate: candidate + 1 };
                    } else {
                        self.state = SetupState::Failed;
                    }
                },
                _ => {
                    self.state = SetupState::Failed;
                },
            },
            SetupStep::ReadClasses => match reply {
                Reply::Classes { code, classes } => {
                    if code == 0 {
                        self.classes = classes;
                        self.step = SetupStep::ReadRegisterCount;
                    } else {
                        self.state = SetupState::Failed;
                    }
                },
                _ => {
                    self.state = SetupState::Failed;
                },
            },
            SetupStep::ReadRegisterCount => match reply {
                Reply::RegisterCount { code, count } => {
                    if code == 0 {
                        self.reg_count = count;
                        self.step = SetupStep::ReadSlotMapping;
                    } else {
                        self.state = SetupState::Failed;
                    }
                },
                _ => {
                    self.state = SetupState::Failed;
                },
            },
            SetupStep::ReadSlotMapping => match reply {
                Reply::SlotMapping { code, slots } => {
                    if code == 0 && Self::check_slots(&slots) {
                        self.counter_map = slots;
                        self.step = SetupStep::ReadRegisterValues;
                    } else {
                        self.state = SetupState::Failed;
                    }
                },
                _ => {
                    self.state = SetupState::Failed;
                },
            },
            SetupStep::ReadRegisterValues => match reply {
                Reply::RegisterValues { code, values } => {
                    if code == 0 && values.len() >= KPC_MAX_COUNTERS {
                        self.regs = values;
                        self.step = SetupStep::ForceAllCounters;
                    } else {
                        self.state = SetupState::Failed;
                    }
                },
                _ => {
                    self.state = SetupState::Failed;
                },
            },
            SetupStep::EnableThreadCounting => match reply {
                Reply::Status { code } => {
                    if code == 0 {
                        self.state = SetupState::Ready;
                    } else {
                        self.state = SetupState::Failed;
                    }
                },
                _ => {
                    self.state = SetupState::Failed;
                },
            },
            step => match reply {
                Reply::Status { code } => {
                    if code == 0 {
                        self.step = self.status_successor(step);
                    } else {
                        self.state = SetupState::Failed;
                    }
                },
                _ => {
                    self.state = SetupState::Failed;
                },
            },
        }
    }

    fn candidates(event: usize) -> (r: usize)
        ensures
            r == candidate_count(event as int),
    {
        if event == 0 {
            3
        } else if event == 1 {
            2
        } else if event == 2 {
            3
        } else {
            4
        }
    }

    fn check_slots(slots: &Vec<usize>) -> (r: bool)
        ensures
            r == slots_valid(slots@),
    {
        if slots.len() < TRACKED_EVENTS {
            return false;
        }
        let mut k: usize = 0;
        while k < TRACKED_EVENTS
            invariant
                k <= TRACKED_EVENTS,
                slots@.len() >= TRACKED_EVENTS,
                forall|j: int| 0 <= j < k ==> #[trigger] slots@[j] < KPC_MAX_COUNTERS,
            decreases TRACKED_EVENTS - k,
        {
            if slots[k] >= KPC_MAX_COUNTERS {
                return false;
            }
            k += 1;
        }
        true
    }

    fn status_successor(&self, step: SetupStep) -> (r: SetupStep)
        requires
            self@.wf(),
            !self@.is_settled(),
            step == self@.step,
        ensures
            r == self@.next_after(step),
    {
        match step {
            SetupStep::QueryPermission => SetupStep::LoadDatabase,
            SetupStep::LoadDatabase => SetupStep::CreateConfig,
            SetupStep::CreateConfig => SetupStep::ForceCounters,
            SetupStep::ForceCounters => SetupStep::ResolveEvent { event: 0, candidate: 0 },
            SetupStep::AddEvent { event } => if event + 1 < TRACKED_EVENTS {
                SetupStep::AddEvent { event: event + 1 }
            } else {
                SetupStep::ReadClasses
            },
            SetupStep::ForceAllCounters => if self.classes & KPC_CLASS_CONFIGURABLE_MASK != 0
                && self.reg_count != 0 {
                SetupStep::ProgramRegisters
            } else {
                SetupStep::EnableCounting
            },
            SetupStep::ProgramRegisters => SetupStep::EnableCounting,
            _ => SetupStep::EnableThreadCounting,
        }
    }

    /// The tracked values in `raw`, the register buffer that a read with
    /// result `code` filled, taken through the slot mapping.
    pub fn get_counters(&self, code: i32, raw: &[u64]) -> (r: PerformanceCounters)
        requires
            self@.wf(),
            self@.state == SetupState::Ready,
            raw@.len() == KPC_MAX_COUNTERS,
        ensures
            r == sample_of(self@.slots, code, raw@),
    {
        if code != 0 {
            return PerformanceCounters::new_u64(1, 1, 1, 1);
        }
        assert(self.counter_map@[0] < KPC_MAX_COUNTERS);
        assert(self.counter_map@[1] < KPC_MAX_COUNTERS);
        assert(self.counter_map@[2] < KPC_MAX_COUNTERS);
        assert(self.counter_map@[3] < KPC_MAX_COUNTERS);
        PerformanceCounters {
            cycles: raw[self.counter_map[0]],
            branches: raw[self.counter_map[2]],
            missed_branches: raw[self.counter_map[3]],
            instructions: raw[self.counter_map[1]],
        }
    }
}

/// Setup runs once: a settled mapper asks for no backend operation
/// (`next_step` is `None`), and any further answer leaves its state, its slot
/// mapping and its register values exactly as they were.
pub proof fn lemma_settled_setup_is_final(m: SetupModel, reply: Reply)
    requires
        m.is_settled(),
    ensures
        m.after(reply) == m,
        m.after(reply).remaining() == 0,
{
}

/// Every gate is hard: outside event resolution, a nonzero code settles the
/// protocol as `Failed`, whatever step it answers.
pub proof fn lemma_failed_gate_settles(m: SetupModel, reply: Reply)
    requires
        m.wf(),
        !m.is_settled(),
        !(m.step is ResolveEvent),
        reply.code() != 0,
    ensures
        m.after(reply).state == SetupState::Failed,
{
}

/// A refused permission query, the first gate, fails setup at once.
pub proof fn lemma_denied_permission_fails(m: SetupModel, code: i32)
    requires
        m.wf(),
        !m.is_settled(),
        m.step == SetupStep::QueryPermission,
        code != 0,
    ensures
        m.after(Reply::Status { code }).state == SetupState::Failed,
        m.after(Reply::Status { code }).is_settled(),
{
}

/// Candidate names are tried in order and the first that resolves is taken:
/// when the first name of an event fails and the second resolves, the second
/// is recorded for that event and no third name is tried.
pub proof fn lemma_first_resolving_candidate_wins(m: SetupModel, event: usize, refused: i32)
    requires
        m.wf(),
        !m.is_settled(),
        m.step == (SetupStep::ResolveEvent { event, candidate: 0 }),
        refused != 0,
    ensures
        m.after(Reply::Status { code: refused }).step == (SetupStep::ResolveEvent { event, candidate: 1 }),
        !m.after(Reply::Status { code: refused }).is_settled(),
        m.after(Reply::Status { code: refused }).after(Reply::Status { code: 0 }).resolved == m.resolved.push(1),
        m.after(Reply::Status { code: refused }).after(Reply::Status { code: 0 }).step != (SetupStep::ResolveEvent { event, candidate: 2 }),
        !m.after(Reply::Status { code: refused }).after(Reply::Status { code: 0 }).is_settled(),
{
}

} // verus!
