use kpc_counters::collector::EventCollector;
use kpc_counters::events::KPC_MAX_COUNTERS;
use kpc_counters::mapper::{candidate_name, event_name, AppleEvents, Reply, SetupState, SetupStep};

/// A stand-in for the privileged counter backend that records every call.
struct FakeBackend {
    fail_at: Option<SetupStep>,
    known_names: Vec<&'static str>,
    classes: u32,
    reg_count: usize,
    slots: Vec<usize>,
    performed: Vec<SetupStep>,
    looked_up: Vec<&'static str>,
}

impl FakeBackend {
    fn apple() -> FakeBackend {
        FakeBackend {
            fail_at: None,
            known_names: vec!["FIXED_CYCLES", "FIXED_INSTRUCTIONS", "INST_BRANCH", "BRANCH_MISPRED_NONSPEC"],
            classes: 3,
            reg_count: 2,
            slots: fake_slots(),
            performed: Vec::new(),
            looked_up: Vec::new(),
        }
    }

    fn answer(&mut self, step: SetupStep) -> Reply {
        self.performed.push(step);
        let code = if self.fail_at == Some(step) { 5 } else { 0 };
        match step {
            SetupStep::ResolveEvent { event, candidate } => {
                let name = candidate_name(event, candidate).unwrap();
                self.looked_up.push(name);
                let found = code == 0 && self.known_names.contains(&name);
                Reply::Status { code: if found { 0 } else { 2 } }
            }
            SetupStep::ReadClasses => Reply::Classes { code, classes: self.classes },
            SetupStep::ReadRegisterCount => Reply::RegisterCount { code, count: self.reg_count },
            SetupStep::ReadSlotMapping => Reply::SlotMapping { code, slots: self.slots.clone() },
            SetupStep::ReadRegisterValues => Reply::RegisterValues { code, values: vec![7; KPC_MAX_COUNTERS] },
            _ => Reply::Status { code },
        }
    }
}

/// Slots: cycles in 2, instructions in 0, branches in 5, branch misses in 6.
fn fake_slots() -> Vec<usize> {
    let mut slots = vec![0usize; KPC_MAX_COUNTERS];
    slots[0] = 2;
    slots[1] = 0;
    slots[2] = 5;
    slots[3] = 6;
    slots
}

fn drive_mapper(m: &mut AppleEvents, b: &mut FakeBackend) {
    while let Some(step) = m.next_step() {
        let reply = b.answer(step);
        m.advance(reply);
    }
}

fn drive_collector(c: &mut EventCollector, b: &mut FakeBackend) {
    while let Some(step) = c.next_setup_step() {
        let reply = b.answer(step);
        c.advance_setup(reply);
    }
}

fn registers(values: &[(usize, u64)]) -> Vec<u64> {
    let mut raw = vec![0u64; KPC_MAX_COUNTERS];
    for &(slot, v) in values {
        raw[slot] = v;
    }
    raw
}

#[test]
fn new_mapper_starts_with_permission_query() {
    let m = AppleEvents::new();
    assert_eq!(m.setup_state(), SetupState::Uninitialized);
    assert!(!m.has_events());
    assert_eq!(m.next_step(), Some(SetupStep::QueryPermission));
    assert_eq!(m.classes(), 0);
    assert_eq!(m.register_values().clone(), vec![0u64; KPC_MAX_COUNTERS]);
    assert!(m.resolved_candidates().is_empty());
}

#[test]
fn full_setup_runs_every_step_in_order() {
    let mut m = AppleEvents::new();
    let mut b = FakeBackend::apple();
    drive_mapper(&mut m, &mut b);
    assert_eq!(m.setup_state(), SetupState::Ready);
    assert!(m.has_events());
    let expected = vec![
        SetupStep::QueryPermission,
        SetupStep::LoadDatabase,
        SetupStep::CreateConfig,
        SetupStep::ForceCounters,
        SetupStep::ResolveEvent { event: 0, candidate: 0 },
        SetupStep::ResolveEvent { event: 1, candidate: 0 },
        SetupStep::ResolveEvent { event: 2, candidate: 0 },
        SetupStep::ResolveEvent { event: 3, candidate: 0 },
        SetupStep::AddEvent { event: 0 },
        SetupStep::AddEvent { event: 1 },
        SetupStep::AddEvent { event: 2 },
        SetupStep::AddEvent { event: 3 },
        SetupStep::ReadClasses,
        SetupStep::ReadRegisterCount,
        SetupStep::ReadSlotMapping,
        SetupStep::ReadRegisterValues,
        SetupStep::ForceAllCounters,
        SetupStep::ProgramRegisters,
        SetupStep::EnableCounting,
        SetupStep::EnableThreadCounting,
    ];
    assert_eq!(b.performed, expected);
    assert_eq!(m.classes(), 3);
    assert_eq!(m.register_values().len(), KPC_MAX_COUNTERS);
    assert_eq!(m.register_values()[0], 7);
    assert_eq!(m.resolved_candidates().clone(), vec![0, 0, 0, 0]);
}

#[test]
fn registers_are_not_programmed_without_configurable_class() {
    let mut m = AppleEvents::new();
    let mut b = FakeBackend::apple();
    b.classes = 1;
    drive_mapper(&mut m, &mut b);
    assert_eq!(m.setup_state(), SetupState::Ready);
    assert!(!b.performed.contains(&SetupStep::ProgramRegisters));
    assert!(b.performed.contains(&SetupStep::EnableThreadCounting));
}

#[test]
fn registers_are_not_programmed_when_none_in_use() {
    let mut m = AppleEvents::new();
    let mut b = FakeBackend::apple();
    b.reg_count = 0;
    drive_mapper(&mut m, &mut b);
    assert_eq!(m.setup_state(), SetupState::Ready);
    assert!(!b.performed.contains(&SetupStep::ProgramRegisters));
}

#[test]
fn setup_twice_does_not_repeat_backend_calls() {
    let mut c = EventCollector::new();
    let mut b = FakeBackend::apple();
    drive_collector(&mut c, &mut b);
    let calls = b.performed.len();
    let first = c.events().setup_state();
    drive_collector(&mut c, &mut b);
    assert_eq!(b.performed.len(), calls);
    assert_eq!(c.events().setup_state(), first);
    assert_eq!(c.next_setup_step(), None);
}

#[test]
fn settled_mapper_ignores_further_answers() {
    let mut m = AppleEvents::new();
    let mut b = FakeBackend::apple();
    drive_mapper(&mut m, &mut b);
    m.advance(Reply::Status { code: 9 });
    m.advance(Reply::SlotMapping { code: 0, slots: vec![31; KPC_MAX_COUNTERS] });
    assert_eq!(m.setup_state(), SetupState::Ready);
    let raw = registers(&[(2, 100), (0, 200), (5, 300), (6, 400)]);
    let s = m.get_counters(0, &raw);
    assert_eq!(s.cycles, 100);
}

#[test]
fn permission_denied_fails_at_first_gate() {
    let mut m = AppleEvents::new();
    let mut b = FakeBackend::apple();
    b.fail_at = Some(SetupStep::QueryPermission);
    drive_mapper(&mut m, &mut b);
    assert_eq!(m.setup_state(), SetupState::Failed);
    assert_eq!(b.performed, vec![SetupStep::QueryPermission]);
}

#[test]
fn permission_denied_spans_count_zero() {
    let mut c = EventCollector::new();
    let mut b = FakeBackend::apple();
    b.fail_at = Some(SetupStep::QueryPermission);
    drive_collector(&mut c, &mut b);
    assert!(!c.has_events());
    let raw = registers(&[(2, 1000), (0, 2000), (5, 3000), (6, 4000)]);
    c.start(1_000, 0, &raw);
    let later = registers(&[(2, 5000), (0, 6000), (5, 7000), (6, 8000)]);
    let d = c.end(1_250, 0, &later);
    assert_eq!(d.cycles(), 0);
    assert_eq!(d.instructions(), 0);
    assert_eq!(d.missed_branches(), 0);
    assert_eq!(d.branches(), 0);
    assert_eq!(d.elapsed_nanos(), 250);
}

#[test]
fn every_gate_failure_settles_as_failed() {
    let gates = vec![
        SetupStep::LoadDatabase,
        SetupStep::CreateConfig,
        SetupStep::ForceCounters,
        SetupStep::AddEvent { event: 0 },
        SetupStep::AddEvent { event: 3 },
        SetupStep::ReadClasses,
        SetupStep::ReadRegisterCount,
        SetupStep::ReadSlotMapping,
        SetupStep::ReadRegisterValues,
        SetupStep::ForceAllCounters,
        SetupStep::ProgramRegisters,
        SetupStep::EnableCounting,
        SetupStep::EnableThreadCounting,
    ];
    for gate in gates {
        let mut m = AppleEvents::new();
        let mut b = FakeBackend::apple();
        b.fail_at = Some(gate);
        drive_mapper(&mut m, &mut b);
        assert_eq!(m.setup_state(), SetupState::Failed, "gate {:?}", gate);
        assert_eq!(*b.performed.last().unwrap(), gate);
    }
}

#[test]
fn second_candidate_resolves_and_third_is_not_tried() {
    let mut m = AppleEvents::new();
    let mut b = FakeBackend::apple();
    b.known_names = vec!["CPU_CLK_UNHALTED.THREAD", "CPU_CLK_UNHALTED.CORE", "INST_RETIRED.ANY", "BR_INST_RETIRED.ALL_BRANCHES", "BR_MISP_RETIRED.ALL_BRANCHES"];
    drive_mapper(&mut m, &mut b);
    assert_eq!(m.setup_state(), SetupState::Ready);
    assert_eq!(m.resolved_candidates().clone(), vec![1, 1, 1, 2]);
    assert_eq!(
        b.looked_up,
        vec![
            "FIXED_CYCLES",
            "CPU_CLK_UNHALTED.THREAD",
            "FIXED_INSTRUCTIONS",
            "INST_RETIRED.ANY",
            "INST_BRANCH",
            "BR_INST_RETIRED.ALL_BRANCHES",
            "BRANCH_MISPRED_NONSPEC",
            "BRANCH_MISPREDICT",
            "BR_MISP_RETIRED.ALL_BRANCHES",
        ]
    );
    assert!(!b.looked_up.contains(&"CPU_CLK_UNHALTED.CORE"));
}

#[test]
fn unresolvable_event_fails_setup() {
    let mut m = AppleEvents::new();
    let mut b = FakeBackend::apple();
    b.known_names = vec!["FIXED_CYCLES", "FIXED_INSTRUCTIONS", "INST_BRANCH"];
    drive_mapper(&mut m, &mut b);
    assert_eq!(m.setup_state(), SetupState::Failed);
    assert_eq!(b.looked_up.len(), 3 + 4);
    assert!(!b.performed.iter().any(|s| matches!(s, SetupStep::AddEvent { .. })));
}

#[test]
fn slot_outside_register_buffer_fails_setup() {
    let mut m = AppleEvents::new();
    let mut b = FakeBackend::apple();
    b.slots[3] = KPC_MAX_COUNTERS;
    drive_mapper(&mut m, &mut b);
    assert_eq!(m.setup_state(), SetupState::Failed);
    assert_eq!(*b.performed.last().unwrap(), SetupStep::ReadSlotMapping);
}

#[test]
fn short_slot_mapping_fails_setup() {
    let mut m = AppleEvents::new();
    let mut b = FakeBackend::apple();
    b.slots = vec![0, 1, 2];
    drive_mapper(&mut m, &mut b);
    assert_eq!(m.setup_state(), SetupState::Failed);
}

#[test]
fn answer_of_wrong_kind_fails_setup() {
    let mut m = AppleEvents::new();
    m.advance(Reply::Classes { code: 0, classes: 3 });
    assert_eq!(m.setup_state(), SetupState::Failed);
    assert_eq!(m.next_step(), None);
}

#[test]
fn candidate_names_in_declared_order() {
    assert_eq!(candidate_name(0, 0), Some("FIXED_CYCLES"));
    assert_eq!(candidate_name(0, 2), Some("CPU_CLK_UNHALTED.CORE"));
    assert_eq!(candidate_name(0, 3), None);
    assert_eq!(candidate_name(1, 1), Some("INST_RETIRED.ANY"));
    assert_eq!(candidate_name(1, 2), None);
    assert_eq!(candidate_name(2, 2), Some("INST_RETIRED.ANY"));
    assert_eq!(candidate_name(3, 3), Some("BR_INST_RETIRED.MISPRED"));
    assert_eq!(candidate_name(3, 4), None);
    assert_eq!(candidate_name(4, 0), None);
    assert_eq!(event_name(0), Some("cycles"));
    assert_eq!(event_name(3), Some("branch-misses"));
    assert_eq!(event_name(4), None);
}

#[test]
fn sampler_reads_through_slot_mapping() {
    let mut m = AppleEvents::new();
    let mut b = FakeBackend::apple();
    drive_mapper(&mut m, &mut b);
    let raw = registers(&[(2, 11), (0, 22), (5, 33), (6, 44)]);
    let s = m.get_counters(0, &raw);
    assert_eq!(s.cycles, 11);
    assert_eq!(s.instructions, 22);
    assert_eq!(s.branches, 33);
    assert_eq!(s.missed_branches, 44);
}

#[test]
fn failed_read_gives_sentinel_of_ones() {
    let mut m = AppleEvents::new();
    let mut b = FakeBackend::apple();
    drive_mapper(&mut m, &mut b);
    let raw = registers(&[(2, 11), (0, 22), (5, 33), (6, 44)]);
    let s = m.get_counters(-1, &raw);
    assert_eq!((s.cycles, s.branches, s.missed_branches, s.instructions), (1, 1, 1, 1));
}

#[test]
fn span_delta_from_two_samples() {
    let mut c = EventCollector::new();
    let mut b = FakeBackend::apple();
    drive_collector(&mut c, &mut b);
    assert!(c.has_events());
    c.start(10_000, 0, &registers(&[(2, 100), (0, 200), (5, 30), (6, 4)]));
    let d = c.end(13_500, 0, &registers(&[(2, 1100), (0, 2700), (5, 95), (6, 9)]));
    assert_eq!(d.cycles(), 1000);
    assert_eq!(d.instructions(), 2500);
    assert_eq!(d.branches(), 65);
    assert_eq!(d.missed_branches(), 5);
    assert_eq!(d.event_counts[3], 0);
    assert_eq!(d.elapsed_nanos(), 3500);
}

#[test]
fn last_start_wins() {
    let mut c = EventCollector::new();
    let mut b = FakeBackend::apple();
    drive_collector(&mut c, &mut b);
    c.start(0, 0, &registers(&[(2, 10)]));
    c.start(500, 0, &registers(&[(2, 40)]));
    let d = c.end(800, 0, &registers(&[(2, 50)]));
    assert_eq!(d.cycles(), 10);
    assert_eq!(d.elapsed_nanos(), 300);
}

#[test]
fn backwards_counter_clamps_to_zero() {
    let mut c = EventCollector::new();
    let mut b = FakeBackend::apple();
    drive_collector(&mut c, &mut b);
    c.start(900, 0, &registers(&[(2, 50), (0, 10)]));
    let d = c.end(100, 0, &registers(&[(2, 20), (0, 15)]));
    assert_eq!(d.cycles(), 0);
    assert_eq!(d.instructions(), 5);
    assert_eq!(d.elapsed_nanos(), 0);
}

#[test]
fn failed_read_at_start_counts_from_one() {
    let mut c = EventCollector::new();
    let mut b = FakeBackend::apple();
    drive_collector(&mut c, &mut b);
    c.start(0, 3, &registers(&[(2, 500)]));
    let d = c.end(10, 0, &registers(&[(2, 21), (0, 1), (5, 0), (6, 2)]));
    assert_eq!(d.cycles(), 20);
    assert_eq!(d.instructions(), 0);
    assert_eq!(d.branches(), 0);
    assert_eq!(d.missed_branches(), 1);
}

#[test]
fn reply_code_of_each_answer_kind() {
    assert_eq!(Reply::Status { code: 4 }.code(), 4);
    assert_eq!(Reply::Classes { code: -2, classes: 3 }.code(), -2);
    assert_eq!(Reply::RegisterCount { code: 0, count: 6 }.code(), 0);
    assert_eq!(Reply::SlotMapping { code: 7, slots: vec![1] }.code(), 7);
    assert_eq!(Reply::RegisterValues { code: 1, values: Vec::new() }.code(), 1);
}

#[test]
fn short_register_values_fail_setup() {
    let mut m = AppleEvents::new();
    let mut b = FakeBackend::apple();
    while let Some(step) = m.next_step() {
        let reply = match step {
            SetupStep::ReadRegisterValues => Reply::RegisterValues { code: 0, values: vec![7; KPC_MAX_COUNTERS - 1] },
            _ => b.answer(step),
        };
        m.advance(reply);
    }
    assert_eq!(m.setup_state(), SetupState::Failed);
    assert!(!b.performed.contains(&SetupStep::ForceAllCounters));
}

#[test]
fn new_collector_starts_idle_with_zero_count() {
    let c = EventCollector::new();
    assert!(!c.has_events());
    assert_eq!(c.next_setup_step(), Some(SetupStep::QueryPermission));
    assert_eq!(c.events().register_values().len(), KPC_MAX_COUNTERS);
}

#[test]
fn denied_permission_span_reports_clock_difference() {
    let mut c = EventCollector::new();
    let mut b = FakeBackend::apple();
    b.fail_at = Some(SetupStep::QueryPermission);
    drive_collector(&mut c, &mut b);
    let raw = registers(&[]);
    c.start(5, 0, &raw);
    let d = c.end(6, 0, &raw);
    assert_eq!(d.elapsed_nanos(), 1);
    assert_eq!(d.event_counts, [0; 5]);
}
