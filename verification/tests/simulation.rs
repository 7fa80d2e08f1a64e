use fault_simulation::{
    BackendOp, FaultType, Hook, HookEvent, HookKind, Image, Next, Phase, RunRequest, RunState,
    Simulation, SimulationData, Step, TraceRecord,
};
use std::collections::HashMap;

const BASE: u64 = 0x0800_0000;
const SUCCESS: u64 = 0xAAAA_AAAA;

// nop; bl (4 bytes); bx lr; mov.w (4 bytes); movs; nop
const CODE: [u8; 16] = [
    0x00, 0xBF, 0x00, 0xF0, 0x01, 0xF8, 0x70, 0x47, 0x4F, 0xEA, 0x00, 0x00, 0x01, 0x20, 0x00,
    0xBF,
];

fn sample() -> Image {
    Image {
        load_address: BASE,
        program: CODE.to_vec(),
        file_size: 16,
        memory_size: 16,
        flash_load_img: BASE + 12,
        serial_puts: BASE + 9,
        auth_success: SUCCESS,
    }
}

fn simulation() -> Simulation {
    let image = sample();
    assert!(image.is_valid());
    Simulation::new(&image).0
}

fn site(address: u64, fault_type: FaultType) -> SimulationData {
    SimulationData { address, size: 2, count: 1, fault_type }
}

fn full_run() -> RunRequest {
    RunRequest { begin: BASE | 1, until: (BASE + 16) | 1, timeout: 1_000_000, count: 2000 }
}

fn load_ops() -> Vec<BackendOp> {
    vec![
        BackendOp::InitRegisters { stack_pointer: 0x8010_FFFC },
        BackendOp::WriteMemory { address: BASE, data: CODE.to_vec() },
    ]
}

fn clean_code() -> Vec<u8> {
    let mut code = vec![0u8; 0x1000];
    code[..16].copy_from_slice(&CODE);
    code[8] = 0x70;
    code[9] = 0x47;
    code
}

fn expect_run(step: &Step) -> RunRequest {
    match step.next {
        Next::Run(request) => request,
        _ => panic!("a run was expected: {:?}", step.next),
    }
}

#[test]
fn setup_maps_memory_then_installs_the_session_hooks() {
    let (sim, ops) = Simulation::new(&sample());
    assert_eq!(ops.len(), 7);
    for (op, region) in ops.iter().zip(sample().regions().iter()) {
        assert_eq!(*op, BackendOp::MapMemory(*region));
    }
    assert_eq!(
        ops[5],
        BackendOp::AddSystemHook(Hook { kind: HookKind::FlashLoad, begin: BASE + 12, end: BASE + 13 })
    );
    assert_eq!(
        ops[6],
        BackendOp::AddSystemHook(Hook {
            kind: HookKind::AuthWrite,
            begin: 0x0AA0_1000,
            end: 0x0AA0_1004
        })
    );
    assert_eq!(sim.phase(), Phase::Idle);
    assert_eq!(sim.get_state(), RunState::Init);
}

#[test]
fn check_program_passes_on_success_then_failure() {
    let mut sim = simulation();
    let step = sim.check_program();
    assert_eq!(step.ops, load_ops());
    assert_eq!(expect_run(&step), full_run());
    assert_eq!(sim.phase(), Phase::CheckPositive);
    assert_eq!(sim.hook_fired(HookEvent::FlashLoad), vec![BackendOp::Stop]);
    assert_eq!(sim.get_state(), RunState::Success);

    let step = sim.resume(BASE + 12, true);
    assert_eq!(step.ops, load_ops());
    assert_eq!(expect_run(&step), full_run());
    assert_eq!(sim.phase(), Phase::CheckNegative);
    assert_eq!(sim.get_state(), RunState::Init);
    sim.hook_fired(HookEvent::FlashLoad);
    assert_eq!(sim.get_state(), RunState::Failed);

    let step = sim.resume(BASE + 12, true);
    assert!(step.ops.is_empty());
    assert!(matches!(step.next, Next::Checked(true)));
    assert_eq!(sim.phase(), Phase::Idle);
}

#[test]
fn check_program_is_repeatable() {
    let mut sim = simulation();
    for _ in 0..2 {
        sim.check_program();
        sim.hook_fired(HookEvent::FlashLoad);
        let positive = sim.get_state();
        sim.resume(BASE + 12, true);
        sim.hook_fired(HookEvent::FlashLoad);
        let negative = sim.get_state();
        let step = sim.resume(BASE + 12, true);
        assert_eq!(positive, RunState::Success);
        assert_eq!(negative, RunState::Failed);
        assert!(matches!(step.next, Next::Checked(true)));
    }
}

#[test]
fn check_program_fails_when_the_positive_run_does_not_succeed() {
    let mut sim = simulation();
    sim.check_program();
    // No hook fires: the run ends without a verdict.
    let step = sim.resume(BASE + 16, true);
    assert!(step.ops.is_empty());
    assert!(matches!(step.next, Next::Checked(false)));
    assert_eq!(sim.get_state(), RunState::Error);
    assert_eq!(sim.phase(), Phase::Idle);
}

#[test]
fn check_program_fails_when_the_negative_run_succeeds() {
    let mut sim = simulation();
    sim.check_program();
    sim.hook_fired(HookEvent::AuthWrite(SUCCESS));
    sim.resume(BASE + 12, true);
    sim.hook_fired(HookEvent::AuthWrite(SUCCESS));
    let step = sim.resume(BASE + 12, true);
    assert!(matches!(step.next, Next::Checked(false)));
}

#[test]
fn check_program_fails_on_an_emulator_error() {
    let mut sim = simulation();
    sim.check_program();
    let step = sim.resume(BASE, false);
    assert!(matches!(step.next, Next::Checked(false)));
    assert_eq!(sim.get_state(), RunState::Error);
}

#[test]
fn resume_without_a_task_does_nothing() {
    let mut sim = simulation();
    let step = sim.resume(BASE, true);
    assert!(step.ops.is_empty());
    assert!(matches!(step.next, Next::Idle));
    assert_eq!(sim.phase(), Phase::Idle);
}

#[test]
fn a_trace_lists_every_executed_address_with_its_count() {
    let mut sim = simulation();
    let step = sim.record_code_trace(vec![]);
    let mut expected = load_ops();
    expected.push(BackendOp::WriteMemory { address: BASE + 8, data: vec![0x70, 0x47] });
    expected.push(BackendOp::AddUsageHook(Hook {
        kind: HookKind::Trace,
        begin: BASE,
        end: BASE + 16,
    }));
    assert_eq!(step.ops, expected);
    assert_eq!(expect_run(&step), full_run());
    assert_eq!(sim.phase(), Phase::Trace);

    // A loop over three addresses runs four times, then the program goes on.
    for _ in 0..4 {
        for address in [BASE, BASE + 2, BASE + 6] {
            assert!(sim.hook_fired(HookEvent::Trace(address)).is_empty());
        }
    }
    sim.hook_fired(HookEvent::Trace(BASE + 12));
    sim.hook_fired(HookEvent::FlashLoad);

    let step = sim.resume(BASE + 12, true);
    assert_eq!(step.ops, vec![BackendOp::RemoveUsageHooks]);
    let mut list = match step.next {
        Next::Traced(list) => list,
        other => panic!("a trace was expected: {:?}", other),
    };
    list.sort_by_key(|candidate| candidate.address);
    assert_eq!(
        list,
        vec![
            SimulationData {
                address: BASE,
                size: 2,
                count: 4,
                fault_type: FaultType::Uninitialized
            },
            SimulationData {
                address: BASE + 2,
                size: 4,
                count: 4,
                fault_type: FaultType::Uninitialized
            },
            SimulationData {
                address: BASE + 6,
                size: 2,
                count: 4,
                fault_type: FaultType::Uninitialized
            },
            SimulationData {
                address: BASE + 12,
                size: 2,
                count: 1,
                fault_type: FaultType::Uninitialized
            },
        ]
    );
    assert_eq!(sim.phase(), Phase::Idle);
    assert!(sim.session().get_fault_data().is_empty());
}

#[test]
fn a_trace_with_a_fault_in_place() {
    let mut sim = simulation();
    let step = sim.record_code_trace(vec![site(BASE + 2, FaultType::NopCached(1))]);
    expect_run(&step);
    assert_eq!(sim.session().get_fault_data().len(), 1);
    sim.hook_fired(HookEvent::Trace(BASE));
    let ops = sim.hook_fired(HookEvent::Trace(BASE + 2));
    assert_eq!(
        ops,
        vec![BackendOp::WriteMemory { address: BASE + 2, data: vec![0x00, 0xBF, 0x00, 0xBF] }]
    );
    sim.hook_fired(HookEvent::Trace(BASE + 4));
    let step = sim.resume(BASE + 6, true);
    let list = match step.next {
        Next::Traced(list) => list,
        other => panic!("a trace was expected: {:?}", other),
    };
    assert_eq!(list.len(), 3);
    let at = |address: u64| *list.iter().find(|c| c.address == address).unwrap();
    assert_eq!(at(BASE + 2).size, 2);
    assert_eq!(at(BASE + 4).size, 2);
}

#[test]
fn a_trace_whose_fault_cannot_be_installed_does_not_run() {
    let mut sim = simulation();
    let step = sim.record_code_trace(vec![site(BASE + 0x2000, FaultType::NopCached(1))]);
    assert_eq!(step.ops.last(), Some(&BackendOp::RemoveUsageHooks));
    match step.next {
        Next::Traced(list) => assert!(list.is_empty()),
        other => panic!("a trace was expected: {:?}", other),
    }
    assert_eq!(sim.get_state(), RunState::Error);
    assert_eq!(sim.phase(), Phase::Idle);
}

#[test]
fn convert_lists_the_trace_without_fault_kinds() {
    let mut trace = HashMap::new();
    trace.insert(0x10u64, TraceRecord { size: 2, count: 7 });
    trace.insert(0x20u64, TraceRecord { size: 4, count: 1 });
    let sim = simulation();
    let mut list = sim.convert(trace);
    list.sort_by_key(|candidate| candidate.address);
    assert_eq!(
        list,
        vec![
            SimulationData {
                address: 0x10,
                size: 2,
                count: 7,
                fault_type: FaultType::Uninitialized
            },
            SimulationData {
                address: 0x20,
                size: 4,
                count: 1,
                fault_type: FaultType::Uninitialized
            },
        ]
    );
    assert!(sim.convert(HashMap::new()).is_empty());
}

#[test]
fn a_campaign_keeps_the_faults_of_the_successful_trial_only() {
    let mut sim = simulation();
    let fails = site(BASE, FaultType::NopCached(1));
    let succeeds = site(BASE + 2, FaultType::NopCached(1));
    let step = sim.run_with_faults(vec![vec![fails], vec![succeeds]]);

    let mut expected = load_ops();
    expected.push(BackendOp::WriteMemory { address: BASE + 8, data: vec![0x70, 0x47] });
    expected.push(BackendOp::InitRegisters { stack_pointer: 0x8010_FFFC });
    expected.push(BackendOp::SaveContext);
    expected.push(BackendOp::RestoreContext);
    expected.push(BackendOp::WriteMemory { address: BASE, data: clean_code() });
    expected.push(BackendOp::AddUsageHook(Hook { kind: HookKind::Fault, begin: BASE, end: BASE }));
    assert_eq!(step.ops, expected);
    assert_eq!(expect_run(&step), full_run());
    assert_eq!(sim.phase(), Phase::Campaign);

    // First trial: the fault fires, the target reports a failed check.
    assert_eq!(
        sim.hook_fired(HookEvent::Fault(BASE)),
        vec![BackendOp::WriteMemory { address: BASE, data: vec![0x00, 0xBF] }]
    );
    sim.hook_fired(HookEvent::AuthWrite(0x5555_5555));
    assert_eq!(sim.get_state(), RunState::Failed);
    let step = sim.resume(BASE + 14, true);
    assert_eq!(
        step.ops,
        vec![
            BackendOp::RemoveUsageHooks,
            BackendOp::RestoreContext,
            BackendOp::WriteMemory { address: BASE, data: clean_code() },
            BackendOp::AddUsageHook(Hook {
                kind: HookKind::Fault,
                begin: BASE + 2,
                end: BASE + 2
            }),
        ]
    );
    // The second trial starts where the first one started.
    assert_eq!(expect_run(&step), full_run());
    assert_eq!(sim.get_state(), RunState::Init);
    assert_eq!(sim.session().code_memory(), clean_code());

    // Second trial: the fault fires, the target reports a passed check.
    sim.hook_fired(HookEvent::Fault(BASE + 2));
    sim.hook_fired(HookEvent::AuthWrite(SUCCESS));
    let step = sim.resume(BASE + 14, true);
    assert_eq!(step.ops, vec![BackendOp::RemoveUsageHooks]);
    let found = match step.next {
        Next::Faults(Some(found)) => found,
        other => panic!("faults were expected: {:?}", other),
    };
    assert_eq!(found.len(), 1);
    assert_eq!(found[0].len(), 1);
    assert_eq!(found[0][0].fault, succeeds);
    assert_eq!(found[0][0].data, vec![0x00, 0xF0, 0x01, 0xF8]);
    assert_eq!(found[0][0].data_changed, vec![0x00, 0xBF, 0x00, 0xBF]);
    assert_eq!(sim.phase(), Phase::Idle);
    assert!(sim.session().get_fault_data().is_empty());
}

#[test]
fn a_campaign_without_success_returns_nothing() {
    let mut sim = simulation();
    let step = sim.run_with_faults(vec![
        vec![site(BASE, FaultType::NopCached(1))],
        vec![site(BASE + 6, FaultType::BitFlipCached(3))],
    ]);
    expect_run(&step);
    sim.hook_fired(HookEvent::FlashLoad);
    let step = sim.resume(BASE + 12, true);
    expect_run(&step);
    // The second trial uses up its budget without a verdict.
    let step = sim.resume(BASE + 4, true);
    assert!(matches!(step.next, Next::Faults(None)));
    assert_eq!(sim.phase(), Phase::Idle);
}

#[test]
fn a_campaign_without_trials_returns_nothing() {
    let mut sim = simulation();
    let step = sim.run_with_faults(vec![]);
    assert!(matches!(step.next, Next::Faults(None)));
    assert_eq!(step.ops.last(), Some(&BackendOp::SaveContext));
    assert_eq!(sim.phase(), Phase::Idle);
}

#[test]
fn a_trial_of_simultaneous_faults_keeps_all_of_them() {
    let mut sim = simulation();
    let first = site(BASE, FaultType::NopCached(1));
    let second = site(BASE + 6, FaultType::BitFlipCached(8));
    let step = sim.run_with_faults(vec![vec![first, second]]);
    expect_run(&step);
    sim.hook_fired(HookEvent::Fault(BASE));
    sim.hook_fired(HookEvent::Fault(BASE + 6));
    sim.hook_fired(HookEvent::AuthWrite(SUCCESS));
    let step = sim.resume(BASE + 14, true);
    let found = match step.next {
        Next::Faults(Some(found)) => found,
        other => panic!("faults were expected: {:?}", other),
    };
    assert_eq!(found.len(), 1);
    assert_eq!(found[0].len(), 2);
    assert_eq!(found[0][0].fault, first);
    assert_eq!(found[0][1].fault, second);
    assert_eq!(found[0][1].data, vec![0x70, 0x47]);
    assert_eq!(found[0][1].data_changed, vec![0x70, 0x46]);
}

#[test]
fn successful_trials_are_kept_in_the_order_of_submission() {
    let mut sim = simulation();
    let sites = [
        site(BASE, FaultType::NopCached(1)),
        site(BASE + 2, FaultType::NopCached(1)),
        site(BASE + 6, FaultType::NopCached(1)),
    ];
    let step = sim.run_with_faults(sites.iter().map(|s| vec![*s]).collect());
    expect_run(&step);
    sim.hook_fired(HookEvent::AuthWrite(SUCCESS));
    expect_run(&sim.resume(BASE, true));
    sim.hook_fired(HookEvent::AuthWrite(0));
    expect_run(&sim.resume(BASE, true));
    sim.hook_fired(HookEvent::AuthWrite(SUCCESS));
    let step = sim.resume(BASE, true);
    let found = match step.next {
        Next::Faults(Some(found)) => found,
        other => panic!("faults were expected: {:?}", other),
    };
    assert_eq!(found.len(), 2);
    assert_eq!(found[0][0].fault, sites[0]);
    assert_eq!(found[1][0].fault, sites[2]);
}

#[test]
fn a_mutation_does_not_leak_into_the_next_trial() {
    let mut sim = simulation();
    // Both trials hit the same wide instruction; the second must capture the
    // bytes of the program, not the no-operations of the first.
    let step = sim.run_with_faults(vec![
        vec![site(BASE + 2, FaultType::NopCached(1))],
        vec![site(BASE + 2, FaultType::BitFlipCached(0))],
    ]);
    expect_run(&step);
    sim.hook_fired(HookEvent::Fault(BASE + 2));
    assert_eq!(sim.session().code_memory()[2..6], [0x00, 0xBF, 0x00, 0xBF]);
    sim.hook_fired(HookEvent::AuthWrite(0));
    expect_run(&sim.resume(BASE + 8, true));
    assert_eq!(sim.session().code_memory()[2..6], [0x00, 0xF0, 0x01, 0xF8]);
    let faults = sim.session().get_fault_data();
    assert_eq!(faults.len(), 1);
    assert_eq!(faults[0].data, vec![0x00, 0xF0, 0x01, 0xF8]);
    assert_eq!(faults[0].data_changed, vec![0x01, 0xF0, 0x01, 0xF8]);
}

#[test]
fn a_trial_whose_fault_cannot_be_installed_is_passed_over() {
    let mut sim = simulation();
    let good = site(BASE, FaultType::NopCached(1));
    let step = sim.run_with_faults(vec![
        vec![site(BASE + 0x4000, FaultType::NopCached(1))],
        vec![good, site(BASE + 6, FaultType::BitFlipCached(99))],
        vec![good],
    ]);
    // The first two trials end at once; the third runs.
    let removed = step.ops.iter().filter(|op| **op == BackendOp::RemoveUsageHooks).count();
    assert_eq!(removed, 2);
    expect_run(&step);
    assert_eq!(sim.get_state(), RunState::Init);
    assert_eq!(sim.session().get_fault_data().len(), 1);
    sim.hook_fired(HookEvent::AuthWrite(SUCCESS));
    let step = sim.resume(BASE, true);
    let found = match step.next {
        Next::Faults(Some(found)) => found,
        other => panic!("faults were expected: {:?}", other),
    };
    assert_eq!(found.len(), 1);
    assert_eq!(found[0][0].fault, good);
}

#[test]
fn a_campaign_of_uninstallable_trials_ends_at_once() {
    let mut sim = simulation();
    let step = sim.run_with_faults(vec![
        vec![site(BASE + 0x4000, FaultType::NopCached(1))],
        vec![site(BASE + 0x4000, FaultType::BitFlipCached(1))],
    ]);
    assert!(matches!(step.next, Next::Faults(None)));
    assert_eq!(sim.phase(), Phase::Idle);
    assert_eq!(sim.get_state(), RunState::Error);
}

#[test]
fn the_trace_is_not_changed_by_a_campaign() {
    let mut sim = simulation();
    expect_run(&sim.record_code_trace(vec![]));
    sim.hook_fired(HookEvent::Trace(BASE));
    sim.hook_fired(HookEvent::Trace(BASE + 2));
    sim.resume(BASE + 6, true);
    let before = sim.session().get_trace();
    expect_run(&sim.run_with_faults(vec![vec![site(BASE, FaultType::NopCached(2))]]));
    sim.hook_fired(HookEvent::Fault(BASE));
    sim.hook_fired(HookEvent::AuthWrite(SUCCESS));
    sim.resume(BASE + 6, true);
    assert_eq!(sim.session().get_trace(), before);
}

#[test]
fn serial_output_is_printed_until_it_is_suppressed() {
    let mut sim = simulation();
    assert_eq!(sim.serial_written(0x48), Some(0x48));
    sim.record_code_trace(vec![]);
    assert_eq!(sim.serial_written(0x48), None);
}

#[test]
fn starting_anew_removes_the_hooks_of_the_trial_under_way() {
    let mut sim = simulation();
    expect_run(&sim.run_with_faults(vec![vec![site(BASE, FaultType::NopCached(1))]]));
    assert_eq!(sim.session().get_fault_data().len(), 1);
    let step = sim.check_program();
    let mut expected = vec![BackendOp::RemoveUsageHooks];
    expected.extend(load_ops());
    assert_eq!(step.ops, expected);
    assert!(sim.session().get_fault_data().is_empty());
    assert_eq!(sim.phase(), Phase::CheckPositive);
    // The fault of the abandoned trial no longer fires.
    assert!(sim.hook_fired(HookEvent::Fault(BASE)).is_empty());
}

#[test]
fn starting_anew_after_a_trace_removes_its_hook() {
    let mut sim = simulation();
    expect_run(&sim.record_code_trace(vec![]));
    let step = sim.record_code_trace(vec![]);
    assert_eq!(step.ops.first(), Some(&BackendOp::RemoveUsageHooks));
    assert_eq!(step.ops.iter().filter(|op| matches!(op, BackendOp::AddUsageHook(_))).count(), 1);
    assert_eq!(sim.phase(), Phase::Trace);
}

#[test]
fn teardown_removes_every_hook() {
    let mut sim = simulation();
    assert_eq!(sim.teardown(), vec![BackendOp::RemoveSystemHooks]);
    assert_eq!(sim.phase(), Phase::Idle);

    let mut sim = simulation();
    expect_run(&sim.run_with_faults(vec![vec![site(BASE, FaultType::NopCached(1))]]));
    assert_eq!(
        sim.teardown(),
        vec![BackendOp::RemoveUsageHooks, BackendOp::RemoveSystemHooks]
    );
    assert!(sim.session().get_fault_data().is_empty());
    assert_eq!(sim.phase(), Phase::Idle);
}

#[test]
fn check_program_fails_when_the_negative_run_has_no_verdict() {
    let mut sim = simulation();
    sim.check_program();
    sim.hook_fired(HookEvent::FlashLoad);
    expect_run(&sim.resume(BASE + 12, true));
    let step = sim.resume(BASE + 16, true);
    assert!(matches!(step.next, Next::Checked(false)));
    assert_eq!(sim.get_state(), RunState::Error);
}
