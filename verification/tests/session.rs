use fault_simulation::session::{copy_trace, record_trace};
use fault_simulation::{RunState, TraceRecord};
use std::collections::HashMap;

#[test]
fn run_state_values_are_distinct() {
    assert_ne!(RunState::Init, RunState::Success);
    assert_ne!(RunState::Success, RunState::Failed);
    assert_ne!(RunState::Failed, RunState::Error);
    assert_eq!(RunState::Init, RunState::Init);
}

#[test]
fn first_visit_enters_size_and_count_one() {
    let mut trace = HashMap::new();
    record_trace(&mut trace, 0x100, 4);
    assert_eq!(trace.len(), 1);
    assert_eq!(trace[&0x100], TraceRecord { size: 4, count: 1 });
}

#[test]
fn later_visits_raise_the_count_and_keep_the_size() {
    let mut trace = HashMap::new();
    record_trace(&mut trace, 0x100, 4);
    record_trace(&mut trace, 0x100, 2);
    record_trace(&mut trace, 0x100, 2);
    assert_eq!(trace[&0x100], TraceRecord { size: 4, count: 3 });
}

#[test]
fn a_loop_of_three_addresses_run_five_times() {
    let mut trace = HashMap::new();
    for _ in 0..5 {
        for (address, size) in [(0x200u64, 2usize), (0x202, 4), (0x206, 2)] {
            record_trace(&mut trace, address, size);
        }
    }
    assert_eq!(trace.len(), 3);
    assert_eq!(trace[&0x200], TraceRecord { size: 2, count: 5 });
    assert_eq!(trace[&0x202], TraceRecord { size: 4, count: 5 });
    assert_eq!(trace[&0x206], TraceRecord { size: 2, count: 5 });
}

#[test]
fn the_count_stays_at_its_largest_value() {
    let mut trace = HashMap::new();
    trace.insert(0x10u64, TraceRecord { size: 2, count: usize::MAX - 1 });
    record_trace(&mut trace, 0x10, 2);
    assert_eq!(trace[&0x10].count, usize::MAX);
    record_trace(&mut trace, 0x10, 2);
    assert_eq!(trace[&0x10].count, usize::MAX);
}

#[test]
fn copy_of_a_trace_is_equal() {
    let mut trace = HashMap::new();
    record_trace(&mut trace, 1, 2);
    record_trace(&mut trace, 3, 4);
    record_trace(&mut trace, 1, 2);
    let copy = copy_trace(&trace);
    assert_eq!(copy, trace);
    assert_eq!(copy_trace(&HashMap::new()), HashMap::new());
}
