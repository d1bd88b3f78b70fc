//! Trace stack behavior: versions, selections, snapshots, frames.

use wachy::controller::{toggle_line, ToggleOutcome};
use wachy::program::FunctionName;
use wachy::trace_stack::{CallInstruction, FrameInfo, LineCallsites, RegName, TraceStack};

fn frame_with_lines(lines: Vec<(u32, Vec<CallInstruction>)>) -> FrameInfo {
    let mapping: Vec<LineCallsites> = lines
        .into_iter()
        .map(|(line, callsites)| LineCallsites { line, callsites })
        .collect();
    FrameInfo::new(FunctionName(0), 0x1000, 0x100, b"main.c".to_vec(), 10, mapping)
}

fn simple_frame() -> FrameInfo {
    let ci = CallInstruction::function(0x10, 5, FunctionName(1));
    let ci2 = CallInstruction::unknown(0x20, 5);
    let ci3 = CallInstruction::unknown(0x30, 2);
    frame_with_lines(vec![(12, vec![ci]), (14, vec![ci2, ci3])])
}

fn new_stack() -> TraceStack {
    TraceStack::new(b"/bin/prog".to_vec(), simple_frame())
}

#[test]
fn version_starts_at_one() {
    let stack = new_stack();
    assert!(stack.is_current(1));
    assert!(!stack.is_current(0));
    assert!(!stack.is_current(2));
    assert_eq!(stack.snapshot().version, 1);
}

#[test]
fn versions_strictly_increase_over_mutations() {
    let mut stack = new_stack();
    let ci = CallInstruction::function(0x10, 5, FunctionName(1));
    let mut versions = vec![stack.snapshot().version];
    stack.add_callsite(12, ci);
    versions.push(stack.snapshot().version);
    stack.push(simple_frame());
    versions.push(stack.snapshot().version);
    assert!(stack.pop().is_some());
    versions.push(stack.snapshot().version);
    stack.add_callsite(14, CallInstruction::unknown(0x20, 5));
    versions.push(stack.snapshot().version);
    assert!(stack.remove_callsite(14));
    versions.push(stack.snapshot().version);
    assert_eq!(versions, vec![1, 2, 3, 4, 5, 6]);
    for w in versions.windows(2) {
        assert!(w[0] < w[1]);
    }
}

#[test]
fn add_remove_round_trip_restores_active_set() {
    let mut stack = new_stack();
    let ci = CallInstruction::function(0x10, 5, FunctionName(1));
    let before = stack.snapshot();
    assert_eq!(before.probes.len(), 0);
    stack.add_callsite(12, ci);
    assert!(stack.remove_callsite(12));
    let after = stack.snapshot();
    assert_eq!(after.probes.len(), 0);
    // version bumped by exactly two
    assert_eq!(after.version, before.version + 2);
}

#[test]
fn remove_on_inactive_line_is_noop() {
    let mut stack = new_stack();
    let v = stack.snapshot().version;
    assert!(!stack.remove_callsite(12));
    assert_eq!(stack.snapshot().version, v);
    assert_eq!(stack.snapshot().probes.len(), 0);
}

#[test]
fn snapshot_probe_addresses() {
    let mut stack = new_stack();
    let ci = CallInstruction::function(0x10, 5, FunctionName(1));
    stack.add_callsite(12, ci);
    let snap = stack.snapshot();
    assert_eq!(snap.binary_path, b"/bin/prog".to_vec());
    assert_eq!(snap.probes.len(), 1);
    assert_eq!(snap.probes[0].line, 12);
    assert_eq!(snap.probes[0].address, 0x1000 + 0x10);
    assert_eq!(snap.probes[0].return_address, 0x1000 + 0x10 + 5);
}

#[test]
fn push_clears_selections_and_pop_returns_top() {
    let mut stack = new_stack();
    let ci = CallInstruction::function(0x10, 5, FunctionName(1));
    stack.add_callsite(12, ci);
    assert_eq!(stack.snapshot().probes.len(), 1);
    let ci2 = CallInstruction::unknown(0x8, 3);
    let inner = frame_with_lines(vec![(3, vec![ci2])]);
    stack.push(inner);
    // the new frame starts with nothing selected
    assert_eq!(stack.snapshot().probes.len(), 0);
    assert_eq!(stack.current_frame().get_source_line(), 10);
    let popped = stack.pop();
    assert!(popped.is_some());
    assert_eq!(popped.unwrap().get_source_line(), 10);
    // the root cannot be popped
    assert!(stack.pop().is_none());
}

#[test]
fn callsites_at_returns_line_entries() {
    let stack = new_stack();
    assert_eq!(stack.callsites_at(12).len(), 1);
    assert_eq!(stack.callsites_at(14).len(), 2);
    assert_eq!(stack.callsites_at(99).len(), 0);
    assert_eq!(stack.current_function(), FunctionName(0));
}

#[test]
fn frame_accessors() {
    let frame = simple_frame();
    assert_eq!(frame.get_function(), FunctionName(0));
    assert_eq!(frame.get_start_address(), 0x1000);
    assert_eq!(frame.get_function_size(), 0x100);
    assert_eq!(frame.get_source_file(), &b"main.c".to_vec());
    assert_eq!(frame.get_source_line(), 10);
    assert_eq!(frame.max_line(), 14);
    assert_eq!(frame.called_lines(), vec![12, 14]);
    let empty = frame_with_lines(vec![]);
    assert_eq!(empty.max_line(), 0);
    assert_eq!(empty.called_lines(), Vec::<u32>::new());
}

#[test]
fn toggle_removes_then_adds_then_offers_choice() {
    let mut stack = new_stack();
    // single call site: toggling selects it
    match toggle_line(&mut stack, 12) {
        ToggleOutcome::Added(ci) => {
            assert_eq!(ci.relative_ip, 0x10);
            assert_eq!(ci.length, 5);
        }
        _ => panic!("expected a single call site to be selected"),
    }
    assert_eq!(stack.snapshot().probes.len(), 1);
    // toggling again removes it
    assert!(matches!(toggle_line(&mut stack, 12), ToggleOutcome::Removed));
    assert_eq!(stack.snapshot().probes.len(), 0);
    // a line without calls
    assert!(matches!(toggle_line(&mut stack, 99), ToggleOutcome::NoCallsite));
    // a line with several calls asks the user
    match toggle_line(&mut stack, 14) {
        ToggleOutcome::Choice(v) => assert_eq!(v.len(), 2),
        _ => panic!("expected a choice between call sites"),
    }
}

#[test]
fn register_names_round_trip() {
    let reg = RegName::from_bytes(b"rax").unwrap();
    assert_eq!(reg.to_vec(), b"rax".to_vec());
    assert!(RegName::from_bytes(b"toolongname").is_none());
    let ci = CallInstruction::register(0x10, 2, reg, None);
    assert_eq!(ci.relative_ip, 0x10);
    assert_eq!(ci.length, 2);
}
