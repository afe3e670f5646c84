use std::collections::HashMap;

use cool::breakpoints::{install_entry, restore_entry, BreakPoint};
use cool::debugger::{classify_wait, trap_action, RunStatus, StepDecision, WaitEvent, TRAP_SIGNAL};
use cool::error::AppError;

#[test]
fn classification_of_status_changes() {
    assert_eq!(classify_wait(&WaitEvent::Exited(0)), StepDecision::Finish(RunStatus::Exited(0)));
    assert_eq!(classify_wait(&WaitEvent::Exited(3)), StepDecision::Finish(RunStatus::Exited(3)));
    assert_eq!(
        classify_wait(&WaitEvent::Signaled(9)),
        StepDecision::Finish(RunStatus::TerminatedBySignal(9))
    );
    assert_eq!(classify_wait(&WaitEvent::Stopped(TRAP_SIGNAL)), StepDecision::HandleTrap);
    // any other stop is passed through
    assert_eq!(classify_wait(&WaitEvent::Stopped(2)), StepDecision::Resume);
    assert_eq!(classify_wait(&WaitEvent::Other), StepDecision::Resume);
}

#[test]
fn trap_plan_rewinds_to_the_breakpoint_address() {
    let base: u64 = 0x560000000000;
    let relative: u64 = 0x1234;
    let r = base + relative;
    let mut map: HashMap<u64, BreakPoint> = HashMap::new();
    let original: u64 = 0x4855C3909090E589;
    install_entry(&mut map, r, original, relative).unwrap();

    // the processor reports the address after the one-byte trap
    let rip = r + 1;
    let plan = trap_action(&map, rip).unwrap();
    assert_eq!(plan.runtime_addr, r);
    assert_eq!(plan.original_instruction, original);
    assert_eq!(plan.relative_addr, relative);

    // restoring writes the stored word back and forgets the entry
    let written = restore_entry(&mut map, plan.runtime_addr).unwrap();
    assert_eq!(written, original);
    assert!(map.is_empty());
}

#[test]
fn trap_without_registered_breakpoint_is_a_protocol_violation() {
    let mut map: HashMap<u64, BreakPoint> = HashMap::new();
    install_entry(&mut map, 0x5000, 0x90, 0x40).unwrap();
    let r = trap_action(&map, 0x6001);
    assert!(matches!(r, Err(AppError::UnknownBreakpoint)));
    assert_eq!(map.len(), 1);
    // an instruction pointer of zero cannot follow a trap
    assert!(matches!(trap_action(&map, 0), Err(AppError::UnknownBreakpoint)));
}

#[test]
fn single_breakpoint_session_reports_one_hit_then_clean_exit() {
    // a session against a modeled tracee: one breakpoint at the entry,
    // one trap, then a clean exit
    let base: u64 = 0x400000;
    let entry_relative: u64 = 0x1130;
    let entry_runtime = base + entry_relative;
    let original: u64 = 0x00005548E5894855;

    let mut map: HashMap<u64, BreakPoint> = HashMap::new();
    let patched = install_entry(&mut map, entry_runtime, original, entry_relative).unwrap();
    assert_eq!(patched & 0xff, 0xCC);
    assert_eq!(map.len(), 1);

    let events = [WaitEvent::Stopped(TRAP_SIGNAL), WaitEvent::Exited(0)];
    let mut hits: Vec<u64> = Vec::new();
    let mut status: Option<RunStatus> = None;
    for ev in events.iter() {
        match classify_wait(ev) {
            StepDecision::HandleTrap => {
                let rip = entry_runtime + 1;
                let plan = trap_action(&map, rip).unwrap();
                let written = restore_entry(&mut map, plan.runtime_addr).unwrap();
                assert_eq!(written, original);
                assert_eq!(plan.runtime_addr, entry_runtime);
                hits.push(plan.relative_addr);
            }
            StepDecision::Resume => {}
            StepDecision::Finish(s) => {
                status = Some(s);
                break;
            }
        }
    }

    assert_eq!(hits, vec![entry_relative]);
    assert!(map.is_empty());
    assert_eq!(status, Some(RunStatus::Exited(0)));
}
