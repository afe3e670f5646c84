//! The tracing engine: breakpoint installation and removal by in-memory
//! code patching, and the resume/wait/classify run loop.
//!
//! Kernel tracing calls go through the trusted wrappers below; every
//! decision — duplicate detection, trap classification, the faulting
//! address, what to write back, what the map holds afterwards — is
//! verified. The tracee itself must already exist, be trace-controlled by
//! this process, and have reported its initial stop.

use vstd::prelude::*;

use std::collections::HashMap;

use capstone::arch::BuildsCapstone;
use nix::sys::ptrace;
use nix::sys::wait::WaitStatus;
use nix::unistd::Pid;

use crate::breakpoints::{install_entry, restore_entry, word_byte, Address, BreakPoint};
use crate::error::AppError;
use crate::symbols::{loader_find_location, LineInfo};

verus! {

broadcast use vstd::std_specs::hash::group_hash_axioms;

/// The signal number of the breakpoint trap.
pub const TRAP_SIGNAL: i32 = 5;

/// A tracee status change, as the blocking wait reports it.
#[derive(Clone, Copy, Debug, PartialEq, Eq, Structural)]
pub enum WaitEvent {
    /// The tracee exited with the given code.
    Exited(i32),
    /// The tracee is stopped by the given signal.
    Stopped(i32),
    /// The tracee was killed by the given signal.
    Signaled(i32),
    /// Any other status change.
    Other,
}

/// How a finished run ended.
#[derive(Clone, Copy, Debug, PartialEq, Eq, Structural)]
pub enum RunStatus {
    /// Clean exit with the given code.
    Exited(i32),
    /// Termination by the given signal.
    TerminatedBySignal(i32),
}

/// What the run loop does with one status change.
#[derive(Clone, Copy, Debug, PartialEq, Eq, Structural)]
pub enum StepDecision {
    /// The stop is a breakpoint trap: dispatch it.
    HandleTrap,
    /// Pass the stop through and resume the tracee.
    Resume,
    /// The tracee is gone: end the loop with this status.
    Finish(RunStatus),
}

/// The run loop's classification of a status change: exit and termination
/// end the loop, a trap-signal stop is dispatched, every other stop is
/// passed through.
pub open spec fn spec_classify(ev: WaitEvent) -> StepDecision {
    match ev {
        WaitEvent::Exited(code) => StepDecision::Finish(RunStatus::Exited(code)),
        WaitEvent::Signaled(sig) => StepDecision::Finish(RunStatus::TerminatedBySignal(sig)),
        WaitEvent::Stopped(sig) => if sig == TRAP_SIGNAL {
            StepDecision::HandleTrap
        } else {
            StepDecision::Resume
        },
        WaitEvent::Other => StepDecision::Resume,
    }
}

/// Classifies one status change.
pub fn classify_wait(ev: &WaitEvent) -> (r: StepDecision)
    ensures
        r == spec_classify(*ev),
{
    match *ev {
        WaitEvent::Exited(code) => StepDecision::Finish(RunStatus::Exited(code)),
        WaitEvent::Signaled(sig) => StepDecision::Finish(RunStatus::TerminatedBySignal(sig)),
        WaitEvent::Stopped(sig) => if sig == TRAP_SIGNAL {
            StepDecision::HandleTrap
        } else {
            StepDecision::Resume
        },
        WaitEvent::Other => StepDecision::Resume,
    }
}

/// Everything a trap dispatch must do: rewrite the original word at the
/// trap address, and rewind the instruction pointer to that address.
pub struct TrapPlan {
    /// The trapped address: one below the reported instruction pointer,
    /// and the value the instruction pointer is rewound to.
    pub runtime_addr: u64,
    /// The stored word to write back verbatim.
    pub original_instruction: u64,
    /// The file-relative address the breakpoint was derived from.
    pub relative_addr: u64,
}

/// Decides what a trap at reported instruction pointer `rip` requires.
/// The processor reports the address after the one-byte trap instruction,
/// so the breakpoint lives at `rip - 1`. A trap with no registered
/// breakpoint there is a protocol violation: `UnknownBreakpoint`.
pub fn trap_action(breakpoints: &HashMap<Address, BreakPoint>, rip: u64) -> (r: Result<
    TrapPlan,
    AppError,
>)
    ensures
        match r {
            Ok(plan) => {
                &&& rip >= 1
                &&& breakpoints@.contains_key((rip - 1) as u64)
                &&& plan.runtime_addr == (rip - 1) as u64
                &&& plan.original_instruction == breakpoints@[(rip - 1) as u64].original_instruction
                &&& plan.relative_addr == breakpoints@[(rip - 1) as u64].relative_addr
            },
            Err(e) => {
                &&& e == AppError::UnknownBreakpoint
                &&& (rip == 0 || !breakpoints@.contains_key((rip - 1) as u64))
            },
        },
{
    if rip == 0 {
        return Err(AppError::UnknownBreakpoint);
    }
    let addr = rip - 1;
    match breakpoints.get(&addr) {
        Some(bp) => Ok(
            TrapPlan {
                runtime_addr: addr,
                original_instruction: bp.original_instruction,
                relative_addr: bp.relative_addr,
            },
        ),
        None => Err(AppError::UnknownBreakpoint),
    }
}

/// One breakpoint hit, for operator-visible reporting.
pub struct HitReport {
    pub runtime_addr: u64,
    pub relative_addr: u64,
    pub location: Option<LineInfo>,
}

/// What one run-loop cycle produced.
pub enum StepOutcome {
    /// A pass-through stop: resume and wait again.
    Continue,
    /// A breakpoint trap, dispatched; the run continues.
    Hit(HitReport),
    /// The tracee is gone; the run is over.
    Finished(RunStatus),
}

/// Removing a key never adds or changes entries.
pub proof fn lemma_remove_submap(m: Map<Address, BreakPoint>, k: Address)
    ensures
        m.remove(k).submap_of(m),
{
}

/// The decoded text of one instruction, for diagnostic display only.
pub struct InsnText {
    pub mnemonic: Vec<u8>,
    pub operands: Vec<u8>,
}

/// What a successful installation reports: the patched runtime address and,
/// when the disassembler can read them, the original instruction's text.
pub struct InstallReport {
    pub runtime_addr: u64,
    pub disassembly: Option<InsnText>,
}

/// Declares capstone::Capstone to Verus: the opaque disassembler handle,
/// queried only for diagnostic text.
#[verifier::external_type_specification]
#[verifier::external_body]
pub struct ExCapstone(capstone::Capstone);

/// Relies on nix::sys::ptrace::read: the instruction word at `addr` in the
/// tracee's memory. What it holds depends on the tracee alone; a failure
/// carries the OS error number.
#[verifier::external_body]
fn ptrace_read_word(pid: i32, addr: u64) -> (r: Result<u64, AppError>)
    ensures
        r matches Err(e) ==> e matches AppError::Trace(_),
{
    match ptrace::read(Pid::from_raw(pid), addr as usize as ptrace::AddressType) {
        Ok(word) => Ok(word as u64),
        Err(e) => Err(AppError::Trace(e as i32)),
    }
}

/// Relies on nix::sys::ptrace::write: writes one word into the tracee's
/// memory at `addr`.
#[verifier::external_body]
fn ptrace_write_word(pid: i32, addr: u64, word: u64) -> (r: Result<(), AppError>)
    ensures
        r matches Err(e) ==> e matches AppError::Trace(_),
{
    match ptrace::write(Pid::from_raw(pid), addr as usize as ptrace::AddressType, word as i64) {
        Ok(()) => Ok(()),
        Err(e) => Err(AppError::Trace(e as i32)),
    }
}

/// Relies on nix::sys::ptrace::cont: resumes the stopped tracee without
/// delivering a signal.
#[verifier::external_body]
fn ptrace_cont(pid: i32) -> (r: Result<(), AppError>)
    ensures
        r matches Err(e) ==> e matches AppError::Trace(_),
{
    match ptrace::cont(Pid::from_raw(pid), None) {
        Ok(()) => Ok(()),
        Err(e) => Err(AppError::Trace(e as i32)),
    }
}

/// Relies on nix::sys::ptrace::getregs: the tracee's instruction pointer,
/// read from its register snapshot.
#[verifier::external_body]
fn ptrace_get_rip(pid: i32) -> (r: Result<u64, AppError>)
    ensures
        r matches Err(e) ==> e matches AppError::Trace(_),
{
    match ptrace::getregs(Pid::from_raw(pid)) {
        Ok(regs) => Ok(regs.rip),
        Err(e) => Err(AppError::Trace(e as i32)),
    }
}

/// Relies on nix::sys::ptrace::getregs and ::setregs: rewrites the
/// tracee's instruction pointer, leaving every other register as read.
#[verifier::external_body]
fn ptrace_set_rip(pid: i32, rip: u64) -> (r: Result<(), AppError>)
    ensures
        r matches Err(e) ==> e matches AppError::Trace(_),
{
    let mut regs = match ptrace::getregs(Pid::from_raw(pid)) {
        Ok(regs) => regs,
        Err(e) => return Err(AppError::Trace(e as i32)),
    };
    regs.rip = rip;
    match ptrace::setregs(Pid::from_raw(pid), regs) {
        Ok(()) => Ok(()),
        Err(e) => Err(AppError::Trace(e as i32)),
    }
}

/// Relies on nix::sys::wait::wait: blocks until a child changes status,
/// and hands the status out as plain values, one arm per reported kind.
#[verifier::external_body]
fn wait_next() -> (r: Result<WaitEvent, AppError>)
    ensures
        r matches Err(e) ==> e matches AppError::Trace(_),
{
    match nix::sys::wait::wait() {
        Ok(WaitStatus::Exited(_, code)) => Ok(WaitEvent::Exited(code)),
        Ok(WaitStatus::Stopped(_, sig)) => Ok(WaitEvent::Stopped(sig as i32)),
        Ok(WaitStatus::Signaled(_, sig, _)) => Ok(WaitEvent::Signaled(sig as i32)),
        Ok(_) => Ok(WaitEvent::Other),
        Err(e) => Err(AppError::Trace(e as i32)),
    }
}

/// Relies on the capstone::Capstone builder: a disassembler for 64-bit
/// x86 code, used for diagnostic display only.
#[verifier::external_body]
fn make_disassembler() -> (r: Result<capstone::Capstone, AppError>)
    ensures
        r matches Err(e) ==> e == AppError::Disassembler,
{
    match capstone::Capstone::new().x86().mode(capstone::arch::x86::ArchMode::Mode64).build() {
        Ok(cs) => Ok(cs),
        Err(_) => Err(AppError::Disassembler),
    }
}

/// Relies on capstone::Capstone::disasm_all with Insn::mnemonic and
/// ::op_str: the text of the first instruction decoded from `code`, or
/// `None` where nothing decodes.
#[verifier::external_body]
fn disassemble_first(cs: &capstone::Capstone, code: &Vec<u8>, addr: u64) -> Option<InsnText> {
    let insns = match cs.disasm_all(code.as_slice(), addr) {
        Ok(insns) => insns,
        Err(_) => return None,
    };
    match insns.iter().next() {
        Some(insn) => Some(
            InsnText {
                mnemonic: insn.mnemonic().unwrap_or("").as_bytes().to_vec(),
                operands: insn.op_str().unwrap_or("").as_bytes().to_vec(),
            },
        ),
        None => None,
    }
}

/// The word's eight bytes in memory (little-endian) order, as a buffer for
/// the disassembler.
pub fn word_bytes(w: u64) -> (r: Vec<u8>)
    ensures
        r@.len() == 8,
        forall|i: int| 0 <= i < 8 ==> r@[i] == word_byte(w, i),
{
    proof {
        assert((w & 0xff) < 256 && ((w >> 8) & 0xff) < 256 && ((w >> 16) & 0xff) < 256 && ((w
            >> 24) & 0xff) < 256 && ((w >> 32) & 0xff) < 256 && ((w >> 40) & 0xff) < 256 && ((w
            >> 48) & 0xff) < 256 && ((w >> 56) & 0xff) < 256) by (bit_vector);
    }
    let mut out: Vec<u8> = Vec::new();
    out.push((w & 0xff) as u8);
    out.push(((w >> 8) & 0xff) as u8);
    out.push(((w >> 16) & 0xff) as u8);
    out.push(((w >> 24) & 0xff) as u8);
    out.push(((w >> 32) & 0xff) as u8);
    out.push(((w >> 40) & 0xff) as u8);
    out.push(((w >> 48) & 0xff) as u8);
    out.push(((w >> 56) & 0xff) as u8);
    out
}

/// The debugger's view of one tracee: the relocation offset, the traced
/// process, and the breakpoint map. The invariant the methods keep: an
/// address is a key of `breakpoints` exactly when the trap byte is
/// currently patched into the tracee there.
pub struct Debugger {
    /// The load base: `runtime address == base_address + file-relative
    /// address` for every code address of the main image.
    pub base_address: u64,
    /// The traced process's identifier.
    pub pid: i32,
    /// All currently patched locations, keyed by runtime address.
    pub breakpoints: HashMap<Address, BreakPoint>,
    /// The debug-line lookup for the traced executable.
    pub a2l_loader: addr2line::Loader,
    /// The diagnostic disassembler.
    pub disassembler: capstone::Capstone,
}

impl Debugger {
    /// Builds a debugger for a tracee that already reported its initial
    /// stop, with an empty breakpoint map.
    pub fn new(a2l_loader: addr2line::Loader, base_address: u64, pid: i32) -> (r: Result<
        Debugger,
        AppError,
    >)
        ensures
            match r {
                Ok(d) => {
                    &&& d.base_address == base_address
                    &&& d.pid == pid
                    &&& d.breakpoints@ == Map::<Address, BreakPoint>::empty()
                },
                Err(e) => e == AppError::Disassembler,
            },
    {
        let disassembler = match make_disassembler() {
            Ok(cs) => cs,
            Err(_) => {
                return Err(AppError::Disassembler);
            },
        };
        Ok(
            Debugger {
                base_address,
                pid,
                breakpoints: HashMap::new(),
                a2l_loader,
                disassembler,
            },
        )
    }

    /// Installs a breakpoint at the file-relative address: reads the word
    /// at `base_address + relative_addr`, stores it, and writes the trap
    /// opcode over its first byte. Fails with `AlreadyBroken` — and leaves
    /// everything, including the stored original word, unchanged — exactly
    /// when a breakpoint already occupies that runtime address; a failed
    /// tracing call leaves the map unchanged too. Disassembly is
    /// diagnostic only: its failure never aborts an installation.
    pub fn set_breakpoint(&mut self, relative_addr: u64) -> (r: Result<InstallReport, AppError>)
        requires
            old(self).base_address + relative_addr <= u64::MAX,
        ensures
            final(self).base_address == old(self).base_address,
            final(self).pid == old(self).pid,
            ({
                let addr = (old(self).base_address + relative_addr) as u64;
                match r {
                    Ok(rep) => {
                        &&& !old(self).breakpoints@.contains_key(addr)
                        &&& rep.runtime_addr == addr
                        &&& final(self).breakpoints@.contains_key(addr)
                        &&& final(self).breakpoints@ == old(self).breakpoints@.insert(
                            addr,
                            final(self).breakpoints@[addr],
                        )
                        &&& final(self).breakpoints@[addr].relative_addr == relative_addr
                    },
                    Err(e) => {
                        &&& final(self).breakpoints@ == old(self).breakpoints@
                        &&& (e == AppError::AlreadyBroken <==> old(self)
                            .breakpoints@.contains_key(addr))
                        &&& (e == AppError::AlreadyBroken || e matches AppError::Trace(_))
                    },
                }
            }),
    {
        let address = self.base_address + relative_addr;
        if self.breakpoints.contains_key(&address) {
            return Err(AppError::AlreadyBroken);
        }
        let word = match ptrace_read_word(self.pid, address) {
            Ok(word) => word,
            Err(e) => {
                return Err(e);
            },
        };
        let code = word_bytes(word);
        let disassembly = disassemble_first(&self.disassembler, &code, address);
        let patched = match install_entry(&mut self.breakpoints, address, word, relative_addr) {
            Ok(patched) => patched,
            Err(e) => {
                return Err(e);
            },
        };
        match ptrace_write_word(self.pid, address, patched) {
            Ok(()) => Ok(InstallReport { runtime_addr: address, disassembly }),
            Err(e) => {
                // The trap byte never reached the tracee: forget the entry
                // again, no partial patch stays behind.
                match restore_entry(&mut self.breakpoints, address) {
                    Ok(_) => {},
                    Err(_) => {},
                }
                proof {
                    assert(self.breakpoints@ =~= old(self).breakpoints@);
                }
                Err(e)
            },
        }
    }

    /// Removes the breakpoint at the runtime address: writes the stored
    /// original word back verbatim, then forgets the entry. Fails with
    /// `UnknownBreakpoint` — and performs no memory write — exactly when
    /// no breakpoint is registered there; a failed write keeps the entry.
    pub fn restore(&mut self, runtime_addr: u64) -> (r: Result<(), AppError>)
        ensures
            final(self).base_address == old(self).base_address,
            final(self).pid == old(self).pid,
            match r {
                Ok(_) => {
                    &&& old(self).breakpoints@.contains_key(runtime_addr)
                    &&& final(self).breakpoints@ == old(self).breakpoints@.remove(runtime_addr)
                },
                Err(e) => {
                    &&& final(self).breakpoints@ == old(self).breakpoints@
                    &&& (e == AppError::UnknownBreakpoint <==> !old(self)
                        .breakpoints@.contains_key(runtime_addr))
                    &&& (e == AppError::UnknownBreakpoint || e matches AppError::Trace(_))
                },
            },
    {
        let word = match self.breakpoints.get(&runtime_addr) {
            Some(bp) => bp.original_instruction,
            None => {
                return Err(AppError::UnknownBreakpoint);
            },
        };
        match ptrace_write_word(self.pid, runtime_addr, word) {
            Ok(()) => {},
            Err(e) => {
                return Err(e);
            },
        }
        match restore_entry(&mut self.breakpoints, runtime_addr) {
            Ok(_) => Ok(()),
            Err(e) => Err(e),
        }
    }

    /// Dispatches a trap reported at instruction pointer `rip`: restores
    /// the original word at `rip - 1`, rewinds the instruction pointer
    /// there so the original instruction runs next, and resolves the
    /// source location for reporting. A failed source-location lookup is
    /// not an error: the hit is reported without one.
    fn handle_breakpoint(&mut self, rip: u64) -> (r: Result<HitReport, AppError>)
        ensures
            final(self).base_address == old(self).base_address,
            final(self).pid == old(self).pid,
            match r {
                Ok(rep) => {
                    &&& rip >= 1
                    &&& old(self).breakpoints@.contains_key((rip - 1) as u64)
                    &&& rep.runtime_addr == (rip - 1) as u64
                    &&& rep.relative_addr == old(self).breakpoints@[(rip
                        - 1) as u64].relative_addr
                    &&& final(self).breakpoints@ == old(self).breakpoints@.remove(
                        (rip - 1) as u64,
                    )
                },
                Err(e) => {
                    &&& (e == AppError::UnknownBreakpoint || e matches AppError::Trace(_))
                    &&& (e == AppError::UnknownBreakpoint <==> (rip == 0 || !old(self)
                        .breakpoints@.contains_key((rip - 1) as u64)))
                    &&& (final(self).breakpoints@ == old(self).breakpoints@ || final(self)
                        .breakpoints@ == old(self).breakpoints@.remove((rip - 1) as u64))
                },
            },
    {
        let plan = match trap_action(&self.breakpoints, rip) {
            Ok(plan) => plan,
            Err(e) => {
                return Err(e);
            },
        };
        match self.restore(plan.runtime_addr) {
            Ok(()) => {},
            Err(e) => {
                return Err(e);
            },
        }
        match ptrace_set_rip(self.pid, plan.runtime_addr) {
            Ok(()) => {},
            Err(e) => {
                return Err(e);
            },
        }
        let location = match loader_find_location(&self.a2l_loader, plan.relative_addr) {
            Ok(location) => location,
            Err(_) => None,
        };
        Ok(
            HitReport {
                runtime_addr: plan.runtime_addr,
                relative_addr: plan.relative_addr,
                location,
            },
        )
    }

    /// One cycle of the run loop: resume the tracee, block until it
    /// changes status, classify the stop, and dispatch a breakpoint trap.
    /// The full loop repeats this until `Finished`; it is deliberately
    /// unbounded — a hung tracee hangs its tracer — so the caller drives
    /// it. Breakpoints only ever leave the map: each fires at most once.
    pub fn run_step(&mut self) -> (r: Result<StepOutcome, AppError>)
        ensures
            final(self).base_address == old(self).base_address,
            final(self).pid == old(self).pid,
            final(self).breakpoints@.submap_of(old(self).breakpoints@),
            match r {
                Ok(StepOutcome::Hit(rep)) => {
                    &&& old(self).breakpoints@.contains_key(rep.runtime_addr)
                    &&& rep.relative_addr == old(self).breakpoints@[rep.runtime_addr].relative_addr
                    &&& final(self).breakpoints@ == old(self).breakpoints@.remove(rep.runtime_addr)
                },
                Ok(StepOutcome::Continue) => final(self).breakpoints@ == old(self).breakpoints@,
                Ok(StepOutcome::Finished(_)) => final(self).breakpoints@ == old(
                    self,
                ).breakpoints@,
                Err(e) => e == AppError::UnknownBreakpoint || e matches AppError::Trace(_),
            },
    {
        match ptrace_cont(self.pid) {
            Ok(()) => {},
            Err(e) => {
                return Err(e);
            },
        }
        let ev = match wait_next() {
            Ok(ev) => ev,
            Err(e) => {
                return Err(e);
            },
        };
        match classify_wait(&ev) {
            StepDecision::Finish(status) => Ok(StepOutcome::Finished(status)),
            StepDecision::Resume => Ok(StepOutcome::Continue),
            StepDecision::HandleTrap => {
                let rip = match ptrace_get_rip(self.pid) {
                    Ok(rip) => rip,
                    Err(e) => {
                        return Err(e);
                    },
                };
                let ghost before = self.breakpoints@;
                let report = match self.handle_breakpoint(rip) {
                    Ok(report) => report,
                    Err(e) => {
                        proof {
                            lemma_remove_submap(before, (rip - 1) as u64);
                        }
                        return Err(e);
                    },
                };
                proof {
                    lemma_remove_submap(before, report.runtime_addr);
                }
                Ok(StepOutcome::Hit(report))
            },
        }
    }
}

} // verus!
