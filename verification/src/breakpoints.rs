//! Breakpoint bookkeeping: the map from runtime address to the original
//! instruction word that a trap byte overwrote.
//!
//! The functions here are the pure heart of the breakpoint manager: they
//! decide, they never touch the tracee. `Debugger::set_breakpoint` and
//! `Debugger::restore` pair them with the actual memory reads and writes.

use vstd::prelude::*;

use std::collections::HashMap;

use crate::error::AppError;

verus! {

broadcast use vstd::std_specs::hash::group_hash_axioms;

/// An address in the traced process. The target ISA is 64-bit, so runtime
/// and file-relative addresses both fit in 64 bits.
pub type Address = u64;

/// One patched location: the instruction word that was overwritten and the
/// file-relative address the breakpoint was derived from (resolvers work on
/// static addresses, so it is kept for later source-location queries).
pub struct BreakPoint {
    pub original_instruction: u64,
    pub relative_addr: Address,
}

/// The x86-64 `int3` opcode, the one-byte trap instruction.
pub const TRAP_OPCODE: u64 = 0xCC;

/// The word written over `w` when a breakpoint is installed: the low
/// (first, little-endian) byte becomes the trap opcode, the remaining seven
/// bytes keep their original value.
pub open spec fn spec_patch_word(w: u64) -> u64 {
    (w & 0xffff_ffff_ffff_ff00) | 0xCC
}

/// Byte `i` of `w` in memory order (little-endian: byte 0 is the lowest).
pub open spec fn word_byte(w: u64, i: int) -> u8 {
    if i == 0 {
        (w & 0xff) as u8
    } else if i == 1 {
        ((w >> 8) & 0xff) as u8
    } else if i == 2 {
        ((w >> 16) & 0xff) as u8
    } else if i == 3 {
        ((w >> 24) & 0xff) as u8
    } else if i == 4 {
        ((w >> 32) & 0xff) as u8
    } else if i == 5 {
        ((w >> 40) & 0xff) as u8
    } else if i == 6 {
        ((w >> 48) & 0xff) as u8
    } else {
        ((w >> 56) & 0xff) as u8
    }
}

/// Patching places the trap opcode in the first byte and leaves the other
/// seven bytes of the word untouched.
pub proof fn lemma_patch_changes_only_first_byte(w: u64)
    ensures
        word_byte(spec_patch_word(w), 0) == TRAP_OPCODE as u8,
        forall|i: int| 1 <= i < 8 ==> word_byte(spec_patch_word(w), i) == word_byte(w, i),
{
    let p = ((w & 0xffff_ffff_ffff_ff00) | 0xCC) as u64;
    assert((p & 0xff) == 0xCC) by (bit_vector)
        requires p == ((w & 0xffff_ffff_ffff_ff00) | 0xCC);
    assert(((p >> 8) & 0xff) == ((w >> 8) & 0xff) && ((p >> 16) & 0xff) == ((w >> 16) & 0xff)
        && ((p >> 24) & 0xff) == ((w >> 24) & 0xff) && ((p >> 32) & 0xff) == ((w >> 32) & 0xff)
        && ((p >> 40) & 0xff) == ((w >> 40) & 0xff) && ((p >> 48) & 0xff) == ((w >> 48) & 0xff)
        && ((p >> 56) & 0xff) == ((w >> 56) & 0xff)) by (bit_vector)
        requires p == ((w & 0xffff_ffff_ffff_ff00) | 0xCC);
    assert forall|i: int| 1 <= i < 8 implies word_byte(p, i) == word_byte(w, i) by {
    }
}

/// Computes the patched word for `w`: trap opcode in the first byte, the
/// other bytes unchanged.
pub fn patch_word(w: u64) -> (r: u64)
    ensures
        r == spec_patch_word(w),
{
    (w & 0xffff_ffff_ffff_ff00) | 0xCC
}

/// Records a new breakpoint. `current_word` is the instruction word read
/// from the tracee at `runtime_addr`; on success the entry is stored and the
/// word to write back (trap opcode over the first byte) is returned. If a
/// breakpoint already occupies the address the call fails with
/// `AlreadyBroken` and the map — in particular the stored original word of
/// the existing entry — is left unchanged.
pub fn install_entry(
    breakpoints: &mut HashMap<Address, BreakPoint>,
    runtime_addr: Address,
    current_word: u64,
    relative_addr: Address,
) -> (r: Result<u64, AppError>)
    ensures
        old(breakpoints)@.contains_key(runtime_addr) ==> {
            &&& r == Err::<u64, AppError>(AppError::AlreadyBroken)
            &&& final(breakpoints)@ == old(breakpoints)@
        },
        !old(breakpoints)@.contains_key(runtime_addr) ==> {
            &&& r == Ok::<u64, AppError>(spec_patch_word(current_word))
            &&& final(breakpoints)@ == old(breakpoints)@.insert(
                runtime_addr,
                (BreakPoint { original_instruction: current_word, relative_addr }),
            )
        },
{
    if breakpoints.contains_key(&runtime_addr) {
        return Err(AppError::AlreadyBroken);
    }
    let patched = patch_word(current_word);
    breakpoints.insert(runtime_addr, BreakPoint { original_instruction: current_word, relative_addr });
    Ok(patched)
}

/// Removes the breakpoint at `runtime_addr` and returns the stored original
/// word, to be written back verbatim. If no entry exists the call fails with
/// `UnknownBreakpoint` and the map is unchanged — no memory write is owed.
pub fn restore_entry(
    breakpoints: &mut HashMap<Address, BreakPoint>,
    runtime_addr: Address,
) -> (r: Result<u64, AppError>)
    ensures
        !old(breakpoints)@.contains_key(runtime_addr) ==> {
            &&& r == Err::<u64, AppError>(AppError::UnknownBreakpoint)
            &&& final(breakpoints)@ == old(breakpoints)@
        },
        old(breakpoints)@.contains_key(runtime_addr) ==> {
            &&& r == Ok::<u64, AppError>(old(breakpoints)@[runtime_addr].original_instruction)
            &&& final(breakpoints)@ == old(breakpoints)@.remove(runtime_addr)
        },
{
    match breakpoints.remove(&runtime_addr) {
        Some(bp) => Ok(bp.original_instruction),
        None => Err(AppError::UnknownBreakpoint),
    }
}

/// Round-trip law: with the tracee's words modeled as a map from address to
/// instruction word, installing a breakpoint (writing the patched word) and
/// immediately restoring it (writing the stored original back) leaves every
/// word — at the patched address and everywhere else — exactly as it was.
pub proof fn lemma_install_restore_round_trip(mem: Map<Address, u64>, runtime_addr: Address)
    requires
        mem.contains_key(runtime_addr),
    ensures
        mem.insert(runtime_addr, spec_patch_word(mem[runtime_addr])).insert(
            runtime_addr,
            mem[runtime_addr],
        ) =~= mem,
{
}

/// The tracee's memory byte by byte, after one word write at `addr`:
/// the eight bytes from `addr` on hold `w` in memory order, every other
/// byte keeps its value.
pub open spec fn spec_write_word(mem: Map<Address, u8>, addr: Address, w: u64) -> Map<
    Address,
    u8,
> {
    mem.union_prefer_right(
        Map::new(|k: Address| addr <= k < addr + 8, |k: Address| word_byte(w, k - addr)),
    )
}

/// The eight bytes from `addr` on hold `w`.
pub open spec fn spec_holds_word(mem: Map<Address, u8>, addr: Address, w: u64) -> bool {
    forall|k: Address|
        addr <= k < addr + 8 ==> #[trigger] mem.contains_key(k) && mem[k] == word_byte(
            w,
            k - addr,
        )
}

/// After a restore writes the stored word `w` back at `addr`, the byte at
/// `addr` holds the original opcode again — the trap byte is gone.
pub proof fn lemma_restore_write_replaces_trap_byte(mem: Map<Address, u8>, addr: Address, w: u64)
    ensures
        spec_write_word(mem, addr, w).contains_key(addr),
        spec_write_word(mem, addr, w)[addr] == word_byte(w, 0),
{
}

/// Round-trip law over byte-addressed memory: where the word `w` stands at
/// `addr`, writing the patched word (install) and then the stored original
/// back (restore) leaves every byte of memory — inside the patched word
/// and outside it — exactly as it was.
pub proof fn lemma_patch_restore_leaves_memory(mem: Map<Address, u8>, addr: Address, w: u64)
    requires
        addr + 8 <= u64::MAX,
        spec_holds_word(mem, addr, w),
    ensures
        spec_write_word(spec_write_word(mem, addr, spec_patch_word(w)), addr, w) =~= mem,
{
    let m2 = spec_write_word(spec_write_word(mem, addr, spec_patch_word(w)), addr, w);
    assert forall|k: Address| #[trigger] m2.dom().contains(k) implies mem.dom().contains(k)
        && m2[k] == mem[k] by {
        if addr <= k < addr + 8 {
            assert(mem.contains_key(k) && mem[k] == word_byte(w, k - addr));
            assert(m2[k] == word_byte(w, k - addr));
        }
    }
}

} // verus!
