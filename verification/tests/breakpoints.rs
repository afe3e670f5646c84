use std::collections::HashMap;

use cool::breakpoints::{install_entry, restore_entry, patch_word, BreakPoint, TRAP_OPCODE};
use cool::debugger::word_bytes;
use cool::error::AppError;

#[test]
fn patch_word_sets_trap_opcode_and_keeps_upper_bytes() {
    let w: u64 = 0x1122334455667788;
    let p = patch_word(w);
    assert_eq!(p & 0xff, TRAP_OPCODE);
    assert_eq!(p >> 8, w >> 8);
    assert_eq!(p, 0x11223344556677CC);
}

#[test]
fn word_bytes_is_little_endian() {
    let w: u64 = 0x0102030405060708;
    let bytes = word_bytes(w);
    assert_eq!(bytes, vec![0x08, 0x07, 0x06, 0x05, 0x04, 0x03, 0x02, 0x01]);
}

#[test]
fn install_then_restore_round_trips_the_word() {
    let mut map: HashMap<u64, BreakPoint> = HashMap::new();
    let original: u64 = 0xDEADBEEF00C3C355;
    let patched = install_entry(&mut map, 0x5000, original, 0x40).unwrap();
    assert_eq!(patched & 0xff, 0xCC);
    assert_eq!(patched >> 8, original >> 8);
    let written_back = restore_entry(&mut map, 0x5000).unwrap();
    assert_eq!(written_back, original);
    assert_eq!(map.len(), 0);
}

#[test]
fn install_at_occupied_address_fails_and_keeps_the_stored_word() {
    let mut map: HashMap<u64, BreakPoint> = HashMap::new();
    install_entry(&mut map, 0x7000, 0x1111, 0x10).unwrap();
    let second = install_entry(&mut map, 0x7000, 0x2222, 0x10);
    assert_eq!(second, Err(AppError::AlreadyBroken));
    assert_eq!(map.len(), 1);
    assert_eq!(map.get(&0x7000).unwrap().original_instruction, 0x1111);
    assert_eq!(map.get(&0x7000).unwrap().relative_addr, 0x10);
}

#[test]
fn restore_without_breakpoint_fails_and_returns_no_word() {
    let mut map: HashMap<u64, BreakPoint> = HashMap::new();
    let r = restore_entry(&mut map, 0x9000);
    assert_eq!(r, Err(AppError::UnknownBreakpoint));
    assert_eq!(map.len(), 0);
}

#[test]
fn two_installs_at_distinct_addresses_keep_two_entries() {
    let base: u64 = 0x555500000000;
    let mut map: HashMap<u64, BreakPoint> = HashMap::new();
    let a1: u64 = 0x1234;
    let a2: u64 = 0x5678;
    install_entry(&mut map, base + a1, 0xAAAA, a1).unwrap();
    install_entry(&mut map, base + a2, 0xBBBB, a2).unwrap();
    assert_eq!(map.len(), 2);
    assert_eq!(map.get(&(base + a1)).unwrap().relative_addr, a1);
    assert_eq!(map.get(&(base + a2)).unwrap().relative_addr, a2);
}
