use cool::error::AppError;
use cool::procmaps::{field_split, find_base_address, line_base, range_start};

fn v(s: &str) -> Vec<u8> {
    s.as_bytes().to_vec()
}

#[test]
fn field_split_on_a_mapping_line() {
    let fields = field_split(&v("55a000-55b000 r-xp 00000000 08:01 123  /usr/bin/tgt"));
    assert_eq!(fields.len(), 6);
    assert_eq!(fields[0], v("55a000-55b000"));
    assert_eq!(fields[1], v("r-xp"));
    assert_eq!(fields[5], v("/usr/bin/tgt"));
}

#[test]
fn range_start_reads_hex_up_to_the_dash() {
    assert_eq!(range_start(&v("ff-100")), Some(0xff));
    assert_eq!(range_start(&v("55a000-55b000")), Some(0x55a000));
    assert_eq!(range_start(&v("0-0")), Some(0));
    assert_eq!(range_start(&v("ffffffffffffffff-0")), Some(u64::MAX));
}

#[test]
fn range_start_rejects_malformed_prefixes() {
    assert_eq!(range_start(&v("-100")), None);
    assert_eq!(range_start(&v("")), None);
    assert_eq!(range_start(&v("55g000-55b000")), None);
    // seventeen hex digits: one past what 64 bits hold
    assert_eq!(range_start(&v("10000000000000000-0")), None);
}

#[test]
fn base_address_of_first_readable_matching_mapping() {
    let maps = v("400000-401000 ---p 00000000 08:01 11 /usr/bin/other\n55a000-55b000 r-xp 00000000 08:01 12 /usr/bin/tgt\n55c000-55d000 r--p 00001000 08:01 12 /usr/bin/tgt\n");
    let r = find_base_address(&maps, &v("/usr/bin/tgt"));
    assert_eq!(r, Ok(0x55a000));
}

#[test]
fn base_address_skips_unreadable_mappings_of_the_executable() {
    let maps = v("55a000-55b000 ---p 00000000 08:01 12 /usr/bin/tgt\n55c000-55d000 rw-p 00001000 08:01 12 /usr/bin/tgt\n");
    let r = find_base_address(&maps, &v("/usr/bin/tgt"));
    assert_eq!(r, Ok(0x55c000));
}

#[test]
fn no_matching_mapping_yields_base_address_not_found() {
    let maps = v("400000-401000 r-xp 00000000 08:01 11 /usr/bin/other\n7f0000000000-7f0000001000 r-xp 00000000 08:01 13 /lib/libc.so\n[vsyscall]\n");
    let r = find_base_address(&maps, &v("/usr/bin/tgt"));
    assert_eq!(r, Err(AppError::BaseAddressNotFound));
}

#[test]
fn empty_mapping_table_yields_base_address_not_found() {
    let r = find_base_address(&v(""), &v("/usr/bin/tgt"));
    assert_eq!(r, Err(AppError::BaseAddressNotFound));
}

#[test]
fn line_base_requires_six_fields_readable_and_matching_path() {
    let exe = v("/usr/bin/tgt");
    assert_eq!(line_base(&v("55a000-55b000 r-xp 00000000 08:01 12 /usr/bin/tgt"), &exe), Some(0x55a000));
    // five fields only
    assert_eq!(line_base(&v("55a000-55b000 r-xp 00000000 08:01 /usr/bin/tgt"), &exe), None);
    // not readable
    assert_eq!(line_base(&v("55a000-55b000 --xp 00000000 08:01 12 /usr/bin/tgt"), &exe), None);
    // other path
    assert_eq!(line_base(&v("55a000-55b000 r-xp 00000000 08:01 12 /usr/bin/zzz"), &exe), None);
}
