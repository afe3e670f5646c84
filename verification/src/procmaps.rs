//! Load-base resolution for position-independent executables.
//!
//! The OS exposes a per-process mapping table as text: one mapping per line,
//! whitespace-separated fields, the first field an `start-end` hex address
//! range, the second the permission flags, the last the backing path. The
//! load base is the start address of the first readable mapping whose
//! backing path equals the tracee's resolved executable path. Reading the
//! table and resolving the executable path are the caller's I/O; the parsing
//! and the selection happen here, against the specification below.

use vstd::prelude::*;

use crate::error::AppError;
use crate::text::{bytes_eq, copy_range, find_line_end, lemma_line_end, lines_from, spec_lines};

verus! {

/// Field-separating whitespace: space or horizontal tab.
pub open spec fn is_ws(b: u8) -> bool {
    b == 32 || b == 9
}

/// The first whitespace byte at or after `i`, or `s.len()` if none.
pub open spec fn token_end(s: Seq<u8>, i: int) -> int
    decreases s.len() - i,
    when 0 <= i <= s.len()
{
    if i >= s.len() {
        i
    } else if is_ws(s[i]) {
        i
    } else {
        token_end(s, i + 1)
    }
}

pub proof fn lemma_token_end(s: Seq<u8>, i: int)
    requires
        0 <= i <= s.len(),
    ensures
        i <= token_end(s, i) <= s.len(),
        token_end(s, i) < s.len() ==> is_ws(s[token_end(s, i)]),
        forall|j: int| i <= j < token_end(s, i) ==> !is_ws(s[j]),
    decreases s.len() - i,
{
    if i < s.len() && !is_ws(s[i]) {
        lemma_token_end(s, i + 1);
    }
}

/// The whitespace-separated fields of `s`, from position `i` on.
pub open spec fn fields_from(s: Seq<u8>, i: int) -> Seq<Seq<u8>>
    decreases s.len() - i,
    when 0 <= i <= s.len()
    via fields_from_decreases
{
    if i >= s.len() {
        seq![]
    } else if is_ws(s[i]) {
        fields_from(s, i + 1)
    } else {
        let e = token_end(s, i);
        if e >= s.len() {
            seq![s.subrange(i, e)]
        } else {
            seq![s.subrange(i, e)] + fields_from(s, e)
        }
    }
}

#[via_fn]
proof fn fields_from_decreases(s: Seq<u8>, i: int) {
    if 0 <= i && i < s.len() && !is_ws(s[i]) {
        lemma_token_end(s, i);
        assert(token_end(s, i) != i);
    }
}

/// All whitespace-separated fields of `s`.
pub open spec fn spec_fields(s: Seq<u8>) -> Seq<Seq<u8>> {
    fields_from(s, 0)
}

/// A hexadecimal digit, in either case.
pub open spec fn is_hex_digit(b: u8) -> bool {
    (48 <= b <= 57) || (97 <= b <= 102) || (65 <= b <= 70)
}

/// The value of one hexadecimal digit.
pub open spec fn hex_digit_val(b: u8) -> nat {
    if 48 <= b <= 57 {
        (b - 48) as nat
    } else if 97 <= b <= 102 {
        (b - 87) as nat
    } else if 65 <= b <= 70 {
        (b - 55) as nat
    } else {
        0
    }
}

/// Every byte of `s` is a hexadecimal digit.
pub open spec fn all_hex(s: Seq<u8>) -> bool {
    forall|j: int| 0 <= j < s.len() ==> is_hex_digit(s[j])
}

/// The number written in hexadecimal as `s`, most significant digit first.
pub open spec fn hex_num(s: Seq<u8>) -> nat
    decreases s.len(),
{
    if s.len() == 0 {
        0
    } else {
        hex_num(s.drop_last()) * 16 + hex_digit_val(s.last())
    }
}

/// Appending digits never makes the number smaller.
pub proof fn lemma_hex_prefix_le(s: Seq<u8>, k: int)
    requires
        0 <= k <= s.len(),
    ensures
        hex_num(s.take(k)) <= hex_num(s),
    decreases s.len() - k,
{
    if k == s.len() {
        assert(s.take(k) =~= s);
    } else {
        assert(s.take(k + 1).drop_last() =~= s.take(k));
        assert(hex_num(s.take(k + 1)) == hex_num(s.take(k)) * 16 + hex_digit_val(s[k]));
        lemma_hex_prefix_le(s, k + 1);
    }
}

/// The first `-` byte at or after `i`, or `s.len()` if none.
pub open spec fn dash_end(s: Seq<u8>, i: int) -> int
    decreases s.len() - i,
    when 0 <= i <= s.len()
{
    if i >= s.len() {
        i
    } else if s[i] == 45 {
        i
    } else {
        dash_end(s, i + 1)
    }
}

pub proof fn lemma_dash_end(s: Seq<u8>, i: int)
    requires
        0 <= i <= s.len(),
    ensures
        i <= dash_end(s, i) <= s.len(),
    decreases s.len() - i,
{
    if i < s.len() && s[i] != 45 {
        lemma_dash_end(s, i + 1);
    }
}

/// The start address written in an `start-end` range field: the digits
/// before the first `-`, read as hexadecimal. `None` when that prefix is
/// empty, holds a byte that is no hexadecimal digit, or names a number that
/// does not fit in 64 bits.
pub open spec fn spec_range_start(field: Seq<u8>) -> Option<u64> {
    let p = field.take(dash_end(field, 0));
    if p.len() > 0 && all_hex(p) && hex_num(p) <= u64::MAX {
        Some(hex_num(p) as u64)
    } else {
        None
    }
}

/// What one mapping line contributes: `Some(start)` when the line has at
/// least six fields, its last field equals the executable path, its
/// permission field begins with `r`, and its address-range field begins
/// with a well-formed start address; `None` otherwise.
pub open spec fn spec_line_base(line: Seq<u8>, exe: Seq<u8>) -> Option<u64> {
    let fs = spec_fields(line);
    if fs.len() >= 6 && fs.last() == exe && fs[1].len() > 0 && fs[1][0] == 114 {
        spec_range_start(fs[0])
    } else {
        None
    }
}

/// The first line's contribution, in order.
pub open spec fn spec_base_of(lines: Seq<Seq<u8>>, exe: Seq<u8>) -> Option<u64>
    decreases lines.len(),
{
    if lines.len() == 0 {
        None
    } else if spec_line_base(lines[0], exe) is Some {
        spec_line_base(lines[0], exe)
    } else {
        spec_base_of(lines.drop_first(), exe)
    }
}

/// The load base the mapping table yields for the given executable path.
pub open spec fn spec_base_address(maps: Seq<u8>, exe: Seq<u8>) -> Option<u64> {
    spec_base_of(spec_lines(maps), exe)
}

fn is_ws_byte(b: u8) -> (r: bool)
    ensures
        r == is_ws(b),
{
    b == 32 || b == 9
}

/// The first whitespace byte at or after `from`, or the field's length.
fn find_token_end(s: &Vec<u8>, from: usize) -> (r: usize)
    requires
        from <= s@.len(),
    ensures
        r == token_end(s@, from as int),
{
    let n = s.len();
    let mut i: usize = from;
    while i < n && !is_ws_byte(s[i])
        invariant
            from <= i <= n,
            n == s@.len(),
            token_end(s@, from as int) == token_end(s@, i as int),
        decreases n - i,
    {
        i += 1;
    }
    i
}

/// Splits a line into its whitespace-separated fields.
pub fn field_split(line: &Vec<u8>) -> (r: Vec<Vec<u8>>)
    ensures
        r@.map_values(|v: Vec<u8>| v@) == spec_fields(line@),
{
    let n = line.len();
    let mut out: Vec<Vec<u8>> = Vec::new();
    let mut i: usize = 0;
    while i < n
        invariant
            i <= n,
            n == line@.len(),
            spec_fields(line@) =~= out@.map_values(|v: Vec<u8>| v@) + fields_from(
                line@,
                i as int,
            ),
        decreases n - i,
    {
        if is_ws_byte(line[i]) {
            i += 1;
        } else {
            let e = find_token_end(line, i);
            proof {
                lemma_token_end(line@, i as int);
            }
            let tok = copy_range(line, i, e);
            proof {
                assert((out@.push(tok)).map_values(|v: Vec<u8>| v@) =~= out@.map_values(
                    |v: Vec<u8>| v@,
                ).push(tok@));
            }
            out.push(tok);
            i = e;
        }
    }
    proof {
        assert(fields_from(line@, i as int) =~= Seq::<Seq<u8>>::empty());
        assert(out@.map_values(|v: Vec<u8>| v@) =~= spec_fields(line@));
    }
    out
}

/// The value of one hexadecimal digit byte, or `None` for any other byte.
fn hex_digit_value(b: u8) -> (r: Option<u8>)
    ensures
        match r {
            Some(v) => is_hex_digit(b) && v == hex_digit_val(b),
            None => !is_hex_digit(b),
        },
{
    if 48 <= b && b <= 57 {
        Some(b - 48)
    } else if 97 <= b && b <= 102 {
        Some(b - 87)
    } else if 65 <= b && b <= 70 {
        Some(b - 55)
    } else {
        None
    }
}

/// Reads the start address out of an `start-end` range field.
pub fn range_start(field: &Vec<u8>) -> (r: Option<u64>)
    ensures
        r == spec_range_start(field@),
{
    let n = field.len();
    let mut e: usize = 0;
    while e < n && field[e] != 45
        invariant
            e <= n,
            n == field@.len(),
            dash_end(field@, 0) == dash_end(field@, e as int),
        decreases n - e,
    {
        e += 1;
    }
    let ghost p = field@.take(dash_end(field@, 0));
    assert(p =~= field@.subrange(0, e as int));
    if e == 0 {
        return None;
    }
    let mut acc: u64 = 0;
    let mut j: usize = 0;
    while j < e
        invariant
            j <= e <= field@.len(),
            e == dash_end(field@, 0),
            p == field@.take(dash_end(field@, 0)),
            p == field@.take(e as int),
            p.len() == e,
            all_hex(p.take(j as int)),
            acc == hex_num(p.take(j as int)),
        decreases e - j,
    {
        let d = match hex_digit_value(field[j]) {
            Some(d) => d,
            None => {
                assert(p[j as int] == field@[j as int]);
                assert(!all_hex(p));
                return None;
            },
        };
        proof {
            assert(p.take(j + 1).drop_last() =~= p.take(j as int));
            assert(p.take(j + 1).last() == p[j as int] == field@[j as int]);
            assert(hex_num(p.take(j + 1)) == hex_num(p.take(j as int)) * 16 + hex_digit_val(
                field@[j as int],
            ));
        }
        if acc > 0xFFF_FFFF_FFFF_FFFF {
            proof {
                lemma_hex_prefix_le(p, j + 1);
                assert(hex_num(p.take(j + 1)) >= acc * 16);
                assert(hex_num(p) > u64::MAX);
            }
            return None;
        }
        acc = acc * 16 + (d as u64);
        j += 1;
    }
    proof {
        assert(p.take(j as int) =~= p);
    }
    Some(acc)
}

/// What one mapping line contributes, executably.
pub fn line_base(line: &Vec<u8>, exe: &Vec<u8>) -> (r: Option<u64>)
    ensures
        r == spec_line_base(line@, exe@),
{
    let fs = field_split(line);
    let ghost fsv = fs@.map_values(|v: Vec<u8>| v@);
    if fs.len() < 6 {
        return None;
    }
    assert(fsv.last() == fs@[fs@.len() - 1]@);
    if !bytes_eq(&fs[fs.len() - 1], exe) {
        return None;
    }
    if fs[1].len() == 0 {
        return None;
    }
    if fs[1][0] != 114 {
        return None;
    }
    range_start(&fs[0])
}

/// Scans the mapping-table text for the first readable mapping backed by
/// the executable path and returns its start address — the load base.
/// Fails with `BaseAddressNotFound`, and only with it, when no line yields
/// one.
pub fn find_base_address(maps: &Vec<u8>, exe: &Vec<u8>) -> (r: Result<u64, AppError>)
    ensures
        match spec_base_address(maps@, exe@) {
            Some(b) => r == Ok::<u64, AppError>(b),
            None => r == Err::<u64, AppError>(AppError::BaseAddressNotFound),
        },
{
    let len = maps.len();
    let mut i: usize = 0;
    while i < len
        invariant
            i <= len,
            len == maps@.len(),
            spec_base_address(maps@, exe@) == spec_base_of(lines_from(maps@, i as int), exe@),
        decreases len - i,
    {
        let e = find_line_end(maps, i);
        proof {
            lemma_line_end(maps@, i as int);
        }
        let line = copy_range(maps, i, e);
        let ghost lf = lines_from(maps@, i as int);
        proof {
            if e >= len {
                assert(lf =~= seq![maps@.subrange(i as int, e as int)]);
            } else {
                assert(lf == seq![maps@.subrange(i as int, e as int)] + lines_from(maps@, e + 1));
            }
            assert(lf[0] == line@);
            assert(lf.drop_first() =~= if e >= len {
                Seq::<Seq<u8>>::empty()
            } else {
                lines_from(maps@, e + 1)
            });
        }
        match line_base(&line, exe) {
            Some(b) => {
                return Ok(b);
            },
            None => {},
        }
        if e >= len {
            proof {
                assert(spec_base_of(lf, exe@) == spec_base_of(lf.drop_first(), exe@));
                assert(spec_base_of(Seq::<Seq<u8>>::empty(), exe@) == None::<u64>);
            }
            return Err(AppError::BaseAddressNotFound);
        }
        proof {
            assert(spec_base_of(lf, exe@) == spec_base_of(lf.drop_first(), exe@));
        }
        i = e + 1;
    }
    proof {
        assert(lines_from(maps@, i as int) =~= Seq::<Seq<u8>>::empty());
    }
    Err(AppError::BaseAddressNotFound)
}

} // verus!
