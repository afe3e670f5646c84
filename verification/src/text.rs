//! Byte-string helpers shared by the mapping-table parser, the source-set
//! filter and the symbol chooser. Paths and symbol names are handled as raw
//! bytes throughout the crate.

use vstd::prelude::*;

verus! {

/// The first index at or after `i` holding a newline, or `s.len()` if none.
pub open spec fn line_end(s: Seq<u8>, i: int) -> int
    decreases s.len() - i,
    when 0 <= i <= s.len()
{
    if i >= s.len() {
        i
    } else if s[i] == 10 {
        i
    } else {
        line_end(s, i + 1)
    }
}

pub proof fn lemma_line_end(s: Seq<u8>, i: int)
    requires
        0 <= i <= s.len(),
    ensures
        i <= line_end(s, i) <= s.len(),
        line_end(s, i) < s.len() ==> s[line_end(s, i)] == 10,
        forall|j: int| i <= j < line_end(s, i) ==> s[j] != 10,
    decreases s.len() - i,
{
    if i < s.len() && s[i] != 10 {
        lemma_line_end(s, i + 1);
    }
}

/// `s` cut at newlines, from position `i` on: the same splitting as the
/// text's lines read one by one, with no trailing empty line after a final
/// newline.
pub open spec fn lines_from(s: Seq<u8>, i: int) -> Seq<Seq<u8>>
    decreases s.len() - i,
    when 0 <= i <= s.len()
    via lines_from_decreases
{
    if i >= s.len() {
        seq![]
    } else {
        let e = line_end(s, i);
        if e >= s.len() {
            seq![s.subrange(i, e)]
        } else {
            seq![s.subrange(i, e)] + lines_from(s, e + 1)
        }
    }
}

#[via_fn]
proof fn lines_from_decreases(s: Seq<u8>, i: int) {
    if 0 <= i && i < s.len() {
        lemma_line_end(s, i);
    }
}

/// All lines of `s`.
pub open spec fn spec_lines(s: Seq<u8>) -> Seq<Seq<u8>> {
    lines_from(s, 0)
}

/// The needle occurs in the haystack starting at index `i`.
pub open spec fn matches_at(hay: Seq<u8>, i: int, needle: Seq<u8>) -> bool {
    &&& 0 <= i
    &&& i + needle.len() <= hay.len()
    &&& hay.subrange(i, i + needle.len()) == needle
}

/// The needle occurs somewhere in the haystack.
pub open spec fn contains_seq(hay: Seq<u8>, needle: Seq<u8>) -> bool {
    exists|i: int| matches_at(hay, i, needle)
}

/// Whether the needle occurs at position `i` of the haystack.
fn matches_at_exec(hay: &Vec<u8>, i: usize, needle: &Vec<u8>) -> (r: bool)
    requires
        i + needle@.len() <= hay@.len(),
    ensures
        r == matches_at(hay@, i as int, needle@),
{
    let n = needle.len();
    let hn = hay.len();
    let mut k: usize = 0;
    while k < n
        invariant
            k <= n,
            n == needle@.len(),
            hn == hay@.len(),
            i + n <= hn,
            forall|j: int| 0 <= j < k ==> hay@[i + j] == needle@[j],
        decreases n - k,
    {
        if hay[i + k] != needle[k] {
            assert(hay@.subrange(i as int, i + n) != needle@) by {
                assert(hay@.subrange(i as int, i + n)[k as int] != needle@[k as int]);
            }
            return false;
        }
        k += 1;
    }
    assert(hay@.subrange(i as int, i + n) =~= needle@);
    true
}

/// Whether `needle` occurs anywhere in `hay`, byte for byte.
pub fn contains_bytes(hay: &Vec<u8>, needle: &Vec<u8>) -> (r: bool)
    ensures
        r == contains_seq(hay@, needle@),
{
    if needle.len() > hay.len() {
        assert(forall|i: int| !matches_at(hay@, i, needle@));
        return false;
    }
    let last = hay.len() - needle.len();
    let mut i: usize = 0;
    loop
        invariant
            last == hay@.len() - needle@.len(),
            needle@.len() <= hay@.len(),
            i <= last,
            forall|j: int| 0 <= j < i ==> !matches_at(hay@, j, needle@),
        decreases last - i,
    {
        if matches_at_exec(hay, i, needle) {
            assert(contains_seq(hay@, needle@));
            return true;
        }
        if i == last {
            assert(forall|j: int| !matches_at(hay@, j, needle@));
            return false;
        }
        i += 1;
    }
}

/// Whether the two byte strings are equal.
pub fn bytes_eq(a: &Vec<u8>, b: &Vec<u8>) -> (r: bool)
    ensures
        r == (a@ == b@),
{
    if a.len() != b.len() {
        return false;
    }
    let n = a.len();
    let mut k: usize = 0;
    while k < n
        invariant
            k <= n,
            n == a@.len() == b@.len(),
            forall|j: int| 0 <= j < k ==> a@[j] == b@[j],
        decreases n - k,
    {
        if a[k] != b[k] {
            return false;
        }
        k += 1;
    }
    assert(a@ =~= b@);
    true
}

/// Whether `prefix` is a prefix of `s`.
pub fn starts_with_bytes(s: &Vec<u8>, prefix: &Vec<u8>) -> (r: bool)
    ensures
        r == (prefix@.len() <= s@.len() && s@.subrange(0, prefix@.len() as int) == prefix@),
{
    if prefix.len() > s.len() {
        return false;
    }
    matches_at_exec(s, 0, prefix)
}

/// The first newline at or after `from`, or the text's length if none is
/// left.
pub(crate) fn find_line_end(s: &Vec<u8>, from: usize) -> (r: usize)
    requires
        from <= s@.len(),
    ensures
        r == line_end(s@, from as int),
{
    let n = s.len();
    let mut i: usize = from;
    while i < n && s[i] != 10
        invariant
            from <= i <= n,
            n == s@.len(),
            line_end(s@, from as int) == line_end(s@, i as int),
        decreases n - i,
    {
        i += 1;
    }
    proof {
        lemma_line_end(s@, i as int);
    }
    i
}

/// A copy of `s[from..to]`.
pub fn copy_range(s: &Vec<u8>, from: usize, to: usize) -> (r: Vec<u8>)
    requires
        from <= to <= s@.len(),
    ensures
        r@ == s@.subrange(from as int, to as int),
{
    let mut out: Vec<u8> = Vec::new();
    let mut i: usize = from;
    while i < to
        invariant
            from <= i <= to <= s@.len(),
            out@ == s@.subrange(from as int, i as int),
        decreases to - i,
    {
        out.push(s[i]);
        assert(out@ =~= s@.subrange(from as int, i + 1));
        i += 1;
    }
    out
}

/// Line number `n` (1-based) of the text, or `None` if the text has fewer
/// lines.
pub fn nth_line(text: &Vec<u8>, n: usize) -> (r: Option<Vec<u8>>)
    requires
        n >= 1,
    ensures
        match r {
            Some(line) => n - 1 < spec_lines(text@).len() && line@ == spec_lines(text@)[n - 1],
            None => spec_lines(text@).len() < n,
        },
{
    let len = text.len();
    let mut i: usize = 0;
    let mut k: usize = 0;
    while i < len
        invariant
            i <= len,
            len == text@.len(),
            k < n,
            spec_lines(text@).skip(k as int) == lines_from(text@, i as int),
            k as int <= spec_lines(text@).len(),
        decreases len - i,
    {
        let e = find_line_end(text, i);
        proof {
            lemma_line_end(text@, i as int);
        }
        if k == n - 1 {
            let line = copy_range(text, i, e);
            proof {
                let lf = lines_from(text@, i as int);
                if e >= len {
                    assert(lf =~= seq![text@.subrange(i as int, e as int)]);
                } else {
                    assert(lf == seq![text@.subrange(i as int, e as int)] + lines_from(
                        text@,
                        e + 1,
                    ));
                }
                assert(lf[0] == text@.subrange(i as int, e as int));
                assert(spec_lines(text@).len() == k + lf.len());
                assert(spec_lines(text@)[k as int] == spec_lines(text@).skip(k as int)[0]);
            }
            return Some(line);
        }
        if e >= len {
            proof {
                assert(lines_from(text@, i as int).len() == 1);
                assert(spec_lines(text@).len() == k + 1);
            }
            return None;
        }
        proof {
            assert(lines_from(text@, i as int) == seq![text@.subrange(i as int, e as int)]
                + lines_from(text@, e + 1));
            assert(spec_lines(text@).skip(k + 1) =~= lines_from(text@, i as int).skip(1));
            assert(lines_from(text@, i as int).skip(1) =~= lines_from(text@, e + 1));
        }
        i = e + 1;
        k += 1;
    }
    proof {
        assert(lines_from(text@, i as int) =~= Seq::<Seq<u8>>::empty());
        assert(spec_lines(text@).skip(k as int).len() == 0);
    }
    None
}

} // verus!
