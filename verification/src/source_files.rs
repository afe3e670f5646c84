//! The source-set filter: the set of file paths that belong to the
//! project's source tree. Symbols whose resolved location lies outside it
//! are not breakpoint candidates.
//!
//! Walking the directory tree is the caller's I/O; the set itself, the
//! membership test and the displayable listing live here. Paths are kept as
//! raw bytes.

use vstd::prelude::*;

use crate::text::{bytes_eq, copy_range, starts_with_bytes};

verus! {

broadcast use vstd::seq_lib::group_seq_properties;

/// The known source tree: its root path and the files below it.
pub struct SourceFiles {
    project_root: Vec<u8>,
    file_names: Vec<Vec<u8>>,
}

/// `name` with `root` cut off the front when `root` is a prefix of it,
/// `name` unchanged otherwise.
pub open spec fn display_name(root: Seq<u8>, name: Seq<u8>) -> Seq<u8> {
    if root.len() <= name.len() && name.take(root.len() as int) == root {
        name.skip(root.len() as int)
    } else {
        name
    }
}

/// The first `k` member names, each stripped of the root prefix and
/// followed by a newline.
pub open spec fn spec_listing(root: Seq<u8>, names: Seq<Seq<u8>>, k: int) -> Seq<u8>
    decreases k,
{
    if k <= 0 {
        seq![]
    } else {
        spec_listing(root, names, k - 1) + display_name(root, names[k - 1]) + seq![10u8]
    }
}

/// The first occurrence of each name, in order of first appearance: what
/// remains when every repeat of an earlier name is dropped.
pub open spec fn spec_first_occurrences(names: Seq<Seq<u8>>) -> Seq<Seq<u8>>
    decreases names.len(),
{
    if names.len() == 0 {
        seq![]
    } else if names.drop_last().contains(names.last()) {
        spec_first_occurrences(names.drop_last())
    } else {
        spec_first_occurrences(names.drop_last()).push(names.last())
    }
}

impl SourceFiles {
    /// The member file names, as byte strings.
    pub closed spec fn names(self) -> Seq<Seq<u8>> {
        self.file_names@.map_values(|v: Vec<u8>| v@)
    }

    /// The root path of the source tree.
    pub closed spec fn root(self) -> Seq<u8> {
        self.project_root@
    }

    /// `name` belongs to the source set.
    pub open spec fn has_name(self, name: Seq<u8>) -> bool {
        self.names().contains(name)
    }

    /// No file name is stored twice.
    pub open spec fn no_dupes(self) -> bool {
        forall|i: int, j: int|
            0 <= i < j < self.names().len() ==> self.names()[i] != self.names()[j]
    }

    /// Builds the source set from the root path and the file names found
    /// under it: exactly the first occurrence of each given name, in order
    /// of first appearance.
    pub fn new(project_root: Vec<u8>, file_names: Vec<Vec<u8>>) -> (r: SourceFiles)
        ensures
            r.root() == project_root@,
            r.names() == spec_first_occurrences(file_names@.map_values(|v: Vec<u8>| v@)),
            forall|n: Seq<u8>|
                r.has_name(n) <==> file_names@.map_values(|v: Vec<u8>| v@).contains(n),
            r.no_dupes(),
    {
        let mut ret = SourceFiles { project_root, file_names: Vec::new() };
        let n = file_names.len();
        let ghost given = file_names@.map_values(|v: Vec<u8>| v@);
        proof {
            assert(given.take(0) =~= Seq::<Seq<u8>>::empty());
            assert(ret.names() =~= Seq::<Seq<u8>>::empty());
        }
        let mut i: usize = 0;
        while i < n
            invariant
                i <= n,
                n == file_names@.len(),
                given == file_names@.map_values(|v: Vec<u8>| v@),
                ret.root() == project_root@,
                ret.names() == spec_first_occurrences(given.take(i as int)),
                forall|m: Seq<u8>| ret.has_name(m) <==> given.take(i as int).contains(m),
                ret.no_dupes(),
            decreases n - i,
        {
            let name = copy_range(&file_names[i], 0, file_names[i].len());
            assert(name@ == given[i as int]);
            let ghost old_ret = ret;
            let ghost old_names = ret.names();
            proof {
                assert(given.take(i + 1) =~= given.take(i as int).push(given[i as int]));
            }
            if !ret.contains(&name) {
                proof {
                    assert((ret.file_names@.push(name)).map_values(|v: Vec<u8>| v@)
                        =~= old_names.push(name@));
                }
                ret.file_names.push(name);
                proof {
                    assert forall|a: int, b: int| 0 <= a < b < ret.names().len() implies ret
                        .names()[a] != ret.names()[b] by {
                        if b == ret.names().len() - 1 {
                            assert(ret.names()[a] == old_names[a]);
                            assert(!old_names.contains(name@));
                        }
                    }
                    assert forall|m: Seq<u8>| ret.has_name(m) <==> given.take(i + 1).contains(
                        m,
                    ) by {
                        assert(old_ret.has_name(m) <==> given.take(i as int).contains(m));
                        assert(old_ret.names() == old_names);
                        assert(ret.names() == old_names.push(name@));
                        assert(old_names.push(name@).contains(m) <==> (m == name@
                            || old_names.contains(m)));
                        assert(given.take(i as int).push(given[i as int]).contains(m) <==> (m
                            == given[i as int] || given.take(i as int).contains(m)));
                    }
                    assert(given.take(i + 1).drop_last() =~= given.take(i as int));
                    assert(!given.take(i as int).contains(given[i as int]));
                    assert(spec_first_occurrences(given.take(i + 1)) == spec_first_occurrences(
                        given.take(i as int),
                    ).push(given[i as int]));
                }
            } else {
                proof {
                    assert forall|m: Seq<u8>| ret.has_name(m) <==> given.take(i + 1).contains(
                        m,
                    ) by {
                        assert(ret.has_name(m) <==> given.take(i as int).contains(m));
                        assert(given.take(i as int).push(given[i as int]).contains(m) <==> (m
                            == given[i as int] || given.take(i as int).contains(m)));
                        assert(ret.has_name(name@));
                    }
                    assert(given.take(i + 1).drop_last() =~= given.take(i as int));
                    assert(given.take(i as int).contains(given[i as int]));
                    assert(spec_first_occurrences(given.take(i + 1)) == spec_first_occurrences(
                        given.take(i as int),
                    ));
                }
            }
            i += 1;
        }
        proof {
            assert(given.take(n as int) =~= given);
        }
        ret
    }

    /// Whether `file_name` belongs to the source set.
    pub fn contains(&self, file_name: &Vec<u8>) -> (r: bool)
        ensures
            r == self.has_name(file_name@),
    {
        let n = self.file_names.len();
        let mut i: usize = 0;
        while i < n
            invariant
                i <= n,
                n == self.names().len(),
                forall|j: int| 0 <= j < i ==> self.names()[j] != file_name@,
            decreases n - i,
        {
            if bytes_eq(&self.file_names[i], file_name) {
                assert(self.names()[i as int] == file_name@);
                return true;
            }
            i += 1;
        }
        assert(forall|j: int| 0 <= j < self.names().len() ==> self.names()[j] != file_name@);
        false
    }

    /// Rewrites `buffer` as the listing of all member files, one per line,
    /// each stripped of the project-root prefix. Deliberately a byte
    /// listing: paths are raw bytes throughout this crate, so every stored
    /// name is listed, whether or not it is valid UTF-8; how to render a
    /// non-UTF-8 name is the display layer's choice.
    pub fn to_buffer(&self, buffer: &mut Vec<u8>)
        ensures
            final(buffer)@ == spec_listing(self.root(), self.names(), self.names().len() as int),
    {
        buffer.clear();
        let n = self.file_names.len();
        let mut i: usize = 0;
        while i < n
            invariant
                i <= n,
                n == self.names().len(),
                buffer@ == spec_listing(self.root(), self.names(), i as int),
            decreases n - i,
        {
            let name = &self.file_names[i];
            let mut shown: Vec<u8> = if starts_with_bytes(name, &self.project_root) {
                copy_range(name, self.project_root.len(), name.len())
            } else {
                copy_range(name, 0, name.len())
            };
            proof {
                assert(name@.subrange(0, name@.len() as int) =~= name@);
                assert(shown@ == display_name(self.root(), self.names()[i as int]));
            }
            buffer.append(&mut shown);
            buffer.push(10);
            proof {
                assert(buffer@ =~= spec_listing(self.root(), self.names(), i + 1));
            }
            i += 1;
        }
    }
}

} // verus!
