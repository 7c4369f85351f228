//! A value model of a scanned directory tree.
//!
//! The walker, the size aggregator and the wipe executor all work on
//! [`FsEntry`] values.  A caller outside the library reads the real
//! filesystem into such a value: a directory whose listing failed is
//! recorded with `readable == false`, and an entry whose metadata could
//! not be read is recorded as [`FsEntry::Opaque`] and contributes
//! nothing countable.

use vstd::prelude::*;

use crate::dir_helpers::{DirInfo, DirStats};

verus! {

broadcast use vstd::seq::group_seq_axioms, vstd::std_specs::vec::group_vec_axioms;

/// One entry of the scanned tree.
pub enum FsEntry {
    /// A directory.  `readable` records whether listing its children
    /// succeeded; when it is false, `entries` is meaningless and is by
    /// convention empty.
    Dir { name: String, readable: bool, entries: Vec<FsEntry> },
    /// A regular file and its length in bytes.
    File { name: String, size: usize },
    /// An entry whose metadata could not be read.
    Opaque { name: String },
}

impl FsEntry {
    /// The entry's base name.
    pub open spec fn spec_name(self) -> Seq<char> {
        match self {
            FsEntry::Dir { name, .. } => name@,
            FsEntry::File { name, .. } => name@,
            FsEntry::Opaque { name } => name@,
        }
    }

    /// The entry's base name.
    pub fn name(&self) -> (r: &String)
        ensures
            r@ == self.spec_name(),
    {
        match self {
            FsEntry::Dir { name, .. } => name,
            FsEntry::File { name, .. } => name,
            FsEntry::Opaque { name } => name,
        }
    }
}

/// The base names of a sequence of sibling entries.
pub open spec fn entry_names(s: Seq<FsEntry>) -> Seq<Seq<char>> {
    s.map_values(|e: FsEntry| e.spec_name())
}

/// A valid base name: non-empty and free of the path separator.
pub open spec fn name_ok(n: Seq<char>) -> bool {
    n.len() > 0 && forall|i: int| 0 <= i < n.len() ==> n[i] != '/'
}

/// Sibling entries carry pairwise distinct names, as directory listings do.
pub open spec fn distinct_names(s: Seq<FsEntry>) -> bool {
    forall|i: int, j: int|
        0 <= i < j < s.len() ==> (#[trigger] s[i]).spec_name() != (#[trigger] s[j]).spec_name()
}

/// Structural well-formedness: every name is valid and sibling names
/// are distinct, at every level.
pub open spec fn wf_entry(e: FsEntry) -> bool
    decreases e,
{
    &&& name_ok(e.spec_name())
    &&& match e {
        FsEntry::Dir { readable, entries, .. } => {
            &&& (forall|i: int| 0 <= i < entries@.len() ==> wf_entry(#[trigger] entries@[i]))
            &&& distinct_names(entries@)
            &&& (!readable ==> entries@.len() == 0)
        },
        _ => true,
    }
}

/// The statistics one entry contributes to its parent: a directory
/// counts itself plus, when its listing is readable, its contents; a
/// file counts itself and its byte length; an opaque entry counts
/// nothing.
pub open spec fn stats_of(e: FsEntry) -> DirStats
    decreases e,
{
    match e {
        FsEntry::Dir { readable, entries, .. } => {
            if readable {
                DirStats { dirs: 1, files: 0, bytes: 0 }.add(stats_of_seq(entries@))
            } else {
                DirStats { dirs: 1, files: 0, bytes: 0 }
            }
        },
        FsEntry::File { size, .. } => DirStats { dirs: 0, files: 1, bytes: size as nat },
        FsEntry::Opaque { .. } => DirStats::zero(),
    }
}

/// The summed statistics of a sequence of sibling entries.
pub open spec fn stats_of_seq(s: Seq<FsEntry>) -> DirStats
    decreases s,
{
    if s.len() == 0 {
        DirStats::zero()
    } else {
        stats_of_seq(s.drop_last()).add(stats_of(s.last()))
    }
}

/// A tree the executable aggregator accepts: structurally well formed,
/// with totals that fit the machine's counters.
pub open spec fn wf_tree(e: FsEntry) -> bool {
    wf_entry(e) && stats_of(e).fits()
}

/// Summing one more sibling extends the prefix sum pointwise.
pub proof fn lemma_stats_take_step(s: Seq<FsEntry>, i: int)
    requires
        0 <= i < s.len(),
    ensures
        stats_of_seq(s.take(i + 1)) == stats_of_seq(s.take(i)).add(stats_of(s[i])),
{
    let t = s.take(i + 1);
    assert(t.drop_last() =~= s.take(i));
    assert(t.last() == s[i]);
}

/// The whole sequence's statistics are the statistics of its full prefix.
pub proof fn lemma_stats_take_all(s: Seq<FsEntry>)
    ensures
        stats_of_seq(s.take(s.len() as int)) == stats_of_seq(s),
{
    assert(s.take(s.len() as int) =~= s);
}

/// Prefix sums never exceed the whole sum.
pub proof fn lemma_stats_take_le(s: Seq<FsEntry>, i: int)
    requires
        0 <= i <= s.len(),
    ensures
        stats_of_seq(s.take(i)).le(stats_of_seq(s)),
    decreases s.len() - i,
{
    if i == s.len() {
        lemma_stats_take_all(s);
    } else {
        lemma_stats_take_step(s, i);
        lemma_stats_take_le(s, i + 1);
    }
}

/// One sibling's statistics never exceed the siblings' sum.
pub proof fn lemma_stats_elem_le(s: Seq<FsEntry>, i: int)
    requires
        0 <= i < s.len(),
    ensures
        stats_of(s[i]).le(stats_of_seq(s)),
{
    lemma_stats_take_step(s, i);
    lemma_stats_take_le(s, i + 1);
    assert(stats_of_seq(s.take(i + 1)) == stats_of_seq(s.take(i)).add(stats_of(s[i])));
}

/// A well-formed tree's children are well-formed trees: structure is
/// inherited directly and fitting totals follow from the child's
/// statistics being bounded by the parent's.
pub proof fn lemma_child_wf(e: FsEntry, i: int)
    requires
        wf_tree(e),
        e is Dir,
        e->Dir_readable,
        0 <= i < e->Dir_entries@.len(),
    ensures
        wf_tree(e->Dir_entries@[i]),
        stats_of_seq(e->Dir_entries@).fits(),
{
    let s = e->Dir_entries@;
    lemma_stats_elem_le(s, i);
}

/// The aggregator's answer for a directory with nothing countable
/// below it: an empty directory, and equally one whose listing is not
/// readable, counts exactly itself.  `dir_size` has no failure path:
/// its contract returns these statistics rather than an error.
pub proof fn lemma_dir_size_leaf_dir(name: String, readable: bool, entries: Vec<FsEntry>)
    requires
        entries@.len() == 0,
    ensures
        stats_of(FsEntry::Dir { name, readable, entries }) == (DirStats {
            dirs: 1,
            files: 0,
            bytes: 0,
        }),
{
    let e = FsEntry::Dir { name, readable, entries };
    if readable {
        assert(stats_of_seq(e->Dir_entries@) == DirStats::zero());
    }
}

/// Whether `n` is a valid base name: non-empty and free of the path
/// separator.
pub fn check_name(n: &str) -> (b: bool)
    ensures
        b == name_ok(n@),
{
    let len = n.unicode_len();
    if len == 0 {
        return false;
    }
    let mut i: usize = 0;
    while i < len
        invariant
            0 <= i <= len,
            len == n@.len(),
            forall|j: int| 0 <= j < i ==> n@[j] != '/',
        decreases len - i,
    {
        if n.get_char(i) == '/' {
            return false;
        }
        i = i + 1;
    }
    true
}

/// Decides [`wf_tree`] for a whole tree, computing its statistics on
/// the way: callers that received a tree from outside the library can
/// test it before handing it to the walker or the aggregator.
pub fn tree_is_wf(e: &FsEntry) -> (b: bool)
    ensures
        b == wf_tree(*e),
{
    check_entry(e).is_some()
}

/// Checks names, sibling uniqueness and counter bounds in one
/// recursive pass; yields the subtree's statistics exactly on
/// well-formed input.
fn check_entry(e: &FsEntry) -> (r: Option<DirInfo>)
    ensures
        r is Some <==> wf_tree(*e),
        r is Some ==> r->Some_0@ == stats_of(*e),
    decreases *e,
{
    match e {
        FsEntry::File { name, size } => {
            if check_name(name.as_str()) {
                Some(DirInfo::new(0, 1, *size))
            } else {
                None
            }
        },
        FsEntry::Opaque { name } => {
            if check_name(name.as_str()) {
                Some(DirInfo::new(0, 0, 0))
            } else {
                None
            }
        },
        FsEntry::Dir { name, readable, entries } => {
            if !check_name(name.as_str()) {
                return None;
            }
            if !*readable {
                if entries.len() == 0 {
                    return Some(DirInfo::new(1, 0, 0));
                } else {
                    return None;
                }
            }
            let ghost s = entries@;
            let n = entries.len();
            let mut i: usize = 0;
            while i < n
                invariant
                    0 <= i <= n,
                    n == s.len(),
                    s == entries@,
                    *e is Dir && e->Dir_entries@ == s,
                    forall|p: int, q: int|
                        0 <= p < q < s.len() && p < i ==> (#[trigger] s[p]).spec_name() != (
                        #[trigger] s[q]).spec_name(),
                decreases n - i,
            {
                let mut j: usize = i + 1;
                while j < n
                    invariant
                        0 <= i < j <= n,
                        n == s.len(),
                        s == entries@,
                        *e is Dir && e->Dir_entries@ == s,
                        forall|q: int|
                            i < q < j ==> s[i as int].spec_name() != (#[trigger] s[q]).spec_name(),
                    decreases n - j,
                {
                    if *entries[i].name() == *entries[j].name() {
                        proof {
                            assert(s[i as int].spec_name() == s[j as int].spec_name());
                            assert(!distinct_names(s));
                            assert(*e is Dir && e->Dir_entries@ == s);
                            assert(!wf_entry(*e));
                        }
                        return None;
                    }
                    j = j + 1;
                }
                i = i + 1;
            }
            let mut acc = DirInfo::new(1, 0, 0);
            let mut i: usize = 0;
            proof {
                assert(s.take(0) =~= Seq::<FsEntry>::empty());
            }
            while i < n
                invariant
                    0 <= i <= n,
                    n == s.len(),
                    s == entries@,
                    distinct_names(s),
                    name_ok(e.spec_name()),
                    *e is Dir,
                    e->Dir_readable,
                    e->Dir_entries@ == s,
                    forall|k: int| 0 <= k < i ==> wf_tree(#[trigger] s[k]),
                    acc@ == (DirStats { dirs: 1, files: 0, bytes: 0 }).add(
                        stats_of_seq(s.take(i as int)),
                    ),
                decreases n - i,
            {
                let sub = match check_entry(&entries[i]) {
                    Some(sub) => sub,
                    None => {
                        proof {
                            if wf_entry(s[i as int]) {
                                lemma_stats_elem_le(s, i as int);
                            }
                        }
                        return None;
                    },
                };
                proof {
                    lemma_stats_take_step(s, i as int);
                }
                let dc = match acc.dir_count.checked_add(sub.dir_count) {
                    Some(v) => v,
                    None => {
                        proof {
                            lemma_stats_take_le(s, i as int + 1);
                        }
                        return None;
                    },
                };
                let fc = match acc.file_count.checked_add(sub.file_count) {
                    Some(v) => v,
                    None => {
                        proof {
                            lemma_stats_take_le(s, i as int + 1);
                        }
                        return None;
                    },
                };
                let sz = match acc.size.checked_add(sub.size) {
                    Some(v) => v,
                    None => {
                        proof {
                            lemma_stats_take_le(s, i as int + 1);
                        }
                        return None;
                    },
                };
                acc = DirInfo::new(dc, fc, sz);
                i = i + 1;
            }
            proof {
                lemma_stats_take_all(s);
            }
            Some(acc)
        },
    }
}

impl DirInfo {
    /// Recursive file and directory counts and byte total for one
    /// subtree, per the aggregator's convention: the root directory
    /// itself is included in `dir_count`, and an unreadable directory
    /// contributes its own count and nothing below it.
    pub fn dir_size(e: &FsEntry) -> (r: DirInfo)
        requires
            wf_tree(*e),
        ensures
            r@ == stats_of(*e),
        decreases *e,
    {
        match e {
            FsEntry::Dir { readable, entries, .. } => {
                if !*readable {
                    DirInfo::new(1, 0, 0)
                } else {
                    let ghost s = entries@;
                    let mut acc = DirInfo::new(1, 0, 0);
                    let mut i: usize = 0;
                    proof {
                        assert(s.take(0) =~= Seq::<FsEntry>::empty());
                    }
                    while i < entries.len()
                        invariant
                            0 <= i <= entries.len(),
                            s == entries@,
                            wf_tree(*e),
                            *e is Dir,
                            e->Dir_readable,
                            e->Dir_entries@ == s,
                            acc@ == (DirStats { dirs: 1, files: 0, bytes: 0 }).add(
                                stats_of_seq(s.take(i as int)),
                            ),
                        decreases entries.len() - i,
                    {
                        proof {
                            lemma_child_wf(*e, i as int);
                            lemma_stats_take_step(s, i as int);
                            lemma_stats_take_le(s, i as int + 1);
                        }
                        let sub = DirInfo::dir_size(&entries[i]);
                        acc = DirInfo::new(
                            acc.dir_count + sub.dir_count,
                            acc.file_count + sub.file_count,
                            acc.size + sub.size,
                        );
                        i = i + 1;
                    }
                    proof {
                        lemma_stats_take_all(s);
                    }
                    acc
                }
            },
            FsEntry::File { size, .. } => DirInfo::new(0, 1, *size),
            FsEntry::Opaque { .. } => DirInfo::new(0, 0, 0),
        }
    }
}

} // verus!
