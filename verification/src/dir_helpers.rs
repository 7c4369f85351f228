//! Size and count statistics for a directory subtree, and the walker
//! that collects deletion candidates.

use vstd::prelude::*;
use vstd::string::StrSliceExecFns;
use vstd::string::StringExecFns;

use crate::configuration::language_option::{LanguageOption, RuleSpec, spec_matches};
use crate::fs_tree::{
    FsEntry, distinct_names, lemma_stats_elem_le, lemma_stats_take_all, lemma_stats_take_step,
    name_ok, stats_of, stats_of_seq, wf_entry, wf_tree,
};
use crate::text::{is_prefix_of, lemma_prefix_ext, lemma_prefix_trans};

verus! {

/// The mathematical value of a [`DirInfo`]: unbounded counts of
/// directories and files and an unbounded byte total.
pub ghost struct DirStats {
    pub dirs: nat,
    pub files: nat,
    pub bytes: nat,
}

impl DirStats {
    /// The all-zero statistics.
    pub open spec fn zero() -> DirStats {
        DirStats { dirs: 0, files: 0, bytes: 0 }
    }

    /// Pointwise addition.
    pub open spec fn add(self, other: DirStats) -> DirStats {
        DirStats {
            dirs: self.dirs + other.dirs,
            files: self.files + other.files,
            bytes: self.bytes + other.bytes,
        }
    }

    /// Pointwise comparison, used to justify the summary subtraction.
    pub open spec fn le(self, other: DirStats) -> bool {
        self.dirs <= other.dirs && self.files <= other.files && self.bytes <= other.bytes
    }

    /// Every component fits in a `usize`.
    pub open spec fn fits(self) -> bool {
        self.dirs <= usize::MAX && self.files <= usize::MAX && self.bytes <= usize::MAX
    }
}

/// Recursive file/directory counts and byte total for one subtree.
#[derive(Debug, Clone, Copy, PartialEq, Eq, Structural)]
pub struct DirInfo {
    pub dir_count: usize,
    pub file_count: usize,
    pub size: usize,
}

impl View for DirInfo {
    type V = DirStats;

    open spec fn view(&self) -> DirStats {
        DirStats {
            dirs: self.dir_count as nat,
            files: self.file_count as nat,
            bytes: self.size as nat,
        }
    }
}

impl DirInfo {
    pub fn new(dir_count: usize, file_count: usize, size: usize) -> (r: DirInfo)
        ensures
            r.dir_count == dir_count,
            r.file_count == file_count,
            r.size == size,
    {
        DirInfo { dir_count, file_count, size }
    }
}

/// Bytes per mebibyte, the unit of the size column.
pub const BYTES_PER_MB: usize = 1048576;

/// The decimal rendering of `n` under the `en` locale's digit
/// grouping, as num-format produces it; a function of the number
/// alone.
pub uninterp spec fn grouped_decimal(n: int) -> Seq<char>;

/// Relies on num-format's `ToFormattedString::to_formatted_string`
/// with the `en` locale: a decimal rendering of the number, depending
/// on the number alone.
#[verifier::external_body]
fn format_grouped(n: usize) -> (r: String)
    ensures
        r@ == grouped_decimal(n as int),
{
    num_format::ToFormattedString::to_formatted_string(&n, &num_format::Locale::en)
}

impl DirInfo {
    /// The file count, rendered with digit grouping.
    pub fn file_count_formatted(&self) -> (r: String)
        ensures
            r@ == grouped_decimal(self.file_count as int),
    {
        format_grouped(self.file_count)
    }

    /// The byte total scaled to whole mebibytes, rendered with digit
    /// grouping.
    pub fn size_formatted_mb(&self) -> (r: String)
        ensures
            r@ == grouped_decimal((self.size / BYTES_PER_MB) as int),
    {
        format_grouped(self.size / BYTES_PER_MB)
    }
}

/// One record the walker yields: a matched target directory together
/// with its statistics, or a directory whose listing failed.
pub enum WalkRecord {
    Matched { path: String, info: DirInfo },
    ListFailed { path: String },
}

/// The mathematical value of a [`WalkRecord`].
pub ghost struct GWalkItem {
    pub matched: bool,
    pub path: Seq<char>,
    pub stats: DirStats,
}

impl View for WalkRecord {
    type V = GWalkItem;

    open spec fn view(&self) -> GWalkItem {
        match self {
            WalkRecord::Matched { path, info } => GWalkItem {
                matched: true,
                path: path@,
                stats: info@,
            },
            WalkRecord::ListFailed { path } => GWalkItem {
                matched: false,
                path: path@,
                stats: DirStats::zero(),
            },
        }
    }
}

/// The views of a sequence of walk records.
pub open spec fn records_view(s: Seq<WalkRecord>) -> Seq<GWalkItem> {
    s.map_values(|r: WalkRecord| r@)
}

/// The path of an entry named `name` inside the directory at `dir`.
pub open spec fn spec_child_path(dir: Seq<char>, name: Seq<char>) -> Seq<char> {
    dir + "/"@ + name
}

/// Joins a directory path and a base name with the path separator.
pub fn join_path(dir: &str, name: &str) -> (r: String)
    ensures
        r@ == spec_child_path(dir@, name@),
{
    let mut p = dir.to_owned();
    p.append("/");
    p.append(name);
    p
}

/// The item recording a directory whose listing failed.
pub open spec fn fail_item(path: Seq<char>) -> GWalkItem {
    GWalkItem { matched: false, path, stats: DirStats::zero() }
}

/// The item recording a matched target.
pub open spec fn match_item(path: Seq<char>, e: FsEntry) -> GWalkItem {
    GWalkItem { matched: true, path, stats: stats_of(e) }
}

/// The items one child of the directory at `dir` contributes, given
/// the full sibling list: nothing for a non-directory; one matched item
/// and no descent for a directory the rule matches; one failure item
/// for an unlistable directory; otherwise the items of the recursive
/// walk into it.
pub open spec fn entry_items(
    dir: Seq<char>,
    e: FsEntry,
    siblings: Seq<FsEntry>,
    rule: RuleSpec,
) -> Seq<GWalkItem>
    decreases e, 0int,
{
    let cp = spec_child_path(dir, e.spec_name());
    if !(e is Dir) {
        Seq::empty()
    } else if spec_matches(rule, e, Some(siblings)) {
        seq![match_item(cp, e)]
    } else if !e->Dir_readable {
        seq![fail_item(cp)]
    } else {
        walk_prefix(cp, e->Dir_entries@, e->Dir_entries@.len() as int, rule)
    }
}

/// The items the first `n` children of the directory at `dir`
/// contribute, in listing order.
pub open spec fn walk_prefix(
    dir: Seq<char>,
    siblings: Seq<FsEntry>,
    n: int,
    rule: RuleSpec,
) -> Seq<GWalkItem>
    decreases siblings, n,
{
    if n <= 0 || n > siblings.len() {
        Seq::empty()
    } else {
        walk_prefix(dir, siblings, n - 1, rule) + entry_items(dir, siblings[n - 1], siblings, rule)
    }
}

/// The full walk of the tree rooted at `root_path`: the children of a
/// listable root are visited in order; a root that cannot be listed
/// (or is not a directory) yields a single failure item.
pub open spec fn walk_tree(root_path: Seq<char>, tree: FsEntry, rule: RuleSpec) -> Seq<GWalkItem> {
    match tree {
        FsEntry::Dir { readable, entries, .. } => {
            if readable {
                walk_prefix(root_path, entries@, entries@.len() as int, rule)
            } else {
                seq![fail_item(root_path)]
            }
        },
        _ => seq![fail_item(root_path)],
    }
}

impl DirInfo {
    /// Walks the tree rooted at `root_path` and collects, in traversal
    /// order, each directory the rule matches (with its statistics,
    /// and without descending into it) and each directory whose
    /// listing failed.
    pub fn get_paths_to_delete(root_path: &str, tree: &FsEntry, rule: &LanguageOption) -> (r: Vec<
        WalkRecord,
    >)
        requires
            wf_tree(*tree),
        ensures
            records_view(r@) == walk_tree(root_path@, *tree, rule@),
    {
        let mut out: Vec<WalkRecord> = Vec::new();
        match tree {
            FsEntry::Dir { readable, entries, .. } => {
                if *readable {
                    Self::walk_entries(root_path, entries, rule, &mut out);
                } else {
                    out.push(WalkRecord::ListFailed { path: root_path.to_owned() });
                    proof {
                        assert(records_view(out@) =~= seq![fail_item(root_path@)]);
                    }
                }
            },
            _ => {
                out.push(WalkRecord::ListFailed { path: root_path.to_owned() });
                proof {
                    assert(records_view(out@) =~= seq![fail_item(root_path@)]);
                }
            },
        }
        out
    }

    /// Visits the children of the directory at `dir_path` in order and
    /// appends their items to `out`.
    fn walk_entries(dir_path: &str, entries: &Vec<FsEntry>, rule: &LanguageOption, out: &mut Vec<
        WalkRecord,
    >)
        requires
            forall|i: int| 0 <= i < entries@.len() ==> wf_entry(#[trigger] entries@[i]),
            stats_of_seq(entries@).fits(),
        ensures
            records_view(final(out)@) == records_view(old(out)@) + walk_prefix(
                dir_path@,
                entries@,
                entries@.len() as int,
                rule@,
            ),
        decreases *entries,
    {
        let ghost s = entries@;
        let ghost out0 = out@;
        let mut i: usize = 0;
        proof {
            assert(records_view(out@) =~= records_view(out0) + walk_prefix(
                dir_path@,
                s,
                0,
                rule@,
            ));
        }
        while i < entries.len()
            invariant
                0 <= i <= s.len(),
                s == entries@,
                forall|k: int| 0 <= k < s.len() ==> wf_entry(#[trigger] s[k]),
                stats_of_seq(s).fits(),
                records_view(out@) == records_view(out0) + walk_prefix(
                    dir_path@,
                    s,
                    i as int,
                    rule@,
                ),
            decreases s.len() - i,
        {
            let ghost out_pre = out@;
            match &entries[i] {
                FsEntry::Dir { readable, entries: child_entries, .. } => {
                    let cp = join_path(dir_path, entries[i].name().as_str());
                    if rule.matches(&entries[i], Some(entries)) {
                        proof {
                            lemma_stats_elem_le(s, i as int);
                        }
                        let info = DirInfo::dir_size(&entries[i]);
                        out.push(WalkRecord::Matched { path: cp, info });
                        proof {
                            assert(records_view(out@) =~= records_view(out_pre) + seq![
                                match_item(spec_child_path(dir_path@, s[i as int].spec_name()), s[i as int]),
                            ]);
                        }
                    } else if !*readable {
                        out.push(WalkRecord::ListFailed { path: cp });
                        proof {
                            assert(records_view(out@) =~= records_view(out_pre) + seq![
                                fail_item(spec_child_path(dir_path@, s[i as int].spec_name())),
                            ]);
                        }
                    } else {
                        proof {
                            lemma_stats_elem_le(s, i as int);
                            lemma_child_stats_fit(s[i as int]);
                        }
                        Self::walk_entries(cp.as_str(), child_entries, rule, out);
                    }
                },
                _ => {
                    proof {
                        assert(entry_items(dir_path@, s[i as int], s, rule@) =~= Seq::<
                            GWalkItem,
                        >::empty());
                    }
                },
            }
            proof {
                assert(walk_prefix(dir_path@, s, i as int + 1, rule@) == walk_prefix(
                    dir_path@,
                    s,
                    i as int,
                    rule@,
                ) + entry_items(dir_path@, s[i as int], s, rule@));
                assert(records_view(out@) =~= records_view(out0) + walk_prefix(
                    dir_path@,
                    s,
                    i as int + 1,
                    rule@,
                ));
            }
            i = i + 1;
        }
    }
}

/// The summed statistics of the matched items of a walk.
pub open spec fn matched_stats(items: Seq<GWalkItem>) -> DirStats
    decreases items,
{
    if items.len() == 0 {
        DirStats::zero()
    } else {
        matched_stats(items.drop_last()).add(
            if items.last().matched {
                items.last().stats
            } else {
                DirStats::zero()
            },
        )
    }
}

/// Matched totals distribute over concatenation.
pub proof fn lemma_matched_stats_app(a: Seq<GWalkItem>, b: Seq<GWalkItem>)
    ensures
        matched_stats(a + b) == matched_stats(a).add(matched_stats(b)),
    decreases b,
{
    if b.len() == 0 {
        assert(a + b =~= a);
    } else {
        lemma_matched_stats_app(a, b.drop_last());
        assert((a + b).drop_last() =~= a + b.drop_last());
        assert((a + b).last() == b.last());
    }
}

/// What one child's walk can report as matched never exceeds the
/// child's own statistics: a matched directory reports exactly itself,
/// and descent only subdivides the subtree it entered.
pub proof fn lemma_entry_items_le(dir: Seq<char>, e: FsEntry, siblings: Seq<FsEntry>, rule: RuleSpec)
    ensures
        matched_stats(entry_items(dir, e, siblings, rule)).le(stats_of(e)),
    decreases e, 0int,
{
    let items = entry_items(dir, e, siblings, rule);
    assert(matched_stats(Seq::<GWalkItem>::empty()) == DirStats::zero());
    if !(e is Dir) {
        assert(matched_stats(items) == DirStats::zero());
    } else if spec_matches(rule, e, Some(siblings)) {
        assert(items.drop_last() =~= Seq::<GWalkItem>::empty());
        assert(matched_stats(items) == DirStats::zero().add(stats_of(e)));
    } else if !e->Dir_readable {
        assert(items.drop_last() =~= Seq::<GWalkItem>::empty());
        assert(matched_stats(items) == DirStats::zero().add(DirStats::zero()));
    } else {
        let ce = e->Dir_entries@;
        lemma_walk_prefix_le(spec_child_path(dir, e.spec_name()), ce, ce.len() as int, rule);
        lemma_stats_take_all(ce);
        assert(stats_of(e) == (DirStats { dirs: 1, files: 0, bytes: 0 }).add(stats_of_seq(ce)));
    }
}

/// The matched total of a partial walk never exceeds the statistics of
/// the children walked so far.
pub proof fn lemma_walk_prefix_le(dir: Seq<char>, siblings: Seq<FsEntry>, n: int, rule: RuleSpec)
    requires
        0 <= n <= siblings.len(),
    ensures
        matched_stats(walk_prefix(dir, siblings, n, rule)).le(stats_of_seq(siblings.take(n))),
    decreases siblings, n,
{
    if n == 0 {
        assert(siblings.take(n) =~= Seq::<FsEntry>::empty());
        assert(matched_stats(walk_prefix(dir, siblings, 0, rule)) == DirStats::zero());
    } else {
        lemma_walk_prefix_le(dir, siblings, n - 1, rule);
        lemma_entry_items_le(dir, siblings[n - 1], siblings, rule);
        lemma_matched_stats_app(
            walk_prefix(dir, siblings, n - 1, rule),
            entry_items(dir, siblings[n - 1], siblings, rule),
        );
        lemma_stats_take_step(siblings, n - 1);
    }
}

/// The matched total of a whole walk never exceeds the statistics of
/// the tree walked: every matched subtree is counted once inside the
/// whole, and pruning keeps matched subtrees disjoint.
pub proof fn lemma_walk_tree_le(root_path: Seq<char>, tree: FsEntry, rule: RuleSpec)
    ensures
        matched_stats(walk_tree(root_path, tree, rule)).le(stats_of(tree)),
{
    assert(matched_stats(Seq::<GWalkItem>::empty()) == DirStats::zero());
    match tree {
        FsEntry::Dir { readable, entries, .. } => {
            if readable {
                lemma_walk_prefix_le(root_path, entries@, entries@.len() as int, rule);
                lemma_stats_take_all(entries@);
                assert(stats_of(tree) == (DirStats { dirs: 1, files: 0, bytes: 0 }).add(
                    stats_of_seq(entries@),
                ));
            } else {
                assert(seq![fail_item(root_path)].drop_last() =~= Seq::<GWalkItem>::empty());
                assert(matched_stats(seq![fail_item(root_path)]) == DirStats::zero().add(
                    DirStats::zero(),
                ));
            }
        },
        _ => {
            assert(seq![fail_item(root_path)].drop_last() =~= Seq::<GWalkItem>::empty());
            assert(matched_stats(seq![fail_item(root_path)]) == DirStats::zero().add(
                DirStats::zero(),
            ));
        },
    }
}

/// `path` lies strictly inside the directory at `dir`.
pub open spec fn strictly_under(dir: Seq<char>, path: Seq<char>) -> bool {
    is_prefix_of(dir + "/"@, path)
}

/// `path` is the directory at `dir` or lies inside it.
pub open spec fn path_under(dir: Seq<char>, path: Seq<char>) -> bool {
    path == dir || strictly_under(dir, path)
}

/// No matched path of the walk lies inside another matched path.
pub open spec fn no_nested_matches(items: Seq<GWalkItem>) -> bool {
    forall|i: int, j: int|
        0 <= i < items.len() && 0 <= j < items.len() && i != j && (#[trigger] items[i]).matched
            && (#[trigger] items[j]).matched ==> !strictly_under(items[i].path, items[j].path)
}

/// Every item of one child's walk stays at or under that child's path.
pub proof fn lemma_entry_items_under(dir: Seq<char>, e: FsEntry, siblings: Seq<FsEntry>, rule: RuleSpec)
    ensures
        forall|t: int|
            0 <= t < entry_items(dir, e, siblings, rule).len() ==> path_under(
                spec_child_path(dir, e.spec_name()),
                (#[trigger] entry_items(dir, e, siblings, rule)[t]).path,
            ),
    decreases e, 0int,
{
    let cp = spec_child_path(dir, e.spec_name());
    if e is Dir && !spec_matches(rule, e, Some(siblings)) && e->Dir_readable {
        let ce = e->Dir_entries@;
        lemma_walk_prefix_under(cp, ce, ce.len() as int, rule);
    }
    assert forall|t: int| 0 <= t < entry_items(dir, e, siblings, rule).len() implies path_under(
        cp,
        (#[trigger] entry_items(dir, e, siblings, rule)[t]).path,
    ) by {
        let items = entry_items(dir, e, siblings, rule);
        if e is Dir {
            if spec_matches(rule, e, Some(siblings)) {
                assert(items[t] == match_item(cp, e));
            } else if !e->Dir_readable {
                assert(items[t] == fail_item(cp));
            } else {
                let ce = e->Dir_entries@;
                assert(items[t] == walk_prefix(cp, ce, ce.len() as int, rule)[t]);
                assert(strictly_under(cp, items[t].path));
            }
        }
    }
}

/// Every item of a partial walk lies strictly inside the walked
/// directory.
pub proof fn lemma_walk_prefix_under(dir: Seq<char>, siblings: Seq<FsEntry>, n: int, rule: RuleSpec)
    ensures
        forall|t: int|
            0 <= t < walk_prefix(dir, siblings, n, rule).len() ==> strictly_under(
                dir,
                (#[trigger] walk_prefix(dir, siblings, n, rule)[t]).path,
            ),
    decreases siblings, n,
{
    if n <= 0 || n > siblings.len() {
    } else {
        let prev = walk_prefix(dir, siblings, n - 1, rule);
        let e = siblings[n - 1];
        let block = entry_items(dir, e, siblings, rule);
        let cp = spec_child_path(dir, e.spec_name());
        lemma_walk_prefix_under(dir, siblings, n - 1, rule);
        lemma_entry_items_under(dir, e, siblings, rule);
        assert forall|t: int|
            0 <= t < (prev + block).len() implies strictly_under(
            dir,
            (#[trigger] (prev + block)[t]).path,
        ) by {
            if t < prev.len() {
                assert((prev + block)[t] == prev[t]);
            } else {
                assert((prev + block)[t] == block[t - prev.len()]);
                let q = block[t - prev.len()].path;
                lemma_prefix_ext(dir + "/"@, e.spec_name());
                if q == cp {
                } else {
                    lemma_prefix_ext(cp, "/"@);
                    lemma_prefix_trans(dir + "/"@, cp, cp + "/"@);
                    lemma_prefix_trans(dir + "/"@, cp + "/"@, q);
                }
            }
        }
    }
}

/// `p` lies at or under the path of one of the first `n` children.
pub open spec fn bucketed_item(dir: Seq<char>, siblings: Seq<FsEntry>, n: int, p: Seq<char>) -> bool {
    exists|k: int|
        0 <= k < n && path_under(spec_child_path(dir, (#[trigger] siblings[k]).spec_name()), p)
}

/// Every item of a partial walk lies at or under the path of one of
/// the children already walked.
pub open spec fn items_bucketed(
    dir: Seq<char>,
    siblings: Seq<FsEntry>,
    n: int,
    items: Seq<GWalkItem>,
) -> bool {
    forall|t: int|
        0 <= t < items.len() ==> bucketed_item(dir, siblings, n, (#[trigger] items[t]).path)
}

/// Attributes each item of a partial walk to the child it came from.
pub proof fn lemma_walk_prefix_bucketed(dir: Seq<char>, siblings: Seq<FsEntry>, n: int, rule: RuleSpec)
    requires
        n <= siblings.len(),
    ensures
        items_bucketed(dir, siblings, n, walk_prefix(dir, siblings, n, rule)),
    decreases n,
{
    if n <= 0 {
    } else {
        let prev = walk_prefix(dir, siblings, n - 1, rule);
        let e = siblings[n - 1];
        let block = entry_items(dir, e, siblings, rule);
        lemma_walk_prefix_bucketed(dir, siblings, n - 1, rule);
        lemma_entry_items_under(dir, e, siblings, rule);
        assert forall|t: int| 0 <= t < (prev + block).len() implies bucketed_item(
            dir,
            siblings,
            n,
            (#[trigger] (prev + block)[t]).path,
        ) by {
            if t < prev.len() {
                assert((prev + block)[t] == prev[t]);
                assert(bucketed_item(dir, siblings, n - 1, prev[t].path));
                let k = choose|k: int|
                    0 <= k < n - 1 && path_under(
                        spec_child_path(dir, (#[trigger] siblings[k]).spec_name()),
                        prev[t].path,
                    );
                assert(path_under(
                    spec_child_path(dir, siblings[k].spec_name()),
                    (prev + block)[t].path,
                ));
            } else {
                assert((prev + block)[t] == block[t - prev.len()]);
                assert(path_under(
                    spec_child_path(dir, siblings[n - 1].spec_name()),
                    (prev + block)[t].path,
                ));
            }
        }
    }
}

/// Two paths lying under sibling entries of one directory can nest
/// only when the siblings carry the same name: the name is readable
/// off any nested path between the directory's path and the next
/// separator, and names hold no separator.
pub proof fn lemma_sibling_separation(
    dir: Seq<char>,
    n1: Seq<char>,
    n2: Seq<char>,
    a: Seq<char>,
    b: Seq<char>,
)
    requires
        name_ok(n1),
        name_ok(n2),
        path_under(spec_child_path(dir, n1), a),
        path_under(spec_child_path(dir, n2), b),
        strictly_under(a, b),
    ensures
        n1 == n2,
{
    reveal_strlit("/");
    let cp1 = spec_child_path(dir, n1);
    let cp2 = spec_child_path(dir, n2);
    let l = dir.len() as int;
    assert(("/"@).len() == 1);
    assert(cp1.len() == l + 1 + n1.len());
    assert(cp2.len() == l + 1 + n2.len());
    assert(is_prefix_of(cp1 + "/"@, b)) by {
        if a == cp1 {
            assert(cp1 + "/"@ == a + "/"@);
        } else {
            lemma_prefix_ext(a, "/"@);
            lemma_prefix_trans(cp1 + "/"@, a, a + "/"@);
            lemma_prefix_trans(cp1 + "/"@, a + "/"@, b);
        }
    }
    assert(b.len() > cp1.len());
    assert(forall|i: int| 0 <= i < n1.len() ==> b[l + 1 + i] == n1[i]) by {
        assert(forall|i: int|
            0 <= i < n1.len() ==> (cp1 + "/"@)[l + 1 + i] == n1[i]);
    }
    assert(b[l + 1 + n1.len()] == '/') by {
        assert((cp1 + "/"@)[cp1.len() as int] == '/');
    }
    assert(is_prefix_of(cp2, b)) by {
        if b == cp2 {
        } else {
            lemma_prefix_ext(cp2, "/"@);
            lemma_prefix_trans(cp2, cp2 + "/"@, b);
        }
    }
    assert(forall|i: int| 0 <= i < n2.len() ==> b[l + 1 + i] == n2[i]) by {
        assert(forall|i: int| 0 <= i < n2.len() ==> cp2[l + 1 + i] == n2[i]);
    }
    if n1.len() < n2.len() {
        assert(n2[n1.len() as int] == '/');
        assert(false);
    } else if n2.len() < n1.len() {
        if b == cp2 {
            assert(b.len() == l + 1 + n2.len());
            assert(false);
        } else {
            assert(is_prefix_of(cp2 + "/"@, b));
            assert(b[l + 1 + n2.len()] == '/') by {
                assert((cp2 + "/"@)[cp2.len() as int] == '/');
            }
            assert(n1[n2.len() as int] == '/');
            assert(false);
        }
    } else {
        assert(n1 =~= n2);
    }
}

/// Pruning keeps one child's matched paths free of nesting: a matched
/// directory is reported alone, and the recursive walk below an
/// unmatched child is nesting-free by induction.
pub proof fn lemma_entry_items_no_nesting(
    dir: Seq<char>,
    e: FsEntry,
    siblings: Seq<FsEntry>,
    rule: RuleSpec,
)
    requires
        wf_entry(e),
    ensures
        no_nested_matches(entry_items(dir, e, siblings, rule)),
    decreases e, 0int,
{
    if e is Dir && !spec_matches(rule, e, Some(siblings)) && e->Dir_readable {
        let ce = e->Dir_entries@;
        let cp = spec_child_path(dir, e.spec_name());
        lemma_walk_prefix_no_nesting(cp, ce, ce.len() as int, rule);
    }
}

/// A partial walk's matched paths are free of nesting: within one
/// child by induction, and across two children because their paths
/// live under distinct sibling names.
pub proof fn lemma_walk_prefix_no_nesting(
    dir: Seq<char>,
    siblings: Seq<FsEntry>,
    n: int,
    rule: RuleSpec,
)
    requires
        n <= siblings.len(),
        forall|k: int| 0 <= k < siblings.len() ==> wf_entry(#[trigger] siblings[k]),
        distinct_names(siblings),
    ensures
        no_nested_matches(walk_prefix(dir, siblings, n, rule)),
    decreases siblings, n,
{
    if n <= 0 {
    } else {
        let prev = walk_prefix(dir, siblings, n - 1, rule);
        let e = siblings[n - 1];
        let block = entry_items(dir, e, siblings, rule);
        let items = prev + block;
        lemma_walk_prefix_no_nesting(dir, siblings, n - 1, rule);
        lemma_entry_items_no_nesting(dir, e, siblings, rule);
        lemma_walk_prefix_bucketed(dir, siblings, n - 1, rule);
        lemma_entry_items_under(dir, e, siblings, rule);
        assert forall|i: int, j: int|
            0 <= i < items.len() && 0 <= j < items.len() && i != j && (
            #[trigger] items[i]).matched && (#[trigger] items[j]).matched implies !strictly_under(
            items[i].path,
            items[j].path,
        ) by {
            if i < prev.len() && j < prev.len() {
                assert(items[i] == prev[i] && items[j] == prev[j]);
            } else if i >= prev.len() && j >= prev.len() {
                assert(items[i] == block[i - prev.len()] && items[j] == block[j - prev.len()]);
            } else {
                let ip = if i < prev.len() { i } else { j };
                let ib = if i < prev.len() { j } else { i };
                assert(items[ip] == prev[ip]);
                assert(items[ib] == block[ib - prev.len()]);
                let a = items[ip].path;
                let c = items[ib].path;
                assert(bucketed_item(dir, siblings, n - 1, prev[ip].path));
                let k = choose|k: int|
                    0 <= k < n - 1 && path_under(
                        spec_child_path(dir, (#[trigger] siblings[k]).spec_name()),
                        prev[ip].path,
                    );
                assert(path_under(spec_child_path(dir, e.spec_name()), c));
                if strictly_under(items[i].path, items[j].path) {
                    if i < prev.len() {
                        lemma_sibling_separation(
                            dir,
                            siblings[k].spec_name(),
                            e.spec_name(),
                            a,
                            c,
                        );
                    } else {
                        lemma_sibling_separation(
                            dir,
                            e.spec_name(),
                            siblings[k].spec_name(),
                            c,
                            a,
                        );
                    }
                    assert(siblings[k].spec_name() == e.spec_name());
                    assert(false);
                }
            }
        }
    }
}

/// The pruning invariant: the walk reports no matched path that lies
/// inside another matched path, because a matched directory is never
/// descended into and sibling subtrees are disjoint.
pub proof fn lemma_walker_prunes(root_path: Seq<char>, tree: FsEntry, rule: RuleSpec)
    requires
        wf_entry(tree),
    ensures
        no_nested_matches(walk_tree(root_path, tree, rule)),
{
    match tree {
        FsEntry::Dir { readable, entries, .. } => {
            if readable {
                lemma_walk_prefix_no_nesting(root_path, entries@, entries@.len() as int, rule);
            }
        },
        _ => {},
    }
}

/// A readable directory's contents fit whenever the directory itself
/// does.
pub proof fn lemma_child_stats_fit(e: FsEntry)
    requires
        e is Dir,
        e->Dir_readable,
        stats_of(e).fits(),
    ensures
        stats_of_seq(e->Dir_entries@).fits(),
{
}

} // verus!
