//! The wipe executor: classifies each matched candidate against the
//! ignore prefixes, decides which are to be deleted, folds deletion
//! outcomes into running totals, and writes the report.
//!
//! Deletion itself is outside work: a caller asks for the plan,
//! attempts the deletions it lists, and hands the per-step outcomes
//! back to [`Wipe::run`], which never promises more about a deletion
//! than what the outcome says.

use vstd::prelude::*;
use vstd::string::StringExecFns;

use crate::configuration::config::Config;
use crate::configuration::language_option::string_views;
use crate::dir_helpers::{
    DirInfo, DirStats, GWalkItem, WalkRecord, lemma_walk_tree_le, lemma_walker_prunes,
    matched_stats, no_nested_matches, records_view, strictly_under, walk_tree,
};
use crate::fs_tree::{FsEntry, stats_of, wf_entry, wf_tree};
use crate::text::{is_prefix_of, lower_of, lowercase, str_starts_with};
use crate::wipe_params::WipeParams;
use crate::writer::{
    Writer, spec_content_header_lines, spec_content_line, spec_footer_lines, spec_header_line,
    spec_summary_lines,
};

verus! {

/// A candidate path is ignored exactly when its case-folded form
/// starts with the case-folded form of some ignore prefix.
pub open spec fn spec_ignored(path: Seq<char>, ignores: Seq<Seq<char>>) -> bool {
    exists|i: int|
        0 <= i < ignores.len() && is_prefix_of(lower_of(#[trigger] ignores[i]), lower_of(path))
}

/// Classifies one candidate path against the ignore prefixes,
/// case-insensitively.  An empty ignore set leaves every candidate
/// non-ignored.
pub fn is_ignored(path: &str, ignores: &Vec<String>) -> (b: bool)
    ensures
        b == spec_ignored(path@, string_views(ignores@)),
{
    let ghost igs = string_views(ignores@);
    let folded = lowercase(path);
    let mut i: usize = 0;
    while i < ignores.len()
        invariant
            0 <= i <= ignores@.len(),
            igs == string_views(ignores@),
            folded@ == lower_of(path@),
            forall|j: int|
                0 <= j < i ==> !is_prefix_of(lower_of(#[trigger] igs[j]), lower_of(path@)),
        decreases ignores@.len() - i,
    {
        let prefix = lowercase(ignores[i].as_str());
        if str_starts_with(folded.as_str(), prefix.as_str()) {
            proof {
                assert(igs[i as int] == ignores@[i as int]@);
            }
            return true;
        }
        proof {
            assert(igs[i as int] == ignores@[i as int]@);
        }
        i = i + 1;
    }
    false
}

/// An empty ignore set ignores nothing.
pub proof fn lemma_ignore_empty(path: Seq<char>)
    ensures
        !spec_ignored(path, Seq::<Seq<char>>::empty()),
{
}

/// A path that is itself listed among the ignore prefixes is ignored.
pub proof fn lemma_ignore_member(path: Seq<char>, ignores: Seq<Seq<char>>, k: int)
    requires
        0 <= k < ignores.len(),
        ignores[k] == path,
    ensures
        spec_ignored(path, ignores),
{
    assert(is_prefix_of(lower_of(ignores[k]), lower_of(path)));
}

/// One planned step of a run: a matched path with its statistics, its
/// classification, and whether this run will attempt to delete it.
#[derive(Debug)]
pub struct WipeStep {
    pub path: String,
    pub info: DirInfo,
    pub ignored: bool,
    pub delete: bool,
}

/// The mathematical value of a [`WipeStep`].
pub ghost struct GWipeStep {
    pub path: Seq<char>,
    pub stats: DirStats,
    pub ignored: bool,
    pub delete: bool,
}

impl View for WipeStep {
    type V = GWipeStep;

    open spec fn view(&self) -> GWipeStep {
        GWipeStep { path: self.path@, stats: self.info@, ignored: self.ignored, delete: self.delete }
    }
}

/// The views of a sequence of steps.
pub open spec fn steps_view(s: Seq<WipeStep>) -> Seq<GWipeStep> {
    s.map_values(|st: WipeStep| st@)
}

/// The step one matched item becomes: ignored candidates are never
/// deleted, and deletion is attempted only in wipe mode.
pub open spec fn step_of(it: GWalkItem, ignores: Seq<Seq<char>>, wipe: bool) -> GWipeStep {
    let ignored = spec_ignored(it.path, ignores);
    GWipeStep { path: it.path, stats: it.stats, ignored, delete: !ignored && wipe }
}

/// The planned steps of a run: one per matched item of the walk, in
/// traversal order; listing failures yield no step.
pub open spec fn spec_steps(items: Seq<GWalkItem>, ignores: Seq<Seq<char>>, wipe: bool) -> Seq<
    GWipeStep,
>
    decreases items,
{
    if items.len() == 0 {
        Seq::empty()
    } else {
        spec_steps(items.drop_last(), ignores, wipe) + (if items.last().matched {
            seq![step_of(items.last(), ignores, wipe)]
        } else {
            Seq::empty()
        })
    }
}

/// Extending the walked prefix by one item appends that item's step,
/// if any.
pub proof fn lemma_spec_steps_take_step(
    items: Seq<GWalkItem>,
    ignores: Seq<Seq<char>>,
    wipe: bool,
    i: int,
)
    requires
        0 <= i < items.len(),
    ensures
        spec_steps(items.take(i + 1), ignores, wipe) == spec_steps(items.take(i), ignores, wipe)
            + (if items[i].matched {
            seq![step_of(items[i], ignores, wipe)]
        } else {
            Seq::<GWipeStep>::empty()
        }),
{
    let t = items.take(i + 1);
    assert(t.drop_last() =~= items.take(i));
    assert(t.last() == items[i]);
}

/// In dry-run mode no step deletes.
pub proof fn lemma_dry_run_no_delete(items: Seq<GWalkItem>, ignores: Seq<Seq<char>>)
    ensures
        forall|k: int|
            0 <= k < spec_steps(items, ignores, false).len() ==> !(#[trigger] spec_steps(
                items,
                ignores,
                false,
            )[k]).delete,
    decreases items,
{
    if items.len() > 0 {
        lemma_dry_run_no_delete(items.drop_last(), ignores);
        let s = spec_steps(items, ignores, false);
        let prev = spec_steps(items.drop_last(), ignores, false);
        assert forall|k: int| 0 <= k < s.len() implies !(#[trigger] s[k]).delete by {
            if k < prev.len() {
                assert(s[k] == prev[k]);
            } else {
                assert(s[k] == step_of(items.last(), ignores, false));
            }
        }
    }
}

/// Some matched item of the walk carries this path.
pub open spec fn has_matched_item_with(items: Seq<GWalkItem>, p: Seq<char>) -> bool {
    exists|t: int| 0 <= t < items.len() && (#[trigger] items[t]).matched && items[t].path == p
}

/// Every planned step's path is the path of a matched item of the
/// walk it was planned from.
pub proof fn lemma_steps_paths_from_items(items: Seq<GWalkItem>, ignores: Seq<Seq<char>>, wipe: bool)
    ensures
        forall|k: int|
            0 <= k < spec_steps(items, ignores, wipe).len() ==> has_matched_item_with(
                items,
                (#[trigger] spec_steps(items, ignores, wipe)[k]).path,
            ),
    decreases items,
{
    if items.len() > 0 {
        lemma_steps_paths_from_items(items.drop_last(), ignores, wipe);
        let steps = spec_steps(items, ignores, wipe);
        let prev = spec_steps(items.drop_last(), ignores, wipe);
        assert forall|k: int| 0 <= k < steps.len() implies has_matched_item_with(
            items,
            (#[trigger] steps[k]).path,
        ) by {
            if k < prev.len() {
                assert(steps[k] == prev[k]);
                let t = choose|t: int|
                    0 <= t < items.drop_last().len() && (#[trigger] items.drop_last()[t]).matched
                        && items.drop_last()[t].path == prev[k].path;
                assert(items[t].matched && items[t].path == steps[k].path);
            } else {
                assert(steps[k] == step_of(items.last(), ignores, wipe));
                assert(items[items.len() - 1].matched && items[items.len() - 1].path
                    == steps[k].path);
            }
        }
    }
}

/// No planned step's path lies inside another step's path.
pub open spec fn no_nested_steps(steps: Seq<GWipeStep>) -> bool {
    forall|i: int, j: int|
        0 <= i < steps.len() && 0 <= j < steps.len() && i != j ==> !strictly_under(
            (#[trigger] steps[i]).path,
            (#[trigger] steps[j]).path,
        )
}

/// The pruning invariant carried to the plan: the steps of a run over
/// a well-formed tree never name a path inside another step's path,
/// so no deletion can pull a later step's target out from under it.
pub proof fn lemma_plan_prunes(
    root_path: Seq<char>,
    tree: FsEntry,
    rule: crate::configuration::language_option::RuleSpec,
    ignores: Seq<Seq<char>>,
    wipe: bool,
)
    requires
        wf_entry(tree),
    ensures
        no_nested_steps(spec_steps(walk_tree(root_path, tree, rule), ignores, wipe)),
{
    reveal_strlit("/");
    let items = walk_tree(root_path, tree, rule);
    let steps = spec_steps(items, ignores, wipe);
    lemma_walker_prunes(root_path, tree, rule);
    lemma_steps_paths_from_items(items, ignores, wipe);
    assert forall|i: int, j: int|
        0 <= i < steps.len() && 0 <= j < steps.len() && i != j implies !strictly_under(
        (#[trigger] steps[i]).path,
        (#[trigger] steps[j]).path,
    ) by {
        let ti = choose|t: int|
            0 <= t < items.len() && (#[trigger] items[t]).matched && items[t].path
                == steps[i].path;
        let tj = choose|t: int|
            0 <= t < items.len() && (#[trigger] items[t]).matched && items[t].path
                == steps[j].path;
        if ti == tj {
            // Equal paths never nest strictly: the would-be prefix is
            // one separator longer than the path itself.
            assert((steps[i].path + "/"@).len() > steps[j].path.len());
        }
    }
}

/// Steps that delete nothing wipe nothing.
proof fn lemma_no_delete_wipes_nothing(steps: Seq<GWipeStep>, results: Seq<Option<String>>, n: int)
    requires
        forall|k: int| 0 <= k < steps.len() ==> !(#[trigger] steps[k]).delete,
    ensures
        wiped_total(steps, results, n) == DirStats::zero(),
    decreases n,
{
    if n > 0 {
        lemma_no_delete_wipes_nothing(steps, results, n - 1);
    }
}

/// A dry run wipes nothing, whatever deletion outcomes are handed in:
/// repeating it leaves the tree, and with it the matched paths and
/// every total, unchanged.
pub proof fn lemma_dry_run_wipes_nothing(
    items: Seq<GWalkItem>,
    ignores: Seq<Seq<char>>,
    results: Seq<Option<String>>,
    n: int,
)
    ensures
        wiped_total(spec_steps(items, ignores, false), results, n) == DirStats::zero(),
{
    lemma_dry_run_no_delete(items, ignores);
    lemma_no_delete_wipes_nothing(spec_steps(items, ignores, false), results, n);
}

/// The summed statistics of all planned steps.
pub open spec fn steps_total(steps: Seq<GWipeStep>) -> DirStats
    decreases steps,
{
    if steps.len() == 0 {
        DirStats::zero()
    } else {
        steps_total(steps.drop_last()).add(steps.last().stats)
    }
}

/// Step totals distribute over concatenation.
pub proof fn lemma_steps_total_app(a: Seq<GWipeStep>, b: Seq<GWipeStep>)
    ensures
        steps_total(a + b) == steps_total(a).add(steps_total(b)),
    decreases b,
{
    if b.len() == 0 {
        assert(a + b =~= a);
    } else {
        lemma_steps_total_app(a, b.drop_last());
        assert((a + b).drop_last() =~= a + b.drop_last());
        assert((a + b).last() == b.last());
    }
}

/// The planned steps carry exactly the statistics of the matched
/// items.
pub proof fn lemma_steps_total_matched(items: Seq<GWalkItem>, ignores: Seq<Seq<char>>, wipe: bool)
    ensures
        steps_total(spec_steps(items, ignores, wipe)) == matched_stats(items),
    decreases items,
{
    if items.len() == 0 {
    } else {
        lemma_steps_total_matched(items.drop_last(), ignores, wipe);
        let prev = spec_steps(items.drop_last(), ignores, wipe);
        assert(steps_total(Seq::<GWipeStep>::empty()) == DirStats::zero());
        if items.last().matched {
            let block = seq![step_of(items.last(), ignores, wipe)];
            lemma_steps_total_app(prev, block);
            assert(block.drop_last() =~= Seq::<GWipeStep>::empty());
            assert(steps_total(block) == DirStats::zero().add(block.last().stats));
        } else {
            lemma_steps_total_app(prev, Seq::<GWipeStep>::empty());
        }
        assert(matched_stats(items) == matched_stats(items.drop_last()).add(
            if items.last().matched {
                items.last().stats
            } else {
                DirStats::zero()
            },
        ));
    }
}

/// The statistics wiped by the first `n` steps: those of each step
/// whose deletion was attempted and reported successful.
pub open spec fn wiped_total(steps: Seq<GWipeStep>, results: Seq<Option<String>>, n: int) -> DirStats
    decreases n,
{
    if n <= 0 || n > steps.len() {
        DirStats::zero()
    } else {
        wiped_total(steps, results, n - 1).add(
            if steps[n - 1].delete && n - 1 < results.len() && results[n - 1] is None {
                steps[n - 1].stats
            } else {
                DirStats::zero()
            },
        )
    }
}

/// The statistics of the ignored candidates among the first `n` steps.
pub open spec fn ignored_total(steps: Seq<GWipeStep>, n: int) -> DirStats
    decreases n,
{
    if n <= 0 || n > steps.len() {
        DirStats::zero()
    } else {
        ignored_total(steps, n - 1).add(
            if steps[n - 1].ignored {
                steps[n - 1].stats
            } else {
                DirStats::zero()
            },
        )
    }
}

/// Prefix sums of step statistics.
pub open spec fn steps_total_prefix(steps: Seq<GWipeStep>, n: int) -> DirStats
    decreases n,
{
    if n <= 0 || n > steps.len() {
        DirStats::zero()
    } else {
        steps_total_prefix(steps, n - 1).add(steps[n - 1].stats)
    }
}

/// The full prefix sum is the total.
pub proof fn lemma_steps_total_prefix_all(steps: Seq<GWipeStep>)
    ensures
        steps_total_prefix(steps, steps.len() as int) == steps_total(steps),
    decreases steps,
{
    if steps.len() > 0 {
        let n = steps.len() as int;
        lemma_steps_total_prefix_all(steps.drop_last());
        lemma_steps_total_prefix_agree(steps, steps.drop_last(), n - 1);
        assert(steps_total_prefix(steps, n - 1) == steps_total_prefix(steps.drop_last(), n - 1));
        assert(steps_total_prefix(steps, n) == steps_total_prefix(steps, n - 1).add(
            steps[n - 1].stats,
        ));
        assert(steps.last() == steps[n - 1]);
    }
}

/// Prefix sums agree on a common prefix.
pub proof fn lemma_steps_total_prefix_agree(a: Seq<GWipeStep>, b: Seq<GWipeStep>, n: int)
    requires
        n <= a.len(),
        n <= b.len(),
        forall|i: int| 0 <= i < n ==> a[i] == b[i],
    ensures
        forall|m: int| 0 <= m <= n ==> steps_total_prefix(a, m) == steps_total_prefix(b, m),
    decreases n,
{
    if n > 0 {
        lemma_steps_total_prefix_agree(a, b, n - 1);
        assert forall|m: int| 0 <= m <= n implies steps_total_prefix(a, m) == steps_total_prefix(
            b,
            m,
        ) by {
            if m == n {
                assert(steps_total_prefix(a, m - 1) == steps_total_prefix(b, m - 1));
            }
        }
    }
}

/// What the wiped and ignored prefix totals can reach is bounded by
/// the prefix of all step statistics.
pub proof fn lemma_partial_totals_le(steps: Seq<GWipeStep>, results: Seq<Option<String>>, n: int)
    requires
        0 <= n <= steps.len(),
    ensures
        wiped_total(steps, results, n).le(steps_total_prefix(steps, n)),
        ignored_total(steps, n).le(steps_total_prefix(steps, n)),
    decreases n,
{
    if n > 0 {
        lemma_partial_totals_le(steps, results, n - 1);
    }
}

/// Longer prefixes sum to at least as much.
pub proof fn lemma_steps_prefix_mono(steps: Seq<GWipeStep>, m: int, n: int)
    requires
        0 <= m <= n <= steps.len(),
    ensures
        steps_total_prefix(steps, m).le(steps_total_prefix(steps, n)),
    decreases n - m,
{
    if m < n {
        lemma_steps_prefix_mono(steps, m, n - 1);
    }
}

/// Whatever subset of the planned deletions succeeds, the wiped total
/// stays within the statistics of the tree that was walked, and so
/// does the ignored total: the summary subtraction
/// `after = previous - wiped` is well defined.
pub proof fn lemma_wiped_within_previous(
    root_path: Seq<char>,
    tree: FsEntry,
    rule: crate::configuration::language_option::RuleSpec,
    ignores: Seq<Seq<char>>,
    wipe: bool,
    results: Seq<Option<String>>,
)
    ensures
        ({
            let steps = spec_steps(walk_tree(root_path, tree, rule), ignores, wipe);
            wiped_total(steps, results, steps.len() as int).le(stats_of(tree))
                && ignored_total(steps, steps.len() as int).le(stats_of(tree))
        }),
{
    let items = walk_tree(root_path, tree, rule);
    let steps = spec_steps(items, ignores, wipe);
    lemma_partial_totals_le(steps, results, steps.len() as int);
    lemma_steps_total_prefix_all(steps);
    lemma_steps_total_matched(items, ignores, wipe);
    lemma_walk_tree_le(root_path, tree, rule);
}

/// Which run mode and rule the engine could not honor.
#[derive(Debug, Clone, Copy, PartialEq, Eq, Structural)]
pub enum WipeError {
    /// The selected language has no rule in the configuration.
    RuleNotFound,
    /// The handed-back deletion outcomes do not line up with the plan.
    OutcomeMismatch,
}

/// The view of one deletion outcome's error text.
pub open spec fn err_view(o: Option<String>) -> Option<Seq<char>> {
    match o {
        Some(e) => Some(e@),
        None => None,
    }
}

/// The `DirInfo` whose counters carry the given statistics.
pub open spec fn info_of(st: DirStats) -> DirInfo {
    DirInfo { dir_count: st.dirs as usize, file_count: st.files as usize, size: st.bytes as usize }
}

/// The per-candidate report lines of the first `n` steps.
pub open spec fn spec_content_lines(
    steps: Seq<GWipeStep>,
    results: Seq<Option<String>>,
    n: int,
) -> Seq<Seq<char>>
    decreases n,
{
    if n <= 0 || n > steps.len() {
        Seq::empty()
    } else {
        spec_content_lines(steps, results, n - 1) + seq![
            spec_content_line(
                steps[n - 1].path,
                Some(info_of(steps[n - 1].stats)),
                steps[n - 1].ignored,
                if steps[n - 1].delete && n - 1 < results.len() {
                    err_view(results[n - 1])
                } else {
                    None
                },
            ),
        ]
    }
}

/// The whole report of one run.
pub open spec fn spec_report_lines(
    params: WipeParams,
    steps: Seq<GWipeStep>,
    results: Seq<Option<String>>,
    previous_info: Option<DirInfo>,
) -> Seq<Seq<char>> {
    seq![spec_header_line(params)] + (if steps.len() > 0 {
        spec_content_header_lines()
    } else {
        Seq::<Seq<char>>::empty()
    }) + spec_content_lines(steps, results, steps.len() as int) + spec_summary_lines(
        params,
        info_of(wiped_total(steps, results, steps.len() as int)),
        info_of(ignored_total(steps, steps.len() as int)),
        previous_info,
    ) + spec_footer_lines(params, steps.len() > 0)
}

/// One run of the match-and-wipe engine.
pub struct Wipe {
    pub params: WipeParams,
    pub writer: Writer,
    pub previous_info: Option<DirInfo>,
    pub wipe_info: Option<DirInfo>,
    pub ignore_info: Option<DirInfo>,
}

impl Wipe {
    /// A run that has not produced anything yet.
    pub fn new(params: WipeParams) -> (w: Wipe)
        ensures
            w.params == params,
            w.writer@ == Seq::<Seq<char>>::empty(),
            w.previous_info is None,
            w.wipe_info is None,
            w.ignore_info is None,
    {
        Wipe {
            params,
            writer: Writer::new(),
            previous_info: None,
            wipe_info: None,
            ignore_info: None,
        }
    }

    /// Plans the run: walks the tree under the rule registered for the
    /// selected language and returns, in traversal order, each matched
    /// path with its statistics, its ignore classification and whether
    /// this run would delete it.  Fails exactly when the configuration
    /// holds no rule under the language's name.
    pub fn plan(&self, config: &Config, tree: &FsEntry) -> (r: Result<Vec<WipeStep>, WipeError>)
        requires
            wf_tree(*tree),
        ensures
            r is Ok <==> config@.contains_key(self.params.language.spec_name()),
            r is Err ==> r == Err::<Vec<WipeStep>, WipeError>(WipeError::RuleNotFound),
            r is Ok ==> steps_view(r->Ok_0@) == spec_steps(
                walk_tree(
                    self.params.path@,
                    *tree,
                    config@[self.params.language.spec_name()],
                ),
                string_views(self.params.ignores@),
                self.params.wipe,
            ),
    {
        let name = self.params.language.to_string();
        let rule = match config.get_option(name.as_str()) {
            Some(rule) => rule,
            None => {
                return Err(WipeError::RuleNotFound);
            },
        };
        let records = DirInfo::get_paths_to_delete(self.params.path.as_str(), tree, rule);
        let ghost items = records_view(records@);
        let ghost igs = string_views(self.params.ignores@);
        let mut steps: Vec<WipeStep> = Vec::new();
        let mut i: usize = 0;
        proof {
            assert(items.take(0) =~= Seq::<GWalkItem>::empty());
            assert(steps_view(steps@) =~= spec_steps(
                items.take(0),
                igs,
                self.params.wipe,
            ));
        }
        while i < records.len()
            invariant
                0 <= i <= records@.len(),
                items == records_view(records@),
                items.len() == records@.len(),
                igs == string_views(self.params.ignores@),
                steps_view(steps@) == spec_steps(items.take(i as int), igs, self.params.wipe),
            decreases records@.len() - i,
        {
            let ghost steps_pre = steps@;
            proof {
                assert(items[i as int] == records@[i as int]@);
            }
            match &records[i] {
                WalkRecord::Matched { path, info } => {
                    let ignored = is_ignored(path.as_str(), &self.params.ignores);
                    let delete = !ignored && self.params.wipe;
                    steps.push(WipeStep { path: path.clone(), info: *info, ignored, delete });
                    proof {
                        assert(steps@.last()@ == step_of(
                            items[i as int],
                            igs,
                            self.params.wipe,
                        ));
                        assert(steps_view(steps@) =~= steps_view(steps_pre) + seq![
                            step_of(items[i as int], igs, self.params.wipe),
                        ]);
                    }
                },
                WalkRecord::ListFailed { .. } => {
                    proof {
                        assert(steps_view(steps@) =~= steps_view(steps_pre) + Seq::<
                            GWipeStep,
                        >::empty());
                    }
                },
            }
            proof {
                lemma_spec_steps_take_step(items, igs, self.params.wipe, i as int);
            }
            i = i + 1;
        }
        proof {
            assert(items.take(items.len() as int) =~= items);
        }
        Ok(steps)
    }

    /// Runs the engine end to end over an already-scanned tree:
    /// resolves the rule, plans the steps, folds the handed-back
    /// deletion outcomes into the wiped and ignored totals, and writes
    /// the full report.  `results` holds one entry per planned step,
    /// in order: `None` for a step whose deletion succeeded or was
    /// never attempted, the error text of a failed deletion otherwise.
    /// One failed deletion affects nothing but its own step's totals.
    pub fn run(&mut self, config: &Config, tree: &FsEntry, results: &Vec<Option<String>>) -> (r:
        Result<(), WipeError>)
        requires
            wf_tree(*tree),
        ensures
            final(self).params == old(self).params,
            ({
                let key = old(self).params.language.spec_name();
                let igs = string_views(old(self).params.ignores@);
                if !config@.contains_key(key) {
                    r == Err::<(), WipeError>(WipeError::RuleNotFound) && *final(self) == *old(
                        self,
                    )
                } else {
                    let items = walk_tree(old(self).params.path@, *tree, config@[key]);
                    let steps = spec_steps(items, igs, old(self).params.wipe);
                    if results@.len() != steps.len() {
                        r == Err::<(), WipeError>(WipeError::OutcomeMismatch) && *final(self)
                            == *old(self)
                    } else {
                        let found = steps.len() > 0;
                        let prev = if found {
                            Some(info_of(stats_of(*tree)))
                        } else {
                            None::<DirInfo>
                        };
                        &&& r == Ok::<(), WipeError>(())
                        &&& final(self).previous_info == prev
                        &&& final(self).wipe_info == Some(
                            info_of(wiped_total(steps, results@, steps.len() as int)),
                        )
                        &&& final(self).ignore_info == Some(
                            info_of(ignored_total(steps, steps.len() as int)),
                        )
                        &&& final(self).writer@ == old(self).writer@ + spec_report_lines(
                            old(self).params,
                            steps,
                            results@,
                            prev,
                        )
                    }
                }
            }),
    {
        let steps = match self.plan(config, tree) {
            Ok(steps) => steps,
            Err(e) => {
                return Err(e);
            },
        };
        let ghost params0 = self.params;
        let ghost key = self.params.language.spec_name();
        let ghost rule = config@[key];
        let ghost items = walk_tree(self.params.path@, *tree, rule);
        let ghost igs = string_views(self.params.ignores@);
        let ghost gsteps = spec_steps(items, igs, self.params.wipe);
        proof {
            assert(gsteps.len() == steps@.len());
        }
        if results.len() != steps.len() {
            return Err(WipeError::OutcomeMismatch);
        }
        let found = steps.len() > 0;
        let ghost base0 = self.writer@;
        self.writer.write_header(&self.params);
        if found {
            self.writer.write_content_header();
        }
        let previous = if found {
            Some(DirInfo::dir_size(tree))
        } else {
            None
        };
        proof {
            if found {
                assert(previous == Some(info_of(stats_of(*tree))));
            }
        }
        let ghost base1 = self.writer@;
        proof {
            lemma_partial_totals_le(gsteps, results@, gsteps.len() as int);
            lemma_steps_total_prefix_all(gsteps);
            lemma_steps_total_matched(items, igs, params0.wipe);
            lemma_walk_tree_le(params0.path@, *tree, rule);
            assert(spec_content_lines(gsteps, results@, 0) =~= Seq::<Seq<char>>::empty());
            assert(self.writer@ =~= base1 + spec_content_lines(gsteps, results@, 0));
        }
        let mut wipe_acc = DirInfo::new(0, 0, 0);
        let mut ignore_acc = DirInfo::new(0, 0, 0);
        let mut i: usize = 0;
        while i < steps.len()
            invariant
                0 <= i <= steps@.len(),
                steps_view(steps@) == gsteps,
                gsteps.len() == steps@.len(),
                results@.len() == gsteps.len(),
                self.params == params0,
                self.previous_info == old(self).previous_info,
                self.wipe_info == old(self).wipe_info,
                self.ignore_info == old(self).ignore_info,
                wipe_acc@ == wiped_total(gsteps, results@, i as int),
                ignore_acc@ == ignored_total(gsteps, i as int),
                self.writer@ == base1 + spec_content_lines(gsteps, results@, i as int),
                steps_total_prefix(gsteps, gsteps.len() as int).le(stats_of(*tree)),
                stats_of(*tree).fits(),
            decreases steps@.len() - i,
        {
            let ghost writer_pre = self.writer@;
            proof {
                assert(gsteps[i as int] == steps@[i as int]@);
                lemma_partial_totals_le(gsteps, results@, i as int + 1);
                lemma_steps_prefix_mono(gsteps, i as int + 1, gsteps.len() as int);
            }
            let step = &steps[i];
            let err_ref: Option<&String> = if step.delete {
                results[i].as_ref()
            } else {
                None
            };
            self.writer.write_content_line(step.path.as_str(), Some(step.info), step.ignored, err_ref);
            proof {
                assert(Some(step.info) == Some(info_of(gsteps[i as int].stats)));
                assert(self.writer@ =~= base1 + spec_content_lines(
                    gsteps,
                    results@,
                    i as int + 1,
                ));
            }
            if step.delete && results[i].is_none() {
                wipe_acc = DirInfo::new(
                    wipe_acc.dir_count + step.info.dir_count,
                    wipe_acc.file_count + step.info.file_count,
                    wipe_acc.size + step.info.size,
                );
            }
            if step.ignored {
                ignore_acc = DirInfo::new(
                    ignore_acc.dir_count + step.info.dir_count,
                    ignore_acc.file_count + step.info.file_count,
                    ignore_acc.size + step.info.size,
                );
            }
            i = i + 1;
        }
        self.previous_info = previous;
        self.wipe_info = Some(wipe_acc);
        self.ignore_info = Some(ignore_acc);
        proof {
            if previous is Some {
                assert(wipe_acc.file_count <= previous->0.file_count);
                assert(wipe_acc.size <= previous->0.size);
            }
        }
        self.writer.write_summary(&self.params, &wipe_acc, &ignore_acc, &previous);
        self.writer.write_footer(&self.params, found);
        proof {
            assert(self.writer@ =~= base0 + spec_report_lines(
                params0,
                gsteps,
                results@,
                previous,
            ));
        }
        Ok(())
    }
}

} // verus!
