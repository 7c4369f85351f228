//! One named matching profile: a pattern for the target folder's name
//! and optional content conditions on the target and on its parent.
//!
//! Patterns are compiled regular expressions of the `regex` crate; the
//! library reasons about them through the names below.

use vstd::prelude::*;
use vstd::string::StringExecFns;

use crate::fs_tree::FsEntry;
use crate::fs_tree::entry_names;

verus! {

#[verifier::external_type_specification]
#[verifier::external_body]
pub struct ExRegex(regex::Regex);

#[verifier::external_type_specification]
#[verifier::external_body]
pub struct ExRegexError(regex::Error);

/// Whether `regex::Regex::new` accepts `pattern`; a function of the
/// pattern alone.
pub uninterp spec fn regex_ok(pattern: Seq<char>) -> bool;

/// The pattern a compiled `regex::Regex` holds.
pub uninterp spec fn regex_source(re: regex::Regex) -> Seq<char>;

/// Whether the pattern matches anywhere in the text, as
/// `regex::Regex::is_match` decides it; a function of the pattern and
/// the text alone.
pub uninterp spec fn regex_match(pattern: Seq<char>, text: Seq<char>) -> bool;

/// Relies on `regex::Regex::new`: compilation succeeds exactly on the
/// patterns the crate accepts (a function of the pattern text alone),
/// and the compiled value holds that pattern.
#[verifier::external_body]
pub(crate) fn regex_new(pattern: &str) -> (r: Result<regex::Regex, regex::Error>)
    ensures
        r is Ok <==> regex_ok(pattern@),
        r is Ok ==> regex_source(r->Ok_0) == pattern@,
{
    regex::Regex::new(pattern)
}

/// Relies on `regex::Regex::is_match`: true if and only if there is a
/// match for the regex anywhere in the text, a function of the held
/// pattern and the text alone.
#[verifier::external_body]
pub(crate) fn regex_is_match(re: &regex::Regex, text: &str) -> (b: bool)
    ensures
        b == regex_match(regex_source(*re), text@),
{
    re.is_match(text)
}

/// A pattern that the regex engine rejected.
#[derive(Debug)]
pub struct PatternError {
    pub pattern: String,
}

/// The mathematical content of a [`LanguageOption`]: its name and the
/// texts of its three pattern groups.
pub ghost struct RuleSpec {
    pub name: Seq<char>,
    pub target: Seq<char>,
    pub target_contains: Seq<Seq<char>>,
    pub parent_contains: Seq<Seq<char>>,
}

/// One named matching profile.
pub struct LanguageOption {
    /// The name of the language option.
    pub option_name: String,
    /// Matches the target folder's base name.
    pub target_folder_regexp: regex::Regex,
    /// Optional patterns that must each match some name among the
    /// target folder's immediate children.
    pub target_folder_contains_regexp: Vec<regex::Regex>,
    /// Optional patterns that must each match some name among the
    /// target folder's parent's immediate children.
    pub parent_folder_contains_regexp: Vec<regex::Regex>,
}

impl View for LanguageOption {
    type V = RuleSpec;

    open spec fn view(&self) -> RuleSpec {
        RuleSpec {
            name: self.option_name@,
            target: regex_source(self.target_folder_regexp),
            target_contains: self.target_folder_contains_regexp@.map_values(
                |re: regex::Regex| regex_source(re),
            ),
            parent_contains: self.parent_folder_contains_regexp@.map_values(
                |re: regex::Regex| regex_source(re),
            ),
        }
    }
}

/// All the given pattern texts compile.
pub open spec fn patterns_ok(patterns: Seq<Seq<char>>) -> bool {
    forall|i: int| 0 <= i < patterns.len() ==> regex_ok(#[trigger] patterns[i])
}

/// The views of a sequence of strings.
pub open spec fn string_views(v: Seq<String>) -> Seq<Seq<char>> {
    v.map_values(|s: String| s@)
}

/// Some name in `names` matches the pattern.
pub open spec fn some_name_matches(pattern: Seq<char>, names: Seq<Seq<char>>) -> bool {
    exists|j: int| 0 <= j < names.len() && regex_match(pattern, #[trigger] names[j])
}

/// Every pattern has at least one matching name in `names`.
pub open spec fn list_satisfies(patterns: Seq<Seq<char>>, names: Seq<Seq<char>>) -> bool {
    forall|i: int| 0 <= i < patterns.len() ==> some_name_matches(#[trigger] patterns[i], names)
}

/// The names of an entry's immediate children: `None` when the entry
/// is not a directory or its listing failed, in which case a content
/// condition can never be satisfied.
pub open spec fn entry_child_names(e: FsEntry) -> Option<Seq<Seq<char>>> {
    match e {
        FsEntry::Dir { readable, entries, .. } => if readable {
            Some(entry_names(entries@))
        } else {
            None
        },
        _ => None,
    }
}

/// The view of an optional borrowed sibling list.
pub open spec fn opt_entries_view(p: Option<&Vec<FsEntry>>) -> Option<Seq<FsEntry>> {
    match p {
        Some(v) => Some(v@),
        None => None,
    }
}

/// The matcher's decision for one entry under one profile, given the
/// entries of the parent directory (or `None` for an entry without a
/// parent): the conjunction of the name test and the two content
/// conditions, each content condition vacuous when its pattern list is
/// empty.
pub open spec fn spec_matches(rule: RuleSpec, entry: FsEntry, parent: Option<Seq<FsEntry>>) -> bool {
    &&& regex_match(rule.target, entry.spec_name())
    &&& (rule.target_contains.len() > 0 ==> match entry_child_names(entry) {
        Some(names) => list_satisfies(rule.target_contains, names),
        None => false,
    })
    &&& (rule.parent_contains.len() > 0 ==> match parent {
        Some(siblings) => list_satisfies(rule.parent_contains, entry_names(siblings)),
        None => false,
    })
}

/// A profile with no content conditions matches exactly by the name
/// test: for empty `target_contains` and `parent_contains` lists the
/// matcher's decision reduces to the target pattern against the
/// entry's base name.
pub proof fn lemma_match_is_name_test(rule: RuleSpec, entry: FsEntry, parent: Option<Seq<FsEntry>>)
    requires
        rule.target_contains.len() == 0,
        rule.parent_contains.len() == 0,
    ensures
        spec_matches(rule, entry, parent) == regex_match(rule.target, entry.spec_name()),
{
}

impl LanguageOption {
    /// Compiles a profile from pattern texts.  Fails exactly when one
    /// of the texts is not a valid pattern, reporting a failing text.
    pub fn new(
        option_name: String,
        target: &str,
        target_contains: &Vec<String>,
        parent_contains: &Vec<String>,
    ) -> (r: Result<LanguageOption, PatternError>)
        ensures
            r is Ok <==> regex_ok(target@) && patterns_ok(string_views(target_contains@))
                && patterns_ok(string_views(parent_contains@)),
            r is Ok ==> r->Ok_0@ == (RuleSpec {
                name: option_name@,
                target: target@,
                target_contains: string_views(target_contains@),
                parent_contains: string_views(parent_contains@),
            }),
            r is Err ==> !regex_ok(r->Err_0.pattern@) && (r->Err_0.pattern@ == target@
                || string_views(target_contains@).contains(r->Err_0.pattern@)
                || string_views(parent_contains@).contains(r->Err_0.pattern@)),
    {
        let target_re = match regex_new(target) {
            Ok(re) => re,
            Err(_) => {
                return Err(PatternError { pattern: String::from_str(target) });
            },
        };
        let target_contains_re = match Self::compile_all(target_contains) {
            Ok(v) => v,
            Err(e) => {
                proof {
                    let i = choose|i: int|
                        0 <= i < target_contains@.len() && target_contains@[i]@ == e.pattern@;
                    assert(string_views(target_contains@)[i] == e.pattern@);
                }
                return Err(e);
            },
        };
        let parent_contains_re = match Self::compile_all(parent_contains) {
            Ok(v) => v,
            Err(e) => {
                proof {
                    let i = choose|i: int|
                        0 <= i < parent_contains@.len() && parent_contains@[i]@ == e.pattern@;
                    assert(string_views(parent_contains@)[i] == e.pattern@);
                }
                return Err(e);
            },
        };
        Ok(
            LanguageOption {
                option_name,
                target_folder_regexp: target_re,
                target_folder_contains_regexp: target_contains_re,
                parent_folder_contains_regexp: parent_contains_re,
            },
        )
    }

    /// Decides whether `entry` satisfies this profile, per the matcher
    /// contract: the entry's name must match the target pattern; a
    /// non-empty content condition additionally needs the entry to be a
    /// listable directory each of whose conditions is met by some
    /// child name, and likewise for the parent condition over the
    /// parent's children.  `parent_entries` is `None` when the entry
    /// has no parent directory.
    pub fn matches(&self, entry: &FsEntry, parent_entries: Option<&Vec<FsEntry>>) -> (b: bool)
        ensures
            b == spec_matches(self@, *entry, opt_entries_view(parent_entries)),
    {
        if !regex_is_match(&self.target_folder_regexp, entry.name().as_str()) {
            return false;
        }
        if self.target_folder_contains_regexp.len() > 0 {
            match entry {
                FsEntry::Dir { readable, entries, .. } if *readable => {
                    if !Self::contains_all(&self.target_folder_contains_regexp, entries) {
                        return false;
                    }
                },
                _ => {
                    return false;
                },
            }
        }
        if self.parent_folder_contains_regexp.len() > 0 {
            match parent_entries {
                Some(siblings) => {
                    if !Self::contains_all(&self.parent_folder_contains_regexp, siblings) {
                        return false;
                    }
                },
                None => {
                    return false;
                },
            }
        }
        true
    }

    /// Every pattern in the list matches at least one entry name.
    fn contains_all(patterns: &Vec<regex::Regex>, entries: &Vec<FsEntry>) -> (b: bool)
        ensures
            b == list_satisfies(
                patterns@.map_values(|re: regex::Regex| regex_source(re)),
                entry_names(entries@),
            ),
    {
        let ghost pats = patterns@.map_values(|re: regex::Regex| regex_source(re));
        let ghost names = entry_names(entries@);
        let mut i: usize = 0;
        while i < patterns.len()
            invariant
                0 <= i <= patterns@.len(),
                pats == patterns@.map_values(|re: regex::Regex| regex_source(re)),
                names == entry_names(entries@),
                forall|k: int| 0 <= k < i ==> some_name_matches(#[trigger] pats[k], names),
            decreases patterns@.len() - i,
        {
            let mut found = false;
            let mut j: usize = 0;
            while j < entries.len()
                invariant
                    0 <= j <= entries@.len(),
                    pats == patterns@.map_values(|re: regex::Regex| regex_source(re)),
                    names == entry_names(entries@),
                    0 <= i < patterns@.len(),
                    found == exists|k: int|
                        0 <= k < j && regex_match(pats[i as int], #[trigger] names[k]),
                    forall|k: int| 0 <= k < i ==> some_name_matches(#[trigger] pats[k], names),
                decreases entries@.len() - j,
            {
                if regex_is_match(&patterns[i], entries[j].name().as_str()) {
                    found = true;
                    proof {
                        assert(names[j as int] == entries@[j as int].spec_name());
                        assert(regex_match(pats[i as int], names[j as int]));
                    }
                }
                j = j + 1;
            }
            if !found {
                proof {
                    assert(names.len() == entries@.len());
                    assert(!some_name_matches(pats[i as int], names));
                    assert(!list_satisfies(pats, names));
                }
                return false;
            }
            i = i + 1;
        }
        true
    }

    /// Compiles every pattern text in the list, or reports a failing one.
    fn compile_all(patterns: &Vec<String>) -> (r: Result<Vec<regex::Regex>, PatternError>)
        ensures
            r is Ok <==> patterns_ok(string_views(patterns@)),
            r is Ok ==> r->Ok_0@.map_values(|re: regex::Regex| regex_source(re)) == string_views(
                patterns@,
            ),
            r is Err ==> !regex_ok(r->Err_0.pattern@) && (exists|i: int|
                0 <= i < patterns@.len() && patterns@[i]@ == r->Err_0.pattern@),
    {
        let mut out: Vec<regex::Regex> = Vec::new();
        let mut i: usize = 0;
        while i < patterns.len()
            invariant
                0 <= i <= patterns@.len(),
                out@.len() == i,
                forall|j: int| 0 <= j < i ==> regex_ok(#[trigger] patterns@[j]@),
                forall|j: int|
                    0 <= j < i ==> regex_source(#[trigger] out@[j]) == patterns@[j]@,
            decreases patterns@.len() - i,
        {
            match regex_new(patterns[i].as_str()) {
                Ok(re) => {
                    out.push(re);
                },
                Err(_) => {
                    proof {
                        assert(string_views(patterns@)[i as int] == patterns@[i as int]@);
                    }
                    return Err(PatternError { pattern: patterns[i].clone() });
                },
            }
            i = i + 1;
        }
        proof {
            assert(out@.map_values(|re: regex::Regex| regex_source(re)) =~= string_views(
                patterns@,
            ));
        }
        Ok(out)
    }
}

} // verus!
