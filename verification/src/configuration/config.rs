//! The active rule set: language options keyed by their unique names.

use vstd::prelude::*;
use vstd::string::StringExecFns;

use crate::configuration::language_option::{
    LanguageOption, PatternError, RuleSpec, regex_ok,
};

verus! {

/// The option names in `s` are pairwise distinct.
pub open spec fn distinct_option_names(s: Seq<LanguageOption>) -> bool {
    forall|i: int, j: int|
        0 <= i < j < s.len() ==> (#[trigger] s[i]).option_name@ != (#[trigger] s[j]).option_name@
}

/// The name-to-profile mapping a sequence of options induces.
pub open spec fn options_map(s: Seq<LanguageOption>) -> Map<Seq<char>, RuleSpec>
    decreases s,
{
    if s.len() == 0 {
        Map::empty()
    } else {
        options_map(s.drop_last()).insert(s.last().option_name@, s.last()@)
    }
}

/// A set of options added under distinct names maps each name to its
/// own profile.
pub proof fn lemma_options_map_get(s: Seq<LanguageOption>, i: int)
    requires
        distinct_option_names(s),
        0 <= i < s.len(),
    ensures
        options_map(s).contains_key(s[i].option_name@),
        options_map(s)[s[i].option_name@] == s[i]@,
    decreases s,
{
    if i == s.len() - 1 {
    } else {
        assert(s.drop_last()[i] == s[i]);
        lemma_options_map_get(s.drop_last(), i);
    }
}

/// A name no option carries is absent from the induced mapping.
pub proof fn lemma_options_map_absent(s: Seq<LanguageOption>, n: Seq<char>)
    requires
        forall|i: int| 0 <= i < s.len() ==> (#[trigger] s[i]).option_name@ != n,
    ensures
        !options_map(s).contains_key(n),
    decreases s,
{
    if s.len() > 0 {
        assert(forall|i: int|
            0 <= i < s.drop_last().len() ==> (#[trigger] s.drop_last()[i]).option_name@
                != n) by {
            assert(forall|i: int|
                0 <= i < s.drop_last().len() ==> s.drop_last()[i] == s[i]);
        }
        lemma_options_map_absent(s.drop_last(), n);
    }
}

/// A key the induced mapping holds names some option of the list.
pub proof fn lemma_options_map_keys(s: Seq<LanguageOption>, n: Seq<char>)
    requires
        options_map(s).contains_key(n),
    ensures
        exists|i: int| 0 <= i < s.len() && (#[trigger] s[i]).option_name@ == n,
    decreases s,
{
    if s.len() > 0 && s.last().option_name@ != n {
        lemma_options_map_keys(s.drop_last(), n);
        let i = choose|i: int|
            0 <= i < s.drop_last().len() && (#[trigger] s.drop_last()[i]).option_name@ == n;
        assert(s[i].option_name@ == n);
    }
}

/// Two options were handed in under the same name.
#[derive(Debug)]
pub struct DuplicateOptionError {
    pub option_name: String,
}

/// The rule configuration: a collection of language options with
/// pairwise distinct names.
pub struct Config {
    // Not public: the rule set must not be mutable to the rest of the
    // program, and lookups rely on the names being distinct.
    language_options: Vec<LanguageOption>,
}

impl Config {
    /// Names are unique within the active rule set.
    #[verifier::type_invariant]
    pub closed spec fn wf(self) -> bool {
        distinct_option_names(self.language_options@)
    }
}

impl View for Config {
    type V = Map<Seq<char>, RuleSpec>;

    closed spec fn view(&self) -> Map<Seq<char>, RuleSpec> {
        options_map(self.language_options@)
    }
}

impl Config {
    /// Builds a configuration from a list of options.  Fails exactly
    /// when two options carry the same name, reporting such a name.
    pub fn from_options(options: Vec<LanguageOption>) -> (r: Result<Config, DuplicateOptionError>)
        ensures
            r is Ok <==> distinct_option_names(options@),
            r is Ok ==> r->Ok_0@ == options_map(options@),
            r is Err ==> exists|i: int, j: int|
                0 <= i < j < options@.len()
                    && (#[trigger] options@[i]).option_name@ == (
                #[trigger] options@[j]).option_name@ && options@[i].option_name@ == r
                    ->Err_0.option_name@,
    {
        let n = options.len();
        let mut i: usize = 0;
        while i < n
            invariant
                0 <= i <= n,
                n == options@.len(),
                forall|p: int, q: int|
                    0 <= p < q < options@.len() && p < i ==> (
                    #[trigger] options@[p]).option_name@ != (#[trigger] options@[q]).option_name@,
            decreases n - i,
        {
            let mut j: usize = i + 1;
            while j < n
                invariant
                    0 <= i < j <= n,
                    n == options@.len(),
                    forall|q: int|
                        i < q < j ==> options@[i as int].option_name@ != (
                        #[trigger] options@[q]).option_name@,
                decreases n - j,
            {
                if options[i].option_name == options[j].option_name {
                    return Err(
                        DuplicateOptionError { option_name: options[i].option_name.clone() },
                    );
                }
                j = j + 1;
            }
            i = i + 1;
        }
        Ok(Config { language_options: options })
    }

    /// All options of the rule set, in their held order.
    pub fn get_all_options(&self) -> (r: &Vec<LanguageOption>)
        ensures
            options_map(r@) == self@,
            distinct_option_names(r@),
    {
        proof {
            use_type_invariant(&*self);
        }
        &self.language_options
    }

    /// Looks an option up by name: the profile registered under
    /// `option_name`, or `None` when the name is unknown.
    pub fn get_option(&self, option_name: &str) -> (r: Option<&LanguageOption>)
        ensures
            r is Some <==> self@.contains_key(option_name@),
            r is Some ==> r->Some_0@ == self@[option_name@] && r->Some_0.option_name@
                == option_name@,
    {
        proof {
            use_type_invariant(&*self);
        }
        let key = option_name.to_owned();
        let n = self.language_options.len();
        let mut i: usize = 0;
        while i < n
            invariant
                0 <= i <= n,
                n == self.language_options@.len(),
                key@ == option_name@,
                distinct_option_names(self.language_options@),
                self@ == options_map(self.language_options@),
                forall|p: int|
                    0 <= p < i ==> (#[trigger] self.language_options@[p]).option_name@
                        != option_name@,
            decreases n - i,
        {
            if self.language_options[i].option_name == key {
                proof {
                    lemma_options_map_get(self.language_options@, i as int);
                }
                return Some(&self.language_options[i]);
            }
            i = i + 1;
        }
        proof {
            lemma_options_map_absent(self.language_options@, option_name@);
        }
        None
    }

    /// Whether an option is registered under `option_name`.
    pub fn has_option(&self, option_name: &str) -> (r: bool)
        ensures
            r == self@.contains_key(option_name@),
    {
        self.get_option(option_name).is_some()
    }
}

/// The built-in profile for Rust projects: `target` folders, with no
/// content conditions.
pub open spec fn default_rust_rule() -> RuleSpec {
    RuleSpec {
        name: "rust"@,
        target: "target"@,
        target_contains: Seq::empty(),
        parent_contains: Seq::empty(),
    }
}

/// The built-in profile for Node projects: `node_modules` folders
/// whose parent holds a `package.json`.
pub open spec fn default_node_rule() -> RuleSpec {
    RuleSpec {
        name: "node"@,
        target: "node_modules"@,
        target_contains: Seq::empty(),
        parent_contains: seq!["package\\.json"@],
    }
}

impl Default for Config {
    /// The built-in rule set: the Rust and Node profiles, each present
    /// exactly when its pattern texts compile, and nothing else.
    fn default() -> (c: Config)
        ensures
            regex_ok("target"@) ==> c@.contains_key("rust"@) && c@["rust"@]
                == default_rust_rule(),
            !regex_ok("target"@) ==> !c@.contains_key("rust"@),
            (regex_ok("node_modules"@) && regex_ok("package\\.json"@)) ==> c@.contains_key(
                "node"@,
            ) && c@["node"@] == default_node_rule(),
            !(regex_ok("node_modules"@) && regex_ok("package\\.json"@)) ==> !c@.contains_key(
                "node"@,
            ),
            forall|n: Seq<char>| c@.contains_key(n) ==> n == "rust"@ || n == "node"@,
    {
        proof {
            reveal_strlit("rust");
            reveal_strlit("node");
        }
        let ghost rust_ok = regex_ok("target"@);
        let ghost node_ok = regex_ok("node_modules"@) && regex_ok("package\\.json"@);
        let no_patterns: Vec<String> = Vec::new();
        let node_parent: Vec<String> = vec![String::from_str("package\\.json")];
        proof {
            assert(crate::configuration::language_option::string_views(no_patterns@)
                =~= Seq::<Seq<char>>::empty());
            assert(crate::configuration::language_option::string_views(node_parent@)
                =~= seq!["package\\.json"@]);
        }
        let rust = LanguageOption::new(
            String::from_str("rust"),
            "target",
            &no_patterns,
            &no_patterns,
        );
        let node = LanguageOption::new(
            String::from_str("node"),
            "node_modules",
            &no_patterns,
            &node_parent,
        );
        proof {
            assert(crate::configuration::language_option::string_views(node_parent@)[0]
                == "package\\.json"@);
            assert(rust is Ok <==> rust_ok);
            assert(node is Ok <==> node_ok);
        }
        let mut options: Vec<LanguageOption> = Vec::new();
        match rust {
            Ok(o) => {
                proof {
                    assert(o@ == default_rust_rule());
                }
                options.push(o);
            },
            Err(_) => {},
        }
        proof {
            assert(rust_ok ==> options@.len() == 1 && options@[0].option_name@ == "rust"@
                && options@[0]@ == default_rust_rule());
            assert(!rust_ok ==> options@.len() == 0);
        }
        match node {
            Ok(o) => {
                proof {
                    assert(o@ == default_node_rule());
                }
                options.push(o);
            },
            Err(_) => {},
        }
        let ghost s = options@;
        proof {
            assert(rust_ok ==> s[0].option_name@ == "rust"@ && s[0]@ == default_rust_rule());
            assert(node_ok ==> s.last().option_name@ == "node"@ && s.last()@
                == default_node_rule());
            assert(s.len() == (if rust_ok { 1int } else { 0int }) + (if node_ok {
                1int
            } else {
                0int
            }));
            assert(forall|i: int|
                0 <= i < s.len() ==> (#[trigger] s[i]).option_name@ == "rust"@
                    || s[i].option_name@ == "node"@);
            assert("rust"@ != "node"@) by {
                assert("rust"@[0] == 'r');
                assert("node"@[0] == 'n');
            }
            assert(distinct_option_names(s));
            assert forall|n: Seq<char>| options_map(s).contains_key(n) implies n == "rust"@ || n
                == "node"@ by {
                lemma_options_map_keys(s, n);
            }
            if rust_ok {
                lemma_options_map_get(s, 0);
            } else {
                lemma_options_map_absent(s, "rust"@);
            }
            if node_ok {
                lemma_options_map_get(s, s.len() - 1);
            } else {
                lemma_options_map_absent(s, "node"@);
            }
        }
        Config { language_options: options }
    }
}

} // verus!
