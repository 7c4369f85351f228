//! The run's command line: the selected language, the wipe switch and
//! the ignore prefixes, together with the language and folder enums.

use vstd::prelude::*;
use vstd::string::StringExecFns;

use crate::text::{lower_of, lowercase, trim_of, trim_ws};

verus! {

/// The one entry command: recursively find, and optionally wipe, the
/// build folders of the selected language under the search root.
pub enum Command {
    Wipe(Args),
}

/// The arguments of one run.
pub struct Args {
    /// Language to target.
    pub language: LanguageEnum,
    /// Caution! If set it will wipe all folders found! Unset by default.
    pub wipe: bool,
    /// Absolute paths to ignore.
    pub ignores: Vec<String>,
}

/// The supported languages.
#[derive(Debug, Clone, Copy, PartialEq, Eq, Structural)]
pub enum LanguageEnum {
    Node,
    Rust,
    Terraform,
}

/// The build folder each language leaves behind.
#[derive(Debug, Clone, Copy, PartialEq, Eq, Structural)]
pub enum DirectoryEnum {
    NodeModules,
    Target,
    Terraform,
}

/// The language a (case-folded and trimmed) name denotes.
pub open spec fn spec_language_for(name: Seq<char>) -> Option<LanguageEnum> {
    if name == "node"@ {
        Some(LanguageEnum::Node)
    } else if name == "rust"@ {
        Some(LanguageEnum::Rust)
    } else if name == "terraform"@ {
        Some(LanguageEnum::Terraform)
    } else {
        None
    }
}

/// A language name that is not one of the supported options.
#[derive(Debug)]
pub struct ParseLanguageError {}

impl ParseLanguageError {
    /// The message shown for an unsupported language name.
    pub fn message(&self) -> (r: String)
        ensures
            r@ == "Valid options are: node | rust | terraform"@,
    {
        String::from_str("Valid options are: node | rust | terraform")
    }
}

/// Decides which language a prepared (already case-folded and
/// trimmed) name denotes.
pub fn parse_language_name(name: &str) -> (r: Result<LanguageEnum, ParseLanguageError>)
    ensures
        r is Ok <==> spec_language_for(name@) is Some,
        r is Ok ==> Some(r->Ok_0) == spec_language_for(name@),
{
    let key = name.to_owned();
    if key == String::from_str("node") {
        Ok(LanguageEnum::Node)
    } else if key == String::from_str("rust") {
        Ok(LanguageEnum::Rust)
    } else if key == String::from_str("terraform") {
        Ok(LanguageEnum::Terraform)
    } else {
        Err(ParseLanguageError {})
    }
}

impl LanguageEnum {
    /// Parses a language name, accepting any casing and surrounding
    /// whitespace; fails exactly when the folded, trimmed name is not
    /// a supported option.
    pub fn from_str(value: &str) -> (r: Result<LanguageEnum, ParseLanguageError>)
        ensures
            r is Ok <==> spec_language_for(trim_of(lower_of(value@))) is Some,
            r is Ok ==> Some(r->Ok_0) == spec_language_for(trim_of(lower_of(value@))),
    {
        let lowered = lowercase(value);
        let trimmed = trim_ws(lowered.as_str());
        parse_language_name(trimmed)
    }

    /// The language's name.
    pub open spec fn spec_name(self) -> Seq<char> {
        match self {
            LanguageEnum::Node => "node"@,
            LanguageEnum::Rust => "rust"@,
            LanguageEnum::Terraform => "terraform"@,
        }
    }

    /// The language's name, as shown in messages.
    pub fn to_string(&self) -> (r: String)
        ensures
            r@ == self.spec_name(),
    {
        match self {
            LanguageEnum::Node => String::from_str("node"),
            LanguageEnum::Rust => String::from_str("rust"),
            LanguageEnum::Terraform => String::from_str("terraform"),
        }
    }
}

/// The folder searched for on behalf of each language.
pub open spec fn spec_directory_for(language: LanguageEnum) -> DirectoryEnum {
    match language {
        LanguageEnum::Node => DirectoryEnum::NodeModules,
        LanguageEnum::Rust => DirectoryEnum::Target,
        LanguageEnum::Terraform => DirectoryEnum::Terraform,
    }
}

impl From<LanguageEnum> for DirectoryEnum {
    fn from(language: LanguageEnum) -> (r: DirectoryEnum) {
        match language {
            LanguageEnum::Node => DirectoryEnum::NodeModules,
            LanguageEnum::Rust => DirectoryEnum::Target,
            LanguageEnum::Terraform => DirectoryEnum::Terraform,
        }
    }
}

impl vstd::std_specs::convert::FromSpecImpl<LanguageEnum> for DirectoryEnum {
    open spec fn obeys_from_spec() -> bool {
        true
    }

    open spec fn from_spec(language: LanguageEnum) -> DirectoryEnum {
        spec_directory_for(language)
    }
}

impl From<&LanguageEnum> for DirectoryEnum {
    fn from(language: &LanguageEnum) -> (r: DirectoryEnum) {
        match language {
            LanguageEnum::Node => DirectoryEnum::NodeModules,
            LanguageEnum::Rust => DirectoryEnum::Target,
            LanguageEnum::Terraform => DirectoryEnum::Terraform,
        }
    }
}

impl vstd::std_specs::convert::FromSpecImpl<&LanguageEnum> for DirectoryEnum {
    open spec fn obeys_from_spec() -> bool {
        true
    }

    open spec fn from_spec(language: &LanguageEnum) -> DirectoryEnum {
        spec_directory_for(*language)
    }
}

impl DirectoryEnum {
    /// The folder's base name.
    pub open spec fn spec_name(self) -> Seq<char> {
        match self {
            DirectoryEnum::NodeModules => "node_modules"@,
            DirectoryEnum::Target => "target"@,
            DirectoryEnum::Terraform => ".terraform"@,
        }
    }

    /// The folder's base name, as shown in messages.
    pub fn to_string(&self) -> (r: String)
        ensures
            r@ == self.spec_name(),
    {
        match self {
            DirectoryEnum::NodeModules => String::from_str("node_modules"),
            DirectoryEnum::Target => String::from_str("target"),
            DirectoryEnum::Terraform => String::from_str(".terraform"),
        }
    }
}

} // verus!
