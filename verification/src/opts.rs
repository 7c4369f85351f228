//! The earlier command-line shape: a subcommand per folder kind, with
//! aliases, reduced to a folder name and a wipe switch.

use vstd::prelude::*;
use vstd::string::StringExecFns;

verus! {

/// The one entry command of the earlier interface.
pub enum Command {
    Wipe(Args),
}

/// Its arguments: the folder subcommand.
pub struct Args {
    pub subcommand: SubcommandEnum,
}

/// The folder to search for, with an alias per folder.
pub enum SubcommandEnum {
    NodeModules(Opts),
    Node(Opts),
    Target(Opts),
    Rust(Opts),
}

/// The switches of a subcommand.
#[derive(Debug, Clone, Copy, PartialEq, Eq, Structural)]
pub struct Opts {
    /// Caution! If set it will wipe all found folders! Unset by default.
    pub wipe: bool,
}

/// The folder kinds the earlier interface knew.
#[derive(Debug, Clone, Copy, PartialEq, Eq, Structural)]
pub enum FolderNameEnum {
    NodeModules,
    Target,
}

impl FolderNameEnum {
    /// The folder's base name.
    pub open spec fn spec_name(self) -> Seq<char> {
        match self {
            FolderNameEnum::NodeModules => "node_modules"@,
            FolderNameEnum::Target => "target"@,
        }
    }

    /// The folder's base name, as searched for on disk.
    pub fn to_string(&self) -> (r: String)
        ensures
            r@ == self.spec_name(),
    {
        match self {
            FolderNameEnum::NodeModules => String::from_str("node_modules"),
            FolderNameEnum::Target => String::from_str("target"),
        }
    }
}

/// A subcommand reduced to what a run needs: the folder and the wipe
/// switch.
#[derive(Debug, Clone, Copy, PartialEq, Eq, Structural)]
pub struct ParsedSubcommand {
    pub folder_name: FolderNameEnum,
    pub wipe: bool,
}

/// The folder each subcommand (or alias) selects.
pub open spec fn spec_parsed(subcommand: SubcommandEnum) -> ParsedSubcommand {
    match subcommand {
        SubcommandEnum::Node(opts) => ParsedSubcommand {
            folder_name: FolderNameEnum::NodeModules,
            wipe: opts.wipe,
        },
        SubcommandEnum::NodeModules(opts) => ParsedSubcommand {
            folder_name: FolderNameEnum::NodeModules,
            wipe: opts.wipe,
        },
        SubcommandEnum::Rust(opts) => ParsedSubcommand {
            folder_name: FolderNameEnum::Target,
            wipe: opts.wipe,
        },
        SubcommandEnum::Target(opts) => ParsedSubcommand {
            folder_name: FolderNameEnum::Target,
            wipe: opts.wipe,
        },
    }
}

impl From<&SubcommandEnum> for ParsedSubcommand {
    fn from(subcommand: &SubcommandEnum) -> (r: ParsedSubcommand) {
        match subcommand {
            SubcommandEnum::Node(opts) => ParsedSubcommand {
                folder_name: FolderNameEnum::NodeModules,
                wipe: opts.wipe,
            },
            SubcommandEnum::NodeModules(opts) => ParsedSubcommand {
                folder_name: FolderNameEnum::NodeModules,
                wipe: opts.wipe,
            },
            SubcommandEnum::Rust(opts) => ParsedSubcommand {
                folder_name: FolderNameEnum::Target,
                wipe: opts.wipe,
            },
            SubcommandEnum::Target(opts) => ParsedSubcommand {
                folder_name: FolderNameEnum::Target,
                wipe: opts.wipe,
            },
        }
    }
}

impl vstd::std_specs::convert::FromSpecImpl<&SubcommandEnum> for ParsedSubcommand {
    open spec fn obeys_from_spec() -> bool {
        true
    }

    open spec fn from_spec(subcommand: &SubcommandEnum) -> ParsedSubcommand {
        spec_parsed(*subcommand)
    }
}

} // verus!
