use cargo_wipe::opts::{FolderNameEnum, Opts, ParsedSubcommand, SubcommandEnum};

#[test]
fn folder_name_to_string() {
    assert_eq!(FolderNameEnum::NodeModules.to_string(), "node_modules");
    assert_eq!(FolderNameEnum::Target.to_string(), "target");
}

#[test]
fn subcommands_and_aliases_parse() {
    let cases: Vec<(SubcommandEnum, FolderNameEnum, bool)> = vec![
        (SubcommandEnum::Node(Opts { wipe: false }), FolderNameEnum::NodeModules, false),
        (SubcommandEnum::NodeModules(Opts { wipe: true }), FolderNameEnum::NodeModules, true),
        (SubcommandEnum::Rust(Opts { wipe: true }), FolderNameEnum::Target, true),
        (SubcommandEnum::Target(Opts { wipe: false }), FolderNameEnum::Target, false),
    ];
    for (subcommand, folder_name, wipe) in cases {
        let parsed = ParsedSubcommand::from(&subcommand);
        assert_eq!(parsed, ParsedSubcommand { folder_name, wipe });
    }
}
