use cargo_wipe::configuration::config::Config;
use cargo_wipe::configuration::language_option::LanguageOption;
use cargo_wipe::fs_tree::FsEntry;

fn file(name: &str, size: usize) -> FsEntry {
    FsEntry::File { name: name.to_string(), size }
}

fn dir(name: &str, entries: Vec<FsEntry>) -> FsEntry {
    FsEntry::Dir { name: name.to_string(), readable: true, entries }
}

fn rule(target: &str, target_contains: Vec<&str>, parent_contains: Vec<&str>) -> LanguageOption {
    LanguageOption::new(
        "test".to_string(),
        target,
        &target_contains.iter().map(|s| s.to_string()).collect::<Vec<String>>(),
        &parent_contains.iter().map(|s| s.to_string()).collect::<Vec<String>>(),
    )
    .unwrap()
}

#[test]
fn name_only_rule_matches_by_name() {
    // With both content condition lists empty, the decision is the
    // name test alone.
    let r = rule("^target$", Vec::new(), Vec::new());
    assert!(r.matches(&dir("target", Vec::new()), None));
    assert!(r.matches(&file("target", 7), None));
    assert!(!r.matches(&dir("src", Vec::new()), None));
}

#[test]
fn pattern_matching_is_a_search() {
    // An unanchored pattern matches anywhere in the name.
    let r = rule("target", Vec::new(), Vec::new());
    assert!(r.matches(&dir("target", Vec::new()), None));
    assert!(r.matches(&dir("my_target_dir", Vec::new()), None));
    assert!(!r.matches(&dir("tar-get", Vec::new()), None));
}

#[test]
fn target_contains_requires_listable_directory() {
    let r = rule("^target$", vec!["^\\.rustc_info\\.json$"], Vec::new());
    // The marker file is present.
    let with_marker = dir("target", vec![file(".rustc_info.json", 3)]);
    assert!(r.matches(&with_marker, None));
    // The marker file is absent.
    let without_marker = dir("target", vec![file("other.json", 3)]);
    assert!(!r.matches(&without_marker, None));
    // A file can never satisfy a content condition.
    assert!(!r.matches(&file("target", 3), None));
    // Nor can a directory whose listing failed.
    let unreadable = FsEntry::Dir {
        name: "target".to_string(),
        readable: false,
        entries: Vec::new(),
    };
    assert!(!r.matches(&unreadable, None));
}

#[test]
fn parent_contains_checks_siblings() {
    let r = rule("^node_modules$", Vec::new(), vec!["^package\\.json$"]);
    let target = dir("node_modules", Vec::new());
    let siblings_with = vec![file("package.json", 10), dir("node_modules", Vec::new())];
    let siblings_without = vec![file("README.md", 10), dir("node_modules", Vec::new())];
    assert!(r.matches(&target, Some(&siblings_with)));
    assert!(!r.matches(&target, Some(&siblings_without)));
    // No parent at all: the condition cannot hold.
    assert!(!r.matches(&target, None));
}

#[test]
fn every_content_pattern_must_be_satisfied() {
    let r = rule("^target$", vec!["a", "b"], Vec::new());
    assert!(r.matches(&dir("target", vec![file("ab", 1)]), None));
    assert!(r.matches(&dir("target", vec![file("a1", 1), file("b2", 2)]), None));
    assert!(!r.matches(&dir("target", vec![file("a1", 1)]), None));
}

#[test]
fn invalid_pattern_is_reported() {
    let err = LanguageOption::new("broken".to_string(), "(", &Vec::new(), &Vec::new())
        .err()
        .unwrap();
    assert_eq!(err.pattern, "(");
    let err = LanguageOption::new(
        "broken".to_string(),
        "fine",
        &vec!["[".to_string()],
        &Vec::new(),
    )
    .err()
    .unwrap();
    assert_eq!(err.pattern, "[");
}

#[test]
fn config_lookup_by_name() {
    let config = Config::default();
    assert!(config.has_option("rust"));
    assert!(config.has_option("node"));
    assert!(!config.has_option("terraform"));
    let rust = config.get_option("rust").unwrap();
    assert_eq!(rust.option_name, "rust");
    assert!(config.get_option("zig").is_none());
    assert_eq!(config.get_all_options().len(), 2);
}

#[test]
fn config_default_rules_behave() {
    let config = Config::default();
    let rust = config.get_option("rust").unwrap();
    assert!(rust.matches(&dir("target", Vec::new()), None));
    let node = config.get_option("node").unwrap();
    let target = dir("node_modules", Vec::new());
    let siblings = vec![file("package.json", 2)];
    assert!(node.matches(&target, Some(&siblings)));
    assert!(!node.matches(&target, Some(&Vec::new())));
}

#[test]
fn config_rejects_duplicate_names() {
    let a = rule("x", Vec::new(), Vec::new());
    let b = rule("y", Vec::new(), Vec::new());
    let err = Config::from_options(vec![a, b]).err().unwrap();
    assert_eq!(err.option_name, "test");
    let c = rule("z", Vec::new(), Vec::new());
    assert!(Config::from_options(vec![c]).is_ok());
}
