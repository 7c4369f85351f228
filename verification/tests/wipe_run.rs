use cargo_wipe::command::{Args, LanguageEnum};
use cargo_wipe::configuration::config::Config;
use cargo_wipe::configuration::language_option::LanguageOption;
use cargo_wipe::fs_tree::{tree_is_wf, FsEntry};
use cargo_wipe::wipe::{is_ignored, Wipe, WipeError, WipeStep};
use cargo_wipe::wipe_params::WipeParams;

fn file(name: &str, size: usize) -> FsEntry {
    FsEntry::File { name: name.to_string(), size }
}

fn dir(name: &str, entries: Vec<FsEntry>) -> FsEntry {
    FsEntry::Dir { name: name.to_string(), readable: true, entries }
}

fn rust_marker_config() -> Config {
    let rust = LanguageOption::new(
        "rust".to_string(),
        "^target$",
        &vec!["^\\.rustc_info\\.json$".to_string()],
        &Vec::new(),
    )
    .unwrap();
    let node = LanguageOption::new(
        "node".to_string(),
        "^node_modules$",
        &Vec::new(),
        &vec!["^package\\.json$".to_string()],
    )
    .unwrap();
    Config::from_options(vec![rust, node]).unwrap()
}

fn scenario_tree() -> FsEntry {
    dir(
        "root",
        vec![
            dir("a", vec![dir("target", vec![file(".rustc_info.json", 100)])]),
            dir(
                "b",
                vec![dir("node_modules", vec![file("dep.js", 50)]), file("package.json", 10)],
            ),
            dir("c", Vec::new()),
        ],
    )
}

fn params(language: LanguageEnum, wipe: bool, ignores: Vec<&str>) -> WipeParams {
    WipeParams::new(
        &Args {
            language,
            wipe,
            ignores: ignores.iter().map(|s| s.to_string()).collect::<Vec<String>>(),
        },
        "/root".to_string(),
    )
}

fn step_paths(steps: &[WipeStep]) -> Vec<String> {
    steps.iter().map(|s| s.path.clone()).collect()
}

#[test]
fn ignore_filter_prefix_semantics() {
    let none: Vec<String> = Vec::new();
    // An empty ignore set ignores nothing.
    assert!(!is_ignored("/a/b", &none));
    let set = vec!["/a/b".to_string()];
    // A listed path is ignored, and so is any descendant.
    assert!(is_ignored("/a/b", &set));
    assert!(is_ignored("/a/b/c", &set));
    // The comparison folds case on both sides.
    assert!(is_ignored("/A/B/C", &set));
    assert!(is_ignored("/a/b", &vec!["/A/B".to_string()]));
    // A match elsewhere than the start is no prefix.
    assert!(!is_ignored("/z/a/b", &set));
    assert!(!is_ignored("/a", &set));
}

#[test]
fn dry_run_scenario() {
    let config = rust_marker_config();
    let tree = scenario_tree();
    assert!(tree_is_wf(&tree));
    let mut wipe = Wipe::new(params(LanguageEnum::Rust, false, Vec::new()));
    let steps = wipe.plan(&config, &tree).unwrap();
    assert_eq!(step_paths(&steps), vec!["/root/a/target".to_string()]);
    // A dry run deletes nothing.
    assert!(steps.iter().all(|s| !s.delete));
    let results: Vec<Option<String>> = vec![None];
    wipe.run(&config, &tree, &results).unwrap();
    let previous = wipe.previous_info.unwrap();
    assert_eq!(previous.dir_count, 6);
    assert_eq!(previous.file_count, 3);
    assert_eq!(previous.size, 160);
    let wiped = wipe.wipe_info.unwrap();
    assert_eq!((wiped.dir_count, wiped.file_count, wiped.size), (0, 0, 0));
    let ignored = wipe.ignore_info.unwrap();
    assert_eq!((ignored.dir_count, ignored.file_count, ignored.size), (0, 0, 0));
    let lines = wipe.writer.lines();
    assert_eq!(
        lines.last().unwrap(),
        "Run cargo wipe rust -w to wipe all folders found. USE WITH CAUTION!"
    );
}

#[test]
fn dry_run_is_repeatable() {
    let config = rust_marker_config();
    let tree = scenario_tree();
    let results: Vec<Option<String>> = vec![None];
    let mut first = Wipe::new(params(LanguageEnum::Rust, false, Vec::new()));
    let first_steps = first.plan(&config, &tree).unwrap();
    first.run(&config, &tree, &results).unwrap();
    let mut second = Wipe::new(params(LanguageEnum::Rust, false, Vec::new()));
    let second_steps = second.plan(&config, &tree).unwrap();
    second.run(&config, &tree, &results).unwrap();
    assert_eq!(step_paths(&first_steps), step_paths(&second_steps));
    assert_eq!(first.previous_info.unwrap(), second.previous_info.unwrap());
    assert_eq!(first.wipe_info.unwrap(), second.wipe_info.unwrap());
    assert_eq!(first.ignore_info.unwrap(), second.ignore_info.unwrap());
    assert_eq!(first.writer.lines(), second.writer.lines());
}

#[test]
fn wipe_run_scenario() {
    let config = rust_marker_config();
    let tree = scenario_tree();
    let mut wipe = Wipe::new(params(LanguageEnum::Rust, true, Vec::new()));
    let steps = wipe.plan(&config, &tree).unwrap();
    assert_eq!(step_paths(&steps), vec!["/root/a/target".to_string()]);
    assert!(steps[0].delete);
    // The caller deleted the hit successfully.
    let results: Vec<Option<String>> = vec![None];
    wipe.run(&config, &tree, &results).unwrap();
    let previous = wipe.previous_info.unwrap();
    let wiped = wipe.wipe_info.unwrap();
    assert_eq!((wiped.dir_count, wiped.file_count, wiped.size), (1, 1, 100));
    // The summary subtraction is well defined.
    assert_eq!(previous.file_count - wiped.file_count, 2);
    assert_eq!(previous.size - wiped.size, 60);
    assert_eq!(wipe.writer.lines().last().unwrap(), "All clear!");

    // After the deletion the hit is gone from the tree; a second run
    // finds nothing.
    let tree_after = dir(
        "root",
        vec![
            dir("a", Vec::new()),
            dir(
                "b",
                vec![dir("node_modules", vec![file("dep.js", 50)]), file("package.json", 10)],
            ),
            dir("c", Vec::new()),
        ],
    );
    let mut again = Wipe::new(params(LanguageEnum::Rust, true, Vec::new()));
    let steps = again.plan(&config, &tree_after).unwrap();
    assert!(steps.is_empty());
    let no_results: Vec<Option<String>> = Vec::new();
    again.run(&config, &tree_after, &no_results).unwrap();
    assert!(again.previous_info.is_none());
    assert_eq!(again.writer.lines().last().unwrap(), "Nothing found!");
}

#[test]
fn node_rule_needs_the_parent_marker() {
    let config = rust_marker_config();
    let tree = scenario_tree();
    let mut wipe = Wipe::new(params(LanguageEnum::Node, false, Vec::new()));
    let steps = wipe.plan(&config, &tree).unwrap();
    assert_eq!(step_paths(&steps), vec!["/root/b/node_modules".to_string()]);
    // Without the package.json sibling there is no hit.
    let bare = dir("root", vec![dir("b", vec![dir("node_modules", vec![file("dep.js", 50)])])]);
    let steps = wipe.plan(&config, &bare).unwrap();
    assert!(steps.is_empty());
}

#[test]
fn partial_failure_keeps_the_batch_going() {
    let config = rust_marker_config();
    let tree = dir(
        "root",
        vec![
            dir("x", vec![dir("target", vec![file(".rustc_info.json", 30)])]),
            dir("y", vec![dir("target", vec![file(".rustc_info.json", 70)])]),
        ],
    );
    let mut wipe = Wipe::new(params(LanguageEnum::Rust, true, Vec::new()));
    let steps = wipe.plan(&config, &tree).unwrap();
    assert_eq!(
        step_paths(&steps),
        vec!["/root/x/target".to_string(), "/root/y/target".to_string()]
    );
    // The first deletion fails; the second succeeds.
    let results: Vec<Option<String>> = vec![Some("Permission denied".to_string()), None];
    wipe.run(&config, &tree, &results).unwrap();
    // Only what was actually removed is counted as wiped.
    let wiped = wipe.wipe_info.unwrap();
    assert_eq!((wiped.dir_count, wiped.file_count, wiped.size), (1, 1, 70));
    let previous = wipe.previous_info.unwrap();
    assert_eq!(previous.size - wiped.size, 30);
    // Both candidates appear in the report; the failure inline.
    let lines = wipe.writer.lines();
    let x_line = lines.iter().find(|l| l.contains("/root/x/target")).unwrap();
    assert!(x_line.ends_with(" [Permission denied]"));
    let y_line = lines.iter().find(|l| l.contains("/root/y/target")).unwrap();
    assert!(!y_line.contains("["));
}

#[test]
fn ignored_hit_is_spared_and_accounted() {
    let config = rust_marker_config();
    let tree = dir(
        "root",
        vec![
            dir("x", vec![dir("target", vec![file(".rustc_info.json", 30)])]),
            dir("y", vec![dir("target", vec![file(".rustc_info.json", 70)])]),
        ],
    );
    let mut wipe = Wipe::new(params(LanguageEnum::Rust, true, vec!["/root/x"]));
    let steps = wipe.plan(&config, &tree).unwrap();
    assert_eq!(steps.len(), 2);
    assert!(steps[0].ignored && !steps[0].delete);
    assert!(!steps[1].ignored && steps[1].delete);
    let results: Vec<Option<String>> = vec![None, None];
    wipe.run(&config, &tree, &results).unwrap();
    let wiped = wipe.wipe_info.unwrap();
    let ignored = wipe.ignore_info.unwrap();
    assert_eq!((wiped.dir_count, wiped.file_count, wiped.size), (1, 1, 70));
    assert_eq!((ignored.dir_count, ignored.file_count, ignored.size), (1, 1, 30));
    let lines = wipe.writer.lines();
    let x_line = lines.iter().find(|l| l.contains("/root/x/target")).unwrap();
    assert!(x_line.ends_with(" [Ignored]"));
}

#[test]
fn unknown_rule_is_reported() {
    let config = rust_marker_config();
    let tree = scenario_tree();
    let mut wipe = Wipe::new(params(LanguageEnum::Terraform, false, Vec::new()));
    assert_eq!(wipe.plan(&config, &tree).unwrap_err(), WipeError::RuleNotFound);
    let no_results: Vec<Option<String>> = Vec::new();
    assert_eq!(
        wipe.run(&config, &tree, &no_results).unwrap_err(),
        WipeError::RuleNotFound
    );
    assert!(wipe.writer.lines().is_empty());
}

#[test]
fn misaligned_outcomes_are_refused() {
    let config = rust_marker_config();
    let tree = scenario_tree();
    let mut wipe = Wipe::new(params(LanguageEnum::Rust, true, Vec::new()));
    let too_few: Vec<Option<String>> = Vec::new();
    assert_eq!(
        wipe.run(&config, &tree, &too_few).unwrap_err(),
        WipeError::OutcomeMismatch
    );
    assert!(wipe.writer.lines().is_empty());
}
