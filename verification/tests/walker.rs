use cargo_wipe::configuration::language_option::LanguageOption;
use cargo_wipe::dir_helpers::{DirInfo, WalkRecord};
use cargo_wipe::fs_tree::{tree_is_wf, FsEntry};

fn file(name: &str, size: usize) -> FsEntry {
    FsEntry::File { name: name.to_string(), size }
}

fn dir(name: &str, entries: Vec<FsEntry>) -> FsEntry {
    FsEntry::Dir { name: name.to_string(), readable: true, entries }
}

fn unreadable_dir(name: &str) -> FsEntry {
    FsEntry::Dir { name: name.to_string(), readable: false, entries: Vec::new() }
}

fn name_rule(target: &str) -> LanguageOption {
    LanguageOption::new("test".to_string(), target, &Vec::new(), &Vec::new()).unwrap()
}

fn matched_paths(records: &[WalkRecord]) -> Vec<String> {
    records
        .iter()
        .filter_map(|r| match r {
            WalkRecord::Matched { path, .. } => Some(path.clone()),
            WalkRecord::ListFailed { .. } => None,
        })
        .collect()
}

#[test]
fn walker_collects_matches_in_order() {
    let tree = dir(
        "root",
        vec![
            dir("a", vec![dir("target", vec![file("x", 5)])]),
            dir("b", Vec::new()),
            dir("target", Vec::new()),
        ],
    );
    assert!(tree_is_wf(&tree));
    let rule = name_rule("^target$");
    let records = DirInfo::get_paths_to_delete("/root", &tree, &rule);
    assert_eq!(
        matched_paths(&records),
        vec!["/root/a/target".to_string(), "/root/target".to_string()]
    );
}

#[test]
fn walker_prunes_matched_directories() {
    // A target nested inside a matched target must not be reported:
    // the walker never descends into a match.
    let inner = dir("target", vec![file("deep", 1)]);
    let outer = dir("target", vec![dir("debug", vec![inner])]);
    let tree = dir("root", vec![dir("proj", vec![outer])]);
    assert!(tree_is_wf(&tree));
    let rule = name_rule("^target$");
    let records = DirInfo::get_paths_to_delete("/r", &tree, &rule);
    let paths = matched_paths(&records);
    assert_eq!(paths, vec!["/r/proj/target".to_string()]);
}

#[test]
fn walker_reports_matched_stats() {
    let tree = dir(
        "root",
        vec![dir("target", vec![file("a", 7), dir("sub", vec![file("b", 5)])])],
    );
    let rule = name_rule("^target$");
    let records = DirInfo::get_paths_to_delete("/r", &tree, &rule);
    assert_eq!(records.len(), 1);
    match &records[0] {
        WalkRecord::Matched { path, info } => {
            assert_eq!(path, "/r/target");
            // The matched directory itself, plus `sub`.
            assert_eq!(info.dir_count, 2);
            assert_eq!(info.file_count, 2);
            assert_eq!(info.size, 12);
        }
        WalkRecord::ListFailed { .. } => panic!("expected a match"),
    }
}

#[test]
fn walker_reports_listing_failures_and_goes_on() {
    let tree = dir(
        "root",
        vec![unreadable_dir("blocked"), dir("target", Vec::new())],
    );
    let rule = name_rule("^target$");
    let records = DirInfo::get_paths_to_delete("/r", &tree, &rule);
    assert_eq!(records.len(), 2);
    match &records[0] {
        WalkRecord::ListFailed { path } => assert_eq!(path, "/r/blocked"),
        WalkRecord::Matched { .. } => panic!("expected a listing failure"),
    }
    assert_eq!(matched_paths(&records), vec!["/r/target".to_string()]);
}

#[test]
fn walker_skips_files_and_opaque_entries() {
    let tree = dir(
        "root",
        vec![
            file("target", 9),
            FsEntry::Opaque { name: "target2".to_string() },
            dir("src", vec![file("main.rs", 3)]),
        ],
    );
    let rule = name_rule("target");
    let records = DirInfo::get_paths_to_delete("/r", &tree, &rule);
    assert!(records.is_empty());
}

#[test]
fn unreadable_matching_directory_is_still_a_name_match() {
    // With no content conditions, a directory that cannot be listed
    // can still match by name; it is reported, not descended into.
    let tree = dir("root", vec![unreadable_dir("target")]);
    let rule = name_rule("^target$");
    let records = DirInfo::get_paths_to_delete("/r", &tree, &rule);
    assert_eq!(matched_paths(&records), vec!["/r/target".to_string()]);
}

#[test]
fn content_failed_name_match_is_descended_into() {
    // A directory whose name matches but whose content condition
    // fails is no match, so the walker keeps descending: a proper
    // target below it is still found.
    let rule = LanguageOption::new(
        "rust".to_string(),
        "^target$",
        &vec!["^\\.rustc_info\\.json$".to_string()],
        &Vec::new(),
    )
    .unwrap();
    let inner = dir("target", vec![file(".rustc_info.json", 4)]);
    let outer = dir("target", vec![dir("nested", vec![inner])]);
    let tree = dir("root", vec![outer]);
    let records = DirInfo::get_paths_to_delete("/r", &tree, &rule);
    assert_eq!(
        matched_paths(&records),
        vec!["/r/target/nested/target".to_string()]
    );
}

#[test]
fn unlistable_root_yields_one_failure() {
    let tree = unreadable_dir("root");
    let rule = name_rule("target");
    let records = DirInfo::get_paths_to_delete("/r", &tree, &rule);
    assert_eq!(records.len(), 1);
    match &records[0] {
        WalkRecord::ListFailed { path } => assert_eq!(path, "/r"),
        WalkRecord::Matched { .. } => panic!("expected a listing failure"),
    }
}
