use cargo_wipe::dir_helpers::DirInfo;
use cargo_wipe::fs_tree::{tree_is_wf, FsEntry};

fn file(name: &str, size: usize) -> FsEntry {
    FsEntry::File { name: name.to_string(), size }
}

fn dir(name: &str, entries: Vec<FsEntry>) -> FsEntry {
    FsEntry::Dir { name: name.to_string(), readable: true, entries }
}

fn unreadable_dir(name: &str) -> FsEntry {
    FsEntry::Dir { name: name.to_string(), readable: false, entries: Vec::new() }
}

#[test]
fn dir_size_empty_directory() {
    let tree = dir("root", Vec::new());
    assert!(tree_is_wf(&tree));
    let info = DirInfo::dir_size(&tree);
    assert_eq!(info.dir_count, 1);
    assert_eq!(info.file_count, 0);
    assert_eq!(info.size, 0);
}

#[test]
fn dir_size_unreadable_directory() {
    // A directory whose listing is not permitted still counts itself
    // and never raises an error.
    let tree = unreadable_dir("secret");
    assert!(tree_is_wf(&tree));
    let info = DirInfo::dir_size(&tree);
    assert_eq!(info.dir_count, 1);
    assert_eq!(info.file_count, 0);
    assert_eq!(info.size, 0);
}

#[test]
fn dir_size_counts_recursively() {
    let tree = dir(
        "root",
        vec![
            file("a.txt", 10),
            dir("sub", vec![file("b.bin", 32), FsEntry::Opaque { name: "ghost".to_string() }]),
            unreadable_dir("locked"),
        ],
    );
    assert!(tree_is_wf(&tree));
    let info = DirInfo::dir_size(&tree);
    // root, sub and locked; the opaque entry contributes nothing.
    assert_eq!(info.dir_count, 3);
    assert_eq!(info.file_count, 2);
    assert_eq!(info.size, 42);
}

#[test]
fn tree_wf_rejects_bad_trees() {
    // A name holding the separator.
    let bad_name = dir("root", vec![file("a/b", 1)]);
    assert!(!tree_is_wf(&bad_name));
    // An empty name.
    let empty_name = dir("root", vec![file("", 1)]);
    assert!(!tree_is_wf(&empty_name));
    // Duplicate sibling names.
    let dup = dir("root", vec![file("x", 1), file("x", 2)]);
    assert!(!tree_is_wf(&dup));
    // Duplicates in different directories are fine.
    let ok = dir("root", vec![dir("a", vec![file("x", 1)]), dir("b", vec![file("x", 2)])]);
    assert!(tree_is_wf(&ok));
}

#[test]
fn file_count_formatted_groups_digits() {
    let info = DirInfo::new(0, 1234567, 0);
    assert_eq!(info.file_count_formatted(), "1,234,567");
    let small = DirInfo::new(0, 0, 0);
    assert_eq!(small.file_count_formatted(), "0");
}

#[test]
fn size_formatted_mb_scales_and_groups() {
    let info = DirInfo::new(0, 0, 3 * 1048576 + 5);
    assert_eq!(info.size_formatted_mb(), "3");
    let big = DirInfo::new(0, 0, 2048 * 1048576);
    assert_eq!(big.size_formatted_mb(), "2,048");
    let tiny = DirInfo::new(0, 0, 1048575);
    assert_eq!(tiny.size_formatted_mb(), "0");
}
