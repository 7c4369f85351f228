use cargo_wipe::command::{Args, LanguageEnum};
use cargo_wipe::dir_helpers::DirInfo;
use cargo_wipe::wipe_params::WipeParams;
use cargo_wipe::writer::Writer;

fn params(language: LanguageEnum, wipe: bool) -> WipeParams {
    WipeParams::new(
        &Args { language, wipe, ignores: Vec::new() },
        "/home/user/code".to_string(),
    )
}

fn spaced(c1: &str, c2: &str, c3: &str, c4: &str) -> String {
    format!("{c1:>12}{c2:>18}{c3:>9}{c4}")
}

#[test]
fn header_line_text() {
    let mut w = Writer::new();
    w.write_header(&params(LanguageEnum::Rust, false));
    assert_eq!(
        w.lines(),
        &vec![
            "[DRY RUN] Recursively searching for all \"target\" folders in /home/user/code..."
                .to_string()
        ]
    );
    let mut w = Writer::new();
    w.write_header(&params(LanguageEnum::Node, true));
    assert_eq!(
        w.lines(),
        &vec![
            "[WIPING] Recursively searching for all \"node_modules\" folders in /home/user/code..."
                .to_string()
        ]
    );
}

#[test]
fn content_header_columns() {
    let mut w = Writer::new();
    w.write_content_header();
    assert_eq!(
        w.lines(),
        &vec!["".to_string(), spaced("Files #", "Size (MB)", "", "Path")]
    );
}

#[test]
fn content_line_with_stats() {
    let mut w = Writer::new();
    let info = DirInfo::new(3, 1500, 5 * 1048576);
    w.write_content_line("/p/target", Some(info), false, None);
    assert_eq!(w.lines(), &vec![spaced("1,500", "5", "", "/p/target")]);
}

#[test]
fn content_line_without_stats_and_markers() {
    let mut w = Writer::new();
    w.write_content_line("/p/a", None, true, None);
    let err = "Permission denied".to_string();
    w.write_content_line("/p/b", None, false, Some(&err));
    assert_eq!(
        w.lines(),
        &vec![
            spaced("?", "?", "", "/p/a") + " [Ignored]",
            spaced("?", "?", "", "/p/b") + " [Permission denied]",
        ]
    );
}

#[test]
fn summary_block_lines() {
    let mut w = Writer::new();
    let wiped = DirInfo::new(1, 10, 2 * 1048576);
    let ignored = DirInfo::new(0, 0, 0);
    let previous = Some(DirInfo::new(4, 30, 10 * 1048576));
    w.write_summary(&params(LanguageEnum::Rust, false), &wiped, &ignored, &previous);
    assert_eq!(
        w.lines(),
        &vec![
            "".to_string(),
            spaced("Files #", "Size (MB)", "", "/home/user/code"),
            spaced("30", "10", "", "Currently"),
            spaced("10", "2", "", "Can wipe"),
            spaced("20", "8", "", "After wipe"),
            "".to_string(),
        ]
    );
}

#[test]
fn summary_block_shows_ignored_when_present() {
    let mut w = Writer::new();
    let wiped = DirInfo::new(1, 10, 0);
    let ignored = DirInfo::new(2, 7, 1048576);
    let previous = Some(DirInfo::new(4, 30, 3 * 1048576));
    w.write_summary(&params(LanguageEnum::Rust, true), &wiped, &ignored, &previous);
    assert_eq!(
        w.lines(),
        &vec![
            "".to_string(),
            spaced("Files #", "Size (MB)", "", "/home/user/code"),
            spaced("30", "3", "", "Previously"),
            spaced("7", "1", "", "Ignored"),
            spaced("10", "0", "", "Wiped"),
            spaced("20", "3", "", "Now"),
            "".to_string(),
        ]
    );
}

#[test]
fn summary_without_candidates_is_only_a_blank() {
    let mut w = Writer::new();
    let zero = DirInfo::new(0, 0, 0);
    w.write_summary(&params(LanguageEnum::Rust, false), &zero, &zero, &None);
    assert_eq!(w.lines(), &vec!["".to_string()]);
}

#[test]
fn footer_lines() {
    let mut w = Writer::new();
    w.write_footer(&params(LanguageEnum::Rust, false), true);
    w.write_footer(&params(LanguageEnum::Rust, true), true);
    w.write_footer(&params(LanguageEnum::Rust, true), false);
    assert_eq!(
        w.lines(),
        &vec![
            "Run cargo wipe rust -w to wipe all folders found. USE WITH CAUTION!".to_string(),
            "All clear!".to_string(),
            "Nothing found!".to_string(),
        ]
    );
}
