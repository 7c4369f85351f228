use cargo_wipe::dir_helpers::join_path;
use cargo_wipe::text::{pad_left, str_starts_with};

#[test]
fn pad_left_pads_short_strings() {
    assert_eq!(pad_left("ab", 5), "   ab");
    assert_eq!(pad_left("", 3), "   ");
    assert_eq!(pad_left("abc", 3), "abc");
    assert_eq!(pad_left("abcdef", 3), "abcdef");
}

#[test]
fn str_starts_with_is_a_prefix_test() {
    assert!(str_starts_with("abc", ""));
    assert!(str_starts_with("abc", "ab"));
    assert!(str_starts_with("abc", "abc"));
    assert!(!str_starts_with("abc", "abcd"));
    assert!(!str_starts_with("abc", "bc"));
    assert!(!str_starts_with("Abc", "ab"));
}

#[test]
fn join_path_inserts_the_separator() {
    assert_eq!(join_path("/root", "target"), "/root/target");
    assert_eq!(join_path("", "x"), "/x");
}
