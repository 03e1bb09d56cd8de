use worktree_gc::defaults::{default_dir, default_log_file, validate_registration_name};
use worktree_gc::paths::{join_path, same_path};
use worktree_gc::text::{decimal_text, parse_unsigned, split_lines, trimmed, two_digit_text};

#[test]
fn defaults_test_validate_registration_name() {
    assert!(validate_registration_name("workspace", "team-a_1").is_ok());
    assert!(validate_registration_name("workspace", "Team").is_err());
    assert!(validate_registration_name("workspace", "../team").is_err());
    assert!(validate_registration_name("workspace", "").is_err());
}

#[test]
fn main_test_validate_registration_name() {
    assert!(validate_registration_name("workspace", "team-a_1").is_ok());
    assert!(validate_registration_name("workspace", "Team").is_err());
    assert!(validate_registration_name("workspace", "../team").is_err());
    assert!(validate_registration_name("workspace", "").is_err());
}

#[test]
fn each_complaint_about_a_name_has_its_words() {
    let complaint = |name: &str| validate_registration_name("schedule", name).unwrap_err().message().to_string();
    assert_eq!(complaint(""), "schedule name cannot be empty");
    assert_eq!(
        complaint("aaaaaaaaaaaaaaaaaaaaaaaaaaaaaaaa"),
        "schedule name must be 31 characters or fewer"
    );
    assert_eq!(complaint("-a"), "schedule name must start with a lowercase letter or digit");
    assert_eq!(complaint("_a"), "schedule name must start with a lowercase letter or digit");
    assert_eq!(
        complaint("a.b"),
        "schedule name may only contain lowercase letters, digits, '-' and '_'"
    );
    assert_eq!(
        complaint("aB"),
        "schedule name may only contain lowercase letters, digits, '-' and '_'"
    );
}

#[test]
fn the_length_of_a_name_counts_bytes() {
    assert!(validate_registration_name("workspace", "aaaaaaaaaaaaaaaaaaaaaaaaaaaaaaa").is_ok());
    assert_eq!(
        validate_registration_name("workspace", "\u{e9}\u{e9}\u{e9}\u{e9}\u{e9}\u{e9}\u{e9}\u{e9}\u{e9}\u{e9}\u{e9}\u{e9}\u{e9}\u{e9}\u{e9}\u{e9}")
            .unwrap_err()
            .message(),
        "workspace name must be 31 characters or fewer"
    );
    assert!(validate_registration_name("workspace", "0").is_ok());
}

#[test]
fn default_directory_is_the_current_one_where_it_is_known() {
    assert_eq!(default_dir(Some("/work".to_string())), "/work");
    assert_eq!(default_dir(None), ".");
}

#[test]
fn default_log_file_lies_under_the_home_directory() {
    assert_eq!(default_log_file(Some("/home/u")), "/home/u/.local/share/worktree-gc/gc.jsonl");
    assert_eq!(default_log_file(Some("/")), "/.local/share/worktree-gc/gc.jsonl");
    assert_eq!(default_log_file(None), "gc.jsonl");
}

#[test]
fn paths_join_and_are_told_apart() {
    assert_eq!(join_path("/a", "b"), "/a/b");
    assert_eq!(join_path("/a/", "b"), "/a/b");
    assert_eq!(join_path("", "b"), "b");
    assert_eq!(join_path("/a", "/b"), "/b");
    assert!(same_path("/a//b/", "/a/./b"));
    assert!(!same_path("/a/b", "a/b"));
    assert!(!same_path("./a", "a"));
    assert!(!same_path("/a/../a", "/a"));
}

#[test]
fn numbers_are_written_and_read() {
    assert_eq!(decimal_text(0), "0");
    assert_eq!(decimal_text(1234567890), "1234567890");
    assert_eq!(two_digit_text(7), "07");
    assert_eq!(two_digit_text(70), "70");
    assert_eq!(two_digit_text(700), "700");
    assert_eq!(parse_unsigned("+12", 255), Some(12));
    assert_eq!(parse_unsigned("256", 255), None);
    assert_eq!(parse_unsigned("", 255), None);
    assert_eq!(parse_unsigned("-1", 255), None);
    assert_eq!(parse_unsigned("00000000000000000000000000000000000000000000000000255", 255), Some(255));
}

#[test]
fn lines_and_white_space_follow_the_standard_library() {
    for text in ["", "\n", "a", "a\n", "a\r\nb", "a\rb\r", "\n\na\n\n", " \t\u{3000}x \u{85}"] {
        assert_eq!(split_lines(text), text.lines().collect::<Vec<_>>());
        assert_eq!(trimmed(text), text.trim());
    }
}
