use napcat_chat::text::{
    after_char_str, collapse_whitespace, decimal_string, is_whitespace, join_strings,
    last_segment_str, replace_char_str, replace_str, str_contains, str_eq,
    str_eq_ignore_ascii_case, str_starts_with, take_str, trim_end_char_str, trim_start_char_str,
    trim_str, trim_str_start, trim_text,
};

#[test]
fn trim_removes_unicode_whitespace() {
    assert_eq!(trim_str("\u{3000} hello\t\n"), "hello");
    assert_eq!(trim_str("   "), "");
    assert_eq!(trim_str_start("  a b "), "a b ");
}

#[test]
fn whitespace_classes() {
    assert!(is_whitespace(' '));
    assert!(is_whitespace('\u{a0}'));
    assert!(!is_whitespace('x'));
    assert!(!is_whitespace('【'));
}

#[test]
fn substring_search() {
    assert!(str_contains("hello world", "lo w"));
    assert!(str_contains("abc", ""));
    assert!(!str_contains("abc", "abcd"));
    assert!(str_starts_with("https://x", "https://"));
    assert!(!str_starts_with("http", "https"));
    assert!(str_eq("同一", "同一"));
    assert!(!str_eq("a", "ab"));
}

#[test]
fn take_counts_characters_not_bytes() {
    assert_eq!(take_str("群聊机器人", 2), "群聊");
    assert_eq!(take_str("abc", 10), "abc");
    assert_eq!(take_str("abc", 0), "");
}

#[test]
fn decimal_notation() {
    assert_eq!(decimal_string(0), "0");
    assert_eq!(decimal_string(42), "42");
    assert_eq!(decimal_string(18446744073709551615), "18446744073709551615");
}

#[test]
fn replace_is_left_to_right_without_overlap() {
    assert_eq!(replace_str("aaaa", "aa", "b"), "bb");
    assert_eq!(replace_str("aaa", "aa", "b"), "ba");
    assert_eq!(replace_str("x[OP:image]y", "[OP:image]", "[图片]"), "x[图片]y");
    assert_eq!(replace_str("none here", "zz", "y"), "none here");
}

#[test]
fn whitespace_runs_collapse() {
    assert_eq!(collapse_whitespace("  a \t b\n\nc  "), "a b c");
    assert_eq!(collapse_whitespace("   "), "");
}

#[test]
fn character_replacement_and_trimming() {
    assert_eq!(replace_char_str("a\\b\\c", '\\', '/'), "a/b/c");
    assert_eq!(trim_start_char_str("//path/x", '/'), "path/x");
    assert_eq!(trim_end_char_str("http://h//", '/'), "http://h");
    assert_eq!(trim_start_char_str("..ext", '.'), "ext");
}

#[test]
fn ascii_case_insensitive_equality() {
    assert!(str_eq_ignore_ascii_case("DB", "db"));
    assert!(str_eq_ignore_ascii_case("Db", "dB"));
    assert!(!str_eq_ignore_ascii_case("db", "dbx"));
    assert!(!str_eq_ignore_ascii_case("Ä", "ä"));
}

#[test]
fn split_once_and_last_segment() {
    assert_eq!(after_char_str("key=val=ue", '='), Some("val=ue".to_string()));
    assert_eq!(after_char_str("novalue", '='), None);
    assert_eq!(last_segment_str("/usr/bin/RM"), "RM");
    assert_eq!(last_segment_str("C:\\tools\\sudo"), "sudo");
    assert_eq!(last_segment_str("ls"), "ls");
    assert_eq!(last_segment_str("dir/"), "");
}

#[test]
fn trim_text_marks_cut_text() {
    assert_eq!(trim_text("abcdef", 3), "abc\n...(已截断)");
    assert_eq!(trim_text("abc", 3), "abc");
    assert_eq!(trim_text("", 0), "");
}

#[test]
fn join_with_separator() {
    let v = vec!["a".to_string(), "b".to_string(), "c".to_string()];
    assert_eq!(join_strings(&v, " "), "a b c");
    assert_eq!(join_strings(&Vec::new(), ", "), "");
}
