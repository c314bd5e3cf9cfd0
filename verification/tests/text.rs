use ccpast::text::{blank, collapse_whitespace, contains, split_lines};

#[test]
fn collapse_joins_words_with_single_spaces() {
    assert_eq!(collapse_whitespace("  explain\n\tBox<T>   please  "), "explain Box<T> please");
    assert_eq!(collapse_whitespace(""), "");
    assert_eq!(collapse_whitespace(" \n "), "");
    assert_eq!(collapse_whitespace("a\u{3000}b"), "a b");
}

#[test]
fn blank_means_only_white_space() {
    assert!(blank(""));
    assert!(blank(" \t\n\u{a0}"));
    assert!(!blank(" x "));
}

#[test]
fn substring_search() {
    assert!(contains("hello world", "lo w"));
    assert!(contains("abc", ""));
    assert!(!contains("abc", "abcd"));
    assert!(!contains("abc", "ac"));
    assert!(contains("日本語", "本"));
}

#[test]
fn lines_drop_endings_and_final_newline() {
    assert_eq!(split_lines("a\nb\r\nc"), vec!["a", "b", "c"]);
    assert_eq!(split_lines("a\n"), vec!["a"]);
    assert_eq!(split_lines("a\n\n"), vec!["a", ""]);
    assert_eq!(split_lines(""), Vec::<String>::new());
    assert_eq!(split_lines("x\r"), vec!["x\r"]);
}

#[test]
fn final_newline_is_optional() {
    assert_eq!(split_lines("x\ny"), split_lines("x\ny\n"));
    assert_eq!(split_lines("x\r\ny"), split_lines("x\r\ny\r\n"));
}

#[test]
fn collapsed_text_has_no_outer_or_doubled_space() {
    let out = collapse_whitespace("\t a  b \n c \u{2003}");
    assert_eq!(out, "a b c");
    assert!(!out.starts_with(' ') && !out.ends_with(' ') && !out.contains("  "));
}

#[test]
fn collapsing_twice_changes_nothing_and_keeps_words() {
    let s = "  one\u{3000}two\n\n three\u{85}";
    let once = collapse_whitespace(s);
    assert_eq!(once, "one two three");
    assert_eq!(collapse_whitespace(&once), once);
    assert!(once.split_whitespace().eq(s.split_whitespace()));
    assert!(once.chars().all(|c| c == ' ' || !c.is_whitespace()));
}
