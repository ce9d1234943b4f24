use zed::text::{
    basename, decimal_string, ends_with, parse_index, same_text, split_once, strip_prefix,
};

#[test]
fn prefixes_are_taken_off() {
    assert_eq!(strip_prefix("h\u{e9}llo", "h\u{e9}"), Some("llo"));
    assert_eq!(strip_prefix("abc", "abc"), Some(""));
    assert_eq!(strip_prefix("abc", ""), Some("abc"));
    assert_eq!(strip_prefix("abc", "abd"), None);
    assert_eq!(strip_prefix("ab", "abc"), None);
}

#[test]
fn strings_split_at_the_first_character() {
    assert_eq!(split_once("a?b?c", '?'), Some(("a", "b?c")));
    assert_eq!(split_once("?", '?'), Some(("", "")));
    assert_eq!(split_once("\u{1f600}=\u{e9}", '='), Some(("\u{1f600}", "\u{e9}")));
    assert_eq!(split_once("abc", '?'), None);
    assert_eq!(split_once("", '?'), None);
}

#[test]
fn suffixes_are_recognised() {
    assert!(ends_with("a/b.rs", "b.rs"));
    assert!(ends_with("b.rs", ""));
    assert!(!ends_with("b.rs", "a/b.rs"));
    assert!(!ends_with("b.rt", "b.rs"));
    assert!(same_text("abc", "abc"));
    assert!(!same_text("abcd", "abc"));
    assert!(!same_text("abc", "abd"));
}

#[test]
fn the_last_component_is_found() {
    assert_eq!(basename("a/b/c.rs"), "c.rs");
    assert_eq!(basename("a\\b\\c.rs"), "c.rs");
    assert_eq!(basename("a\\b/c.rs"), "c.rs");
    assert_eq!(basename("a/b\\c.rs"), "c.rs");
    assert_eq!(basename("c.rs"), "c.rs");
    assert_eq!(basename("a/"), "");
    assert_eq!(basename(""), "");
}

#[test]
fn numbers_are_written_and_read_back() {
    for n in [0, 7, 10, 99, 100, 65535, u32::MAX] {
        assert_eq!(decimal_string(n), n.to_string());
        assert_eq!(parse_index(&decimal_string(n)), Ok(n as usize));
    }
}
