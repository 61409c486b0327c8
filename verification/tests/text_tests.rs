use personal_jira_kanban::text::{same_text, text_less, trim_text, trim_trailing_slashes};

#[test]
fn trim_text_removes_outer_white_space() {
    assert_eq!(trim_text("  hello world \t\n"), "hello world");
    assert_eq!(trim_text("\u{3000}wide\u{2003}"), "wide");
    assert_eq!(trim_text("   "), "");
    assert_eq!(trim_text(""), "");
    assert_eq!(trim_text("inner  space"), "inner  space");
}

#[test]
fn trim_text_matches_std_trim() {
    for s in ["", " a ", "\u{85}x\u{a0}", "\u{1680}y\u{202f}", "z\r\n", "\u{200b}k"] {
        assert_eq!(trim_text(s), s.trim());
    }
}

#[test]
fn trailing_slashes_are_dropped() {
    assert_eq!(trim_trailing_slashes("https://x.atlassian.net///"), "https://x.atlassian.net");
    assert_eq!(trim_trailing_slashes("https://x.atlassian.net"), "https://x.atlassian.net");
    assert_eq!(trim_trailing_slashes("///"), "");
    assert_eq!(trim_trailing_slashes("a/b/"), "a/b");
}

#[test]
fn text_comparison_is_by_code_point() {
    assert!(text_less("2024-01-01", "2024-01-02"));
    assert!(!text_less("2024-01-02", "2024-01-01"));
    assert!(!text_less("same", "same"));
    assert!(text_less("ab", "abc"));
    assert!(!text_less("abc", "ab"));
    assert!(text_less("", "a"));
    assert!(text_less("Z", "a"));
}

#[test]
fn same_text_compares_characters() {
    assert!(same_text("pending", "pending"));
    assert!(!same_text("pending", "Pending"));
    assert!(!same_text("pending", "pendin"));
    assert!(same_text("", ""));
}

#[test]
fn trimming_twice_is_trimming_once() {
    for s in ["  a b  ", "\t\n", "x", " \u{2028}y\u{3000} "] {
        let once = trim_text(s);
        assert_eq!(trim_text(&once), once);
    }
}
