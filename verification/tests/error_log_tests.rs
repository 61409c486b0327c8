use personal_jira_kanban::error_log::{flatten_line_breaks, format_error_line};

#[test]
fn error_line_has_timestamp_tag_scope_and_details() {
    let line = format_error_line("2024-05-01T10:00:00+00:00", "sync", "boom");
    assert_eq!(line, "2024-05-01T10:00:00+00:00 [ERROR] [sync] boom");
}

#[test]
fn error_line_puts_details_on_one_line() {
    let line = format_error_line("T", "jira", "first\nsecond\nthird");
    assert_eq!(line, "T [ERROR] [jira] first | second | third");
    assert!(!line.contains('\n'));
}

#[test]
fn flatten_keeps_text_without_line_breaks() {
    assert_eq!(flatten_line_breaks("no breaks here"), "no breaks here");
    assert_eq!(flatten_line_breaks(""), "");
    assert_eq!(flatten_line_breaks("\n"), " | ");
    assert_eq!(flatten_line_breaks("a\n\nb"), "a |  | b");
    assert_eq!(flatten_line_breaks("ünï\ncode"), "ünï | code");
}

#[test]
fn error_line_keeps_an_rfc3339_timestamp_first() {
    let line = format_error_line("2024-05-01T10:00:00.123456+00:00", "storage", "disk\nfull");
    let (timestamp, rest) = line.split_once(' ').unwrap();
    assert_eq!(timestamp, "2024-05-01T10:00:00.123456+00:00");
    assert_eq!(rest, "[ERROR] [storage] disk | full");
}
