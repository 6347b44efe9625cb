use sidecar_supervisor::parse::extract_marker;
use sidecar_supervisor::parse::split_lines;

#[test]
fn marker_simple_value() {
    let r = extract_marker("PORT: 4821", "PORT:");
    assert_eq!(r, Some("4821".to_string()));
}

#[test]
fn marker_takes_last_occurrence() {
    let r = extract_marker("PORT: 1111 PORT: 2222", "PORT:");
    assert_eq!(r, Some("2222".to_string()));
}

#[test]
fn marker_absent_label() {
    assert_eq!(extract_marker("starting up", "PORT:"), None);
    assert_eq!(extract_marker("", "PORT:"), None);
}

#[test]
fn marker_empty_after_trim_is_not_a_value() {
    assert_eq!(extract_marker("PORT:  ", "PORT:"), None);
    assert_eq!(extract_marker("PORT:", "PORT:"), None);
    assert_eq!(extract_marker("PORT: \t \r", "PORT:"), None);
}

#[test]
fn marker_trims_both_ends() {
    let r = extract_marker("TOKEN:\t abc123 \r", "TOKEN:");
    assert_eq!(r, Some("abc123".to_string()));
}

#[test]
fn marker_value_amid_other_text() {
    let r = extract_marker("[worker] listening, PORT: 9000 (tcp)", "PORT:");
    assert_eq!(r, Some("9000 (tcp)".to_string()));
}

#[test]
fn marker_other_label_ignored() {
    assert_eq!(extract_marker("TOKEN: abc", "PORT:"), None);
}

#[test]
fn split_plain_lines() {
    let r = split_lines("a\nb\r\nc");
    assert_eq!(r, vec!["a".to_string(), "b".to_string(), "c".to_string()]);
}

#[test]
fn split_trailing_newline_adds_no_line() {
    assert_eq!(split_lines("a\n"), vec!["a".to_string()]);
    assert_eq!(split_lines(""), Vec::<String>::new());
}

#[test]
fn split_keeps_empty_lines_between_newlines() {
    assert_eq!(split_lines("\n\n"), vec!["".to_string(), "".to_string()]);
}

#[test]
fn split_lone_carriage_return_stays() {
    assert_eq!(split_lines("a\rb"), vec!["a\rb".to_string()]);
}
