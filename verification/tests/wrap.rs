use blankstop::sanitize::normalize::{trim_blank_edges, trim_trailing_whitespace};
use blankstop::sanitize::wrap::join_wrapped_multiline;
use blankstop::sanitize::SanitizeSummary;

fn chars(lines: &[&str]) -> Vec<Vec<char>> {
    lines.iter().map(|l| l.chars().collect()).collect()
}

#[test]
fn runs_wrapped_at_the_width_become_one_line() {
    let lines = chars(&["The quick brown fox jumps", "over the lazy dog and runs", "far away.", "", "Next"]);
    let mut summary = SanitizeSummary::default();
    let out: String = join_wrapped_multiline(&lines, 26, &mut summary).into_iter().collect();
    assert_eq!(out, "The quick brown fox jumps over the lazy dog and runs far away.\n\nNext");
    assert_eq!(summary.unwrapped_lines, 2);
}

#[test]
fn wrap_indent_is_dropped_when_gluing() {
    let lines = chars(&["aaaa", "  bbbb"]);
    let mut summary = SanitizeSummary::default();
    summary.unwrapped_lines = 3;
    let out: String = join_wrapped_multiline(&lines, 4, &mut summary).into_iter().collect();
    assert_eq!(out, "aaaa bbbb");
    assert_eq!(summary.unwrapped_lines, 4);
}

#[test]
fn short_lines_are_not_joined() {
    let lines = chars(&["short", "lines here"]);
    let mut summary = SanitizeSummary::default();
    let out: String = join_wrapped_multiline(&lines, 40, &mut summary).into_iter().collect();
    assert_eq!(out, "short\nlines here");
    assert_eq!(summary.unwrapped_lines, 0);
}

#[test]
fn trailing_white_space_is_counted_in_bytes() {
    let (lines, removed) = trim_trailing_whitespace("ab  \nc\u{3000}\n");
    assert_eq!(lines, vec!["ab".to_string(), "c".to_string(), String::new()]);
    assert_eq!(removed, 5);
}

#[test]
fn blank_edges_of_string_lines_are_dropped() {
    let mut lines: Vec<String> = ["", " ", "x", "", "y", "\t"].iter().map(|s| s.to_string()).collect();
    assert_eq!(trim_blank_edges(&mut lines), 3);
    assert_eq!(lines, vec!["x".to_string(), String::new(), "y".to_string()]);
    let mut blank: Vec<String> = vec!["  ".to_string()];
    assert_eq!(trim_blank_edges(&mut blank), 1);
    assert!(blank.is_empty());
}
