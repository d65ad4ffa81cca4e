use ratch::split_lines;

fn owned(v: Vec<&str>) -> Vec<String> {
    v.into_iter().map(|s| s.to_string()).collect()
}

#[test]
fn empty_output_has_no_lines() {
    assert_eq!(split_lines(""), owned(vec![]));
}

#[test]
fn single_terminated_line() {
    assert_eq!(split_lines("A\n"), owned(vec!["A\n"]));
}

#[test]
fn unterminated_last_line_gains_newline() {
    assert_eq!(split_lines("a\nb"), owned(vec!["a\n", "b\n"]));
}

#[test]
fn crlf_endings_lose_carriage_return() {
    assert_eq!(split_lines("a\r\nb\r\n"), owned(vec!["a\n", "b\n"]));
}

#[test]
fn empty_lines_are_kept() {
    assert_eq!(split_lines("a\n\n"), owned(vec!["a\n", "\n"]));
}

#[test]
fn lone_carriage_return_is_kept() {
    assert_eq!(split_lines("a\r"), owned(vec!["a\r\n"]));
}
