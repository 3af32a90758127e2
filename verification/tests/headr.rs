use cliutils::headr::{head_lines, head_of_text, make_file_header, parse_positive_int};

#[test]
fn parse_positive_int_accepts_positive() {
    let res = parse_positive_int("3");
    assert!(res.is_ok());
    assert_eq!(res.unwrap(), 3);
}

#[test]
fn parse_positive_int_rejects_zero() {
    let res = parse_positive_int("0");
    assert!(res.is_err());
    assert_eq!(res.unwrap_err(), "value must be positive");
}

#[test]
fn parse_positive_int_rejects_text() {
    let res = parse_positive_int("foo");
    assert!(res.is_err());
    assert_eq!(res.unwrap_err(), "Illegal count -- foo");
}

#[test]
fn file_header_wraps_name() {
    assert_eq!(make_file_header(&"a.txt".to_string()), "==> a.txt <==\n");
}

#[test]
fn head_takes_first_lines_with_terminators() {
    assert_eq!(head_lines("a\nb\nc\n", 2), "a\nb\n");
    assert_eq!(head_lines("a\nb", 5), "a\nb");
    assert_eq!(head_lines("abc", 1), "abc");
    assert_eq!(head_lines("a\nb\n", 0), "");
}

#[test]
fn head_of_text_positive_count() {
    assert_eq!(head_of_text("a\nb\nc\n", 2), "a\nb\n");
}

#[test]
fn head_of_text_negative_count_drops_tail_lines() {
    assert_eq!(head_of_text("a\nb\nc\n", -1), "a\nb\n");
    assert_eq!(head_of_text("a\nb\nc", -2), "a\n");
    assert_eq!(head_of_text("a\nb\n", -5), "");
}
