use std::cmp::Ordering;

use cliutils::commr::{
    comm_step, compare_lines, format_line_1, format_line_2, format_line_3, CommStep, Config,
};

fn config(s1: bool, s2: bool, s3: bool) -> Config {
    Config {
        file1: "a".to_string(),
        file2: "b".to_string(),
        suppress_col1: s1,
        suppress_col2: s2,
        suppress_col3: s3,
        insensitive: false,
        delimiter: "\t".to_string(),
    }
}

#[test]
fn lines_compare_lexicographically() {
    assert_eq!(compare_lines("abc", "abd", false), Ordering::Less);
    assert_eq!(compare_lines("abc", "abc", false), Ordering::Equal);
    assert_eq!(compare_lines("b", "abc", false), Ordering::Greater);
    assert_eq!(compare_lines("ab", "abc", false), Ordering::Less);
}

#[test]
fn insensitive_comparison_folds_case() {
    assert_eq!(compare_lines("ABC", "abc", true), Ordering::Equal);
    assert_eq!(compare_lines("ABC", "abd", true), Ordering::Less);
    // without folding, uppercase sorts before lowercase
    assert_eq!(compare_lines("ABC", "abc", false), Ordering::Less);
}

#[test]
fn merge_step_routes_columns() {
    let l = Some("apple".to_string());
    let r = Some("banana".to_string());
    assert_eq!(
        comm_step(&l, &r, false),
        CommStep { column: 1, advance1: true, advance2: false }
    );
    assert_eq!(
        comm_step(&r, &l, false),
        CommStep { column: 2, advance1: false, advance2: true }
    );
    assert_eq!(
        comm_step(&l, &l, false),
        CommStep { column: 3, advance1: true, advance2: true }
    );
    assert_eq!(
        comm_step(&l, &None, false),
        CommStep { column: 1, advance1: true, advance2: false }
    );
    assert_eq!(
        comm_step(&None, &l, false),
        CommStep { column: 2, advance1: false, advance2: true }
    );
    assert_eq!(
        comm_step(&None, &None, false),
        CommStep { column: 0, advance1: false, advance2: false }
    );
}

#[test]
fn column_one_prints_plain() {
    assert_eq!(format_line_1("x", &config(false, false, false)), Some("x".to_string()));
    assert_eq!(format_line_1("x", &config(true, false, false)), None);
}

#[test]
fn column_two_indents_once() {
    assert_eq!(format_line_2("x", &config(false, false, false)), Some("\tx".to_string()));
    assert_eq!(format_line_2("x", &config(true, false, false)), Some("x".to_string()));
    assert_eq!(format_line_2("x", &config(false, true, false)), None);
}

#[test]
fn column_three_indents_per_visible_column() {
    assert_eq!(format_line_3("x", &config(false, false, false)), Some("\t\tx".to_string()));
    assert_eq!(format_line_3("x", &config(true, false, false)), Some("\tx".to_string()));
    assert_eq!(format_line_3("x", &config(true, true, false)), Some("x".to_string()));
    assert_eq!(format_line_3("x", &config(false, false, true)), None);
}
