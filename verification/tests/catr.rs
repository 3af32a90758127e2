use cliutils::catr::{determine_line_prefix, line_action, Config, LineAction};

fn config(number: bool, nonblank: bool, squeeze: bool) -> Config {
    Config {
        files: vec!["-".to_string()],
        number_lines: number,
        number_nonblank_lines: nonblank,
        squeeze_empty_lines: squeeze,
    }
}

#[test]
fn numbering_all_lines_pads_to_six() {
    let c = config(true, false, false);
    assert_eq!(determine_line_prefix(&c, 0, false, 0, 0), "     1\t");
    assert_eq!(determine_line_prefix(&c, 9, true, 2, 0), "    10\t");
}

#[test]
fn numbering_discounts_omitted_blanks() {
    let c = config(true, false, true);
    assert_eq!(determine_line_prefix(&c, 5, false, 1, 2), "     4\t");
}

#[test]
fn numbering_nonblank_skips_blank_lines() {
    let c = config(false, true, false);
    assert_eq!(determine_line_prefix(&c, 3, false, 2, 0), "     2\t");
    assert_eq!(determine_line_prefix(&c, 3, true, 2, 0), "");
}

#[test]
fn no_numbering_no_prefix() {
    let c = config(false, false, false);
    assert_eq!(determine_line_prefix(&c, 7, false, 0, 0), "");
}

#[test]
fn squeeze_swallows_repeated_blanks_only() {
    assert_eq!(
        line_action(true, true, true),
        LineAction { print: false, count_blank: false, omit_blank: true, now_blank: true }
    );
    assert_eq!(
        line_action(true, true, false),
        LineAction { print: true, count_blank: true, omit_blank: false, now_blank: true }
    );
    assert_eq!(
        line_action(false, true, true),
        LineAction { print: true, count_blank: true, omit_blank: false, now_blank: true }
    );
    assert_eq!(
        line_action(true, false, true),
        LineAction { print: true, count_blank: false, omit_blank: false, now_blank: false }
    );
}
