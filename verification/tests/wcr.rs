use cliutils::wcr::{count, format_field, gen_file_info_string, Config, FileInfo};

#[test]
fn count_empty_input() {
    let info = count("");
    assert_eq!(
        info,
        FileInfo { num_lines: 0, num_words: 0, num_bytes: 0, num_chars: 0 }
    );
}

#[test]
fn count_lines_words_bytes_chars() {
    let info = count("one two three\nfour\n");
    assert_eq!(info.num_lines, 2);
    assert_eq!(info.num_words, 4);
    assert_eq!(info.num_bytes, 19);
    assert_eq!(info.num_chars, 19);
}

#[test]
fn count_unterminated_last_line() {
    let info = count("a\nb");
    assert_eq!(info.num_lines, 2);
    assert_eq!(info.num_words, 2);
}

#[test]
fn count_multibyte_characters() {
    let info = count("é\n");
    assert_eq!(info.num_bytes, 3);
    assert_eq!(info.num_chars, 2);
    assert_eq!(info.num_lines, 1);
    assert_eq!(info.num_words, 1);
}

#[test]
fn count_runs_of_whitespace_make_one_gap() {
    let info = count("  a \t b  \n");
    assert_eq!(info.num_words, 2);
}

#[test]
fn add_accumulates_totals() {
    let mut total = FileInfo::default();
    total.add(&FileInfo { num_lines: 1, num_words: 2, num_bytes: 3, num_chars: 4 });
    total.add(&FileInfo { num_lines: 10, num_words: 20, num_bytes: 30, num_chars: 40 });
    assert_eq!(
        total,
        FileInfo { num_lines: 11, num_words: 22, num_bytes: 33, num_chars: 44 }
    );
}

#[test]
fn format_field_right_aligns() {
    assert_eq!(format_field(3), "       3");
    assert_eq!(format_field(10), "      10");
    assert_eq!(format_field(123456789), "123456789");
}

#[test]
fn file_info_string_selects_columns() {
    let config = Config {
        files: vec!["f".to_string()],
        lines: true,
        words: true,
        bytes: true,
        chars: false,
    };
    let info = FileInfo { num_lines: 3, num_words: 4, num_bytes: 23, num_chars: 23 };
    let line = gen_file_info_string(&"f".to_string(), info, &config);
    assert_eq!(line, "       3       4      23 f");
}

#[test]
fn file_info_string_hides_stdin_name() {
    let config = Config {
        files: vec!["-".to_string()],
        lines: true,
        words: false,
        bytes: false,
        chars: false,
    };
    let info = FileInfo { num_lines: 7, num_words: 0, num_bytes: 0, num_chars: 0 };
    let line = gen_file_info_string(&"-".to_string(), info, &config);
    assert_eq!(line, "       7");
}
