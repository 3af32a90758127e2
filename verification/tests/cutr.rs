use cliutils::cutr::{
    extract_bytes, extract_chars, extract_fields, parse_bytes, parse_chars, parse_delimiter,
    parse_fields, parse_index, parse_pos, Extract, ParseError,
};

#[test]
fn parse_single_number_is_zero_based() {
    let res = parse_pos("1");
    assert!(res.is_ok());
    assert_eq!(res.unwrap(), vec![0..1]);
}

#[test]
fn parse_range_is_half_open() {
    let res = parse_pos("3-5");
    assert!(res.is_ok());
    assert_eq!(res.unwrap(), vec![2..5]);
}

#[test]
fn parse_keeps_clause_order() {
    let res = parse_pos("3,1");
    assert!(res.is_ok());
    assert_eq!(res.unwrap(), vec![2..3, 0..1]);
}

#[test]
fn parse_keeps_duplicates() {
    let res = parse_pos("1,1");
    assert!(res.is_ok());
    assert_eq!(res.unwrap(), vec![0..1, 0..1]);
}

#[test]
fn parse_is_deterministic() {
    let first = parse_pos("1,3-5,9");
    let second = parse_pos("1,3-5,9");
    assert_eq!(first.unwrap(), second.unwrap());
}

#[test]
fn parse_rejects_zero() {
    let res = parse_pos("0");
    assert!(res.is_err());
    assert_eq!(res.unwrap_err().message(), "illegal list value: 0");
}

#[test]
fn parse_rejects_plus_sign() {
    let res = parse_pos("+1");
    assert!(res.is_err());
    assert_eq!(res.unwrap_err().message(), "illegal list value: +1");
}

#[test]
fn parse_rejects_letters() {
    let res = parse_pos("a");
    assert!(res.is_err());
    assert_eq!(res.unwrap_err().message(), "illegal list value: a");
}

#[test]
fn parse_rejects_backwards_range_naming_both_ends() {
    let res = parse_pos("5-2");
    assert!(res.is_err());
    match res.unwrap_err() {
        ParseError::RangeOrder { first, second } => {
            assert_eq!(first, 5);
            assert_eq!(second, 2);
        }
        other => panic!("expected a range-order failure, got {:?}", other),
    }
}

#[test]
fn range_order_message_names_one_based_values() {
    let res = parse_pos("5-2");
    assert_eq!(
        res.unwrap_err().message(),
        "First number in range (5) must be lower than the second number (2)"
    );
}

#[test]
fn parse_fails_fast_on_first_bad_clause() {
    let res = parse_pos("1,x,2");
    assert!(res.is_err());
    assert_eq!(res.unwrap_err().message(), "illegal list value: x");
}

#[test]
fn parse_rejects_empty_clause() {
    let res = parse_pos("1,");
    assert!(res.is_err());
    assert_eq!(res.unwrap_err().message(), "illegal list value: ");
}

#[test]
fn parse_rejects_huge_number() {
    let res = parse_pos("99999999999999999999999999");
    assert!(res.is_err());
}

#[test]
fn parse_index_converts_and_rejects() {
    assert_eq!(parse_index("7").unwrap(), 6);
    assert!(parse_index("0").is_err());
    assert!(parse_index("007").is_ok());
}

#[test]
fn extract_bytes_walks_ranges() {
    assert_eq!(extract_bytes("hello", &[0..1, 3..5]), "hlo");
}

#[test]
fn extract_bytes_replaces_split_characters() {
    // the first byte of a two-byte character alone is not valid UTF-8
    assert_eq!(extract_bytes("é", &[0..1]), "\u{FFFD}");
}

#[test]
fn extract_chars_skips_out_of_range_tail() {
    assert_eq!(extract_chars("ab", &[0..1, 5..6]), "a");
}

#[test]
fn extract_chars_duplicates_repeated_ranges() {
    let pos = parse_pos("1,1").unwrap();
    assert_eq!(extract_chars("ab", &pos), "aa");
}

#[test]
fn extract_chars_full_range_round_trip() {
    let line = "héllo";
    let pos = vec![0..line.chars().count()];
    assert_eq!(extract_chars(line, &pos), line);
}

#[test]
fn extract_fields_takes_subsequence() {
    let record = vec!["a".to_string(), "b".to_string(), "c".to_string()];
    let got = extract_fields(&record, &[1..3]);
    assert_eq!(got, vec!["b".to_string(), "c".to_string()]);
}

#[test]
fn extract_on_empty_line_is_empty() {
    assert_eq!(extract_chars("", &[0..3]), "");
    assert_eq!(extract_bytes("", &[0..3]), "");
}

#[test]
fn parse_mode_wrappers_tag_their_mode() {
    assert!(matches!(parse_bytes("1"), Ok(Extract::Bytes(_))));
    assert!(matches!(parse_chars("1-2"), Ok(Extract::Chars(_))));
    assert!(matches!(parse_fields("2,4"), Ok(Extract::Fields(_))));
}

#[test]
fn parse_delimiter_wants_one_byte() {
    assert_eq!(parse_delimiter(",").unwrap(), b',');
    let err = parse_delimiter("ab").unwrap_err();
    assert_eq!(err, "--delim \"ab\" must be a single byte");
    assert!(parse_delimiter("é").is_err());
}
