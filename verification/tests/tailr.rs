use cliutils::tailr::{
    count_lines_bytes, get_starting_index, parse_byte, parse_line, TakeValue,
};

#[test]
fn test_get_start_index() {
    // +0 from an empty file (0 lines/bytes) returns None
    assert_eq!(get_starting_index(&TakeValue::PlusZero, 0), None);

    // +0 from a nonempty file returns an index that
    // is one less than the number of lines/bytes
    assert_eq!(get_starting_index(&TakeValue::PlusZero, 1), Some(0));

    // Taking 0 lines/bytes returns None
    assert_eq!(get_starting_index(&TakeValue::TakeNum(1), 0), None);

    // Taking more lines/bytes than is available returns None
    assert_eq!(get_starting_index(&TakeValue::TakeNum(2), 1), None);

    // When starting line/byte is less than total lines/bytes,
    // return one less that the starting number
    assert_eq!(get_starting_index(&TakeValue::TakeNum(1), 10), Some(0));
    assert_eq!(get_starting_index(&TakeValue::TakeNum(2), 10), Some(1));
    assert_eq!(get_starting_index(&TakeValue::TakeNum(3), 10), Some(2));

    // When starting line/byte is negative and less than total,
    // return total - start
    assert_eq!(get_starting_index(&TakeValue::TakeNum(-1), 10), Some(9));
    assert_eq!(get_starting_index(&TakeValue::TakeNum(-2), 10), Some(8));
    assert_eq!(get_starting_index(&TakeValue::TakeNum(-3), 10), Some(7));

    // When starting line/byte is negative and more than total,
    // return 0 to print the whole file
    assert_eq!(get_starting_index(&TakeValue::TakeNum(-20), 10), Some(0));
}

#[test]
fn test_count_lines_bytes() {
    // one line of twenty-four bytes
    let one = b"aaaaaaaaaaaaaaaaaaaaaaa\n";
    assert_eq!(count_lines_bytes(one), (1, 24));

    // ten lines totalling forty-nine bytes
    let mut ten = Vec::new();
    for _ in 0..9 {
        ten.extend_from_slice(b"abcd\n");
    }
    ten.extend_from_slice(b"abc\n");
    assert_eq!(count_lines_bytes(&ten), (10, 49));
}

#[test]
fn count_lines_bytes_counts_trailing_chunk() {
    assert_eq!(count_lines_bytes(b""), (0, 0));
    assert_eq!(count_lines_bytes(b"abc"), (1, 3));
    assert_eq!(count_lines_bytes(b"a\nb"), (2, 3));
}

#[test]
fn take_value_orients_counts() {
    assert_eq!(TakeValue::from_str("+0"), Ok(TakeValue::PlusZero));
    assert_eq!(TakeValue::from_str("10"), Ok(TakeValue::TakeNum(-10)));
    assert_eq!(TakeValue::from_str("-10"), Ok(TakeValue::TakeNum(10)));
    assert_eq!(TakeValue::from_str("+10"), Ok(TakeValue::TakeNum(10)));
    assert!(TakeValue::from_str("3.14").is_err());
    assert!(TakeValue::from_str("").is_err());
}

#[test]
fn parse_line_and_byte_carry_their_messages() {
    assert_eq!(parse_line("5"), Ok(TakeValue::TakeNum(-5)));
    assert_eq!(parse_line("foo").unwrap_err(), "illegal line count -- foo");
    assert_eq!(parse_byte("+1"), Ok(TakeValue::TakeNum(1)));
    assert_eq!(parse_byte("x").unwrap_err(), "illegal byte count -- x");
}
