use std::cmp::Ordering;

use cliutils::findr::{
    parse_entry_type, parse_ordering, parse_size, parse_size_value, parse_unit, size_matches,
    EntryType, SizeFilter, SizeUnit,
};

#[test]
fn entry_type_letters() {
    assert_eq!(parse_entry_type("f"), Ok(EntryType::File));
    assert_eq!(parse_entry_type("d"), Ok(EntryType::Dir));
    assert_eq!(parse_entry_type("l"), Ok(EntryType::Link));
    assert_eq!(
        parse_entry_type("x").unwrap_err(),
        "[possible values: d, f, l]"
    );
}

#[test]
fn ordering_signs() {
    assert_eq!(parse_ordering("+"), Ok(Ordering::Greater));
    assert_eq!(parse_ordering("-"), Ok(Ordering::Less));
    assert_eq!(parse_ordering(""), Ok(Ordering::Equal));
    assert_eq!(parse_ordering("=").unwrap_err(), "illegal ordering option");
}

#[test]
fn unit_letters() {
    assert_eq!(parse_unit("c"), Ok(SizeUnit::Bytes));
    assert_eq!(parse_unit(""), Ok(SizeUnit::Bytes));
    assert_eq!(parse_unit("k"), Ok(SizeUnit::Kilobytes));
    assert_eq!(parse_unit("M"), Ok(SizeUnit::Megabytes));
    assert_eq!(parse_unit("G"), Ok(SizeUnit::Gigabytes));
    assert_eq!(parse_unit("P"), Ok(SizeUnit::Petabytes));
    assert_eq!(parse_unit("T").unwrap_err(), "illegal unit");
}

#[test]
fn size_value_is_a_plain_number() {
    assert_eq!(parse_size_value("100"), Ok(100));
    assert_eq!(parse_size_value("x").unwrap_err(), "illegal size value");
}

#[test]
fn size_filter_parses_sign_number_unit() {
    let f = parse_size("+5k").unwrap();
    assert_eq!(f.ordering, Ordering::Greater);
    assert_eq!(f.size, 5);
    assert_eq!(f.unit, SizeUnit::Kilobytes);

    let f = parse_size("-2M").unwrap();
    assert_eq!(f.ordering, Ordering::Less);
    assert_eq!(f.size, 2);
    assert_eq!(f.unit, SizeUnit::Megabytes);

    let f = parse_size("100c").unwrap();
    assert_eq!(f.ordering, Ordering::Equal);
    assert_eq!(f.size, 100);
    assert_eq!(f.unit, SizeUnit::Bytes);
}

#[test]
fn size_filter_matches_leftmost() {
    let f = parse_size("size:10M!").unwrap();
    assert_eq!(f.ordering, Ordering::Equal);
    assert_eq!(f.size, 10);
    assert_eq!(f.unit, SizeUnit::Megabytes);
}

#[test]
fn size_in_bytes_scales_by_unit() {
    let f = SizeFilter { ordering: Ordering::Equal, size: 2, unit: SizeUnit::Kilobytes };
    assert_eq!(f.get_size_in_bytes(), 2048);
    let f = SizeFilter { ordering: Ordering::Equal, size: 3, unit: SizeUnit::Megabytes };
    assert_eq!(f.get_size_in_bytes(), 3 * 1024 * 1024);
    let f = SizeFilter { ordering: Ordering::Equal, size: 1, unit: SizeUnit::Terabytes };
    assert_eq!(f.get_size_in_bytes(), 1024usize * 1024 * 1024 * 1024);
}

#[test]
fn size_comparison_follows_ordering() {
    assert!(size_matches(Ordering::Equal, 10, 10));
    assert!(!size_matches(Ordering::Equal, 9, 10));
    assert!(size_matches(Ordering::Less, 9, 10));
    assert!(size_matches(Ordering::Greater, 11, 10));
}
