use cliutils::calr::{
    format_month, is_leap_year, last_day_in_month, parse_int, parse_month, parse_year, Date,
};

#[test]
fn test_parse_int() {
    let res = parse_int("1");
    assert!(res.is_ok());
    assert_eq!(res.unwrap(), 1);

    let res = parse_int("-1");
    assert!(res.is_ok());
    assert_eq!(res.unwrap(), -1);

    let res = parse_int("foo");
    assert!(res.is_err());
    assert_eq!(res.unwrap_err().to_string(), "Invalid integer \"foo\"");
}

#[test]
fn test_parse_year() {
    let res = parse_year("1");
    assert!(res.is_ok());
    assert_eq!(res.unwrap(), 1i32);

    let res = parse_year("9999");
    assert!(res.is_ok());
    assert_eq!(res.unwrap(), 9999i32);

    let res = parse_year("0");
    assert!(res.is_err());
    assert_eq!(
        res.unwrap_err().to_string(),
        "year \"0\" not in the range 1 through 9999"
    );

    let res = parse_year("10000");
    assert!(res.is_err());
    assert_eq!(
        res.unwrap_err().to_string(),
        "year \"10000\" not in the range 1 through 9999"
    );

    let res = parse_year("foo");
    assert!(res.is_err());
}

#[test]
fn test_parse_month() {
    let res = parse_month("1");
    assert!(res.is_ok());
    assert_eq!(res.unwrap(), 1u32);
    let res = parse_month("12");
    assert!(res.is_ok());
    assert_eq!(res.unwrap(), 12u32);
    let res = parse_month("jan");
    assert!(res.is_ok());
    assert_eq!(res.unwrap(), 1u32);
    let res = parse_month("0");
    assert!(res.is_err());
    assert_eq!(
        res.unwrap_err().to_string(),
        "month \"0\" not in the range 1 through 12"
    );
    let res = parse_month("13");
    assert!(res.is_err());
    assert_eq!(
        res.unwrap_err().to_string(),
        "month \"13\" not in the range 1 through 12"
    );
    let res = parse_month("foo");
    assert!(res.is_err());
    assert_eq!(res.unwrap_err().to_string(), "Invalid month \"foo\"");
}

#[test]
fn parse_month_folds_case() {
    assert_eq!(parse_month("JANUARY").unwrap(), 1);
    assert_eq!(parse_month("Dec").unwrap(), 12);
    // "ju" starts both June and July
    assert!(parse_month("ju").is_err());
}

#[test]
fn test_last_day_in_month() {
    assert_eq!(
        last_day_in_month(2020, 1),
        Date { year: 2020, month: 1, day: 31 }
    );
    assert_eq!(
        last_day_in_month(2020, 2),
        Date { year: 2020, month: 2, day: 29 }
    );
    assert_eq!(
        last_day_in_month(2020, 4),
        Date { year: 2020, month: 4, day: 30 }
    );
}

#[test]
fn leap_year_rule() {
    assert!(is_leap_year(2020));
    assert!(!is_leap_year(1900));
    assert!(is_leap_year(2000));
    assert!(!is_leap_year(2023));
}

#[test]
fn format_month_lays_out_february_2020() {
    let today = Date { year: 1, month: 1, day: 1 };
    let lines = format_month(2020, 2, true, today);
    assert_eq!(lines.len(), 8);
    assert_eq!(lines[0], "   February 2020    ");
    assert_eq!(lines[1], "Su Mo Tu We Th Fr Sa  ");
    assert_eq!(lines[2], "                   1  ");
    assert_eq!(lines[3], " 2  3  4  5  6  7  8  ");
    assert_eq!(lines[6], "23 24 25 26 27 28 29  ");
    assert_eq!(lines[7], "                      ");
}

#[test]
fn format_month_without_year_centers_name() {
    let today = Date { year: 1, month: 1, day: 1 };
    let lines = format_month(2021, 4, false, today);
    assert_eq!(lines[0], "       April        ");
    assert_eq!(lines[1], "Su Mo Tu We Th Fr Sa  ");
}

#[test]
fn format_month_highlights_today() {
    let today = Date { year: 2020, month: 2, day: 14 };
    let lines = format_month(2020, 2, true, today);
    let week = &lines[4];
    assert!(week.contains("\u{1b}[7m"));
    assert!(week.contains("14"));
    // another month of the same year stays plain
    let other = format_month(2020, 3, true, today);
    for line in &other {
        assert!(!line.contains("\u{1b}["));
    }
}
