//! Calendar layout: validated year and month arguments, the length of a
//! month, and the rendering of one month as eight fixed-width lines (a
//! centered title, a weekday header, and the day grid with today's date
//! highlighted).

use chrono::Datelike;
use vstd::prelude::*;
use vstd::string::*;

use crate::strnum::{
    center_spec, dec_str, dec_str_signed, i64_string, join_spec, lower_of, lowercase,
    pad_left_spec, pad_right_spec, parse_i64_str, signed_shape, signed_value, spaces,
    str_is_prefix, u64_string, unsigned_digits, unsigned_shape, dec_value,
};

verus! {

/// A calendar date as plain values; the tool never needs more of a date
/// than its year, month and day numbers.
#[derive(Debug, PartialEq, Eq, Structural, Clone, Copy)]
pub struct Date {
    pub year: i32,
    pub month: u32,
    pub day: u32,
}

/// A validated run configuration: an optional single month, the year to
/// render, and today's date for highlighting.
#[derive(Debug)]
pub struct Config {
    pub month: Option<u32>,
    pub year: i32,
    pub today: Date,
}

/// Parses a decimal integer, wrapping any failure in the tool's message.
pub fn parse_int(val: &str) -> (r: Result<i64, String>)
    ensures
        (r is Ok) == (signed_shape(val@) && i64::MIN <= signed_value(val@) <= i64::MAX),
        r matches Ok(n) ==> n == signed_value(val@),
        r matches Err(m) ==> m@ == "Invalid integer \""@ + val@ + "\""@,
{
    match parse_i64_str(val) {
        Some(v) => Ok(v),
        None => {
            let mut m = String::from_str("Invalid integer \"");
            m.append(val);
            m.append("\"");
            Err(m)
        },
    }
}

/// What `parse_year` rejects an in-range integer with: the parsed value
/// itself, rendered back into the message.
pub open spec fn year_range_message(v: int) -> Seq<char> {
    "year \""@ + dec_str_signed(v) + "\" not in the range 1 through 9999"@
}

/// Parses the year argument: an integer between 1 and 9999. An integer
/// outside the year range is named in the message by its value; text that
/// does not fit the tool's integer type at all is an invalid integer.
pub fn parse_year(year: &str) -> (r: Result<i32, String>)
    ensures
        (r is Ok) == (signed_shape(year@) && 1 <= signed_value(year@) <= 9999),
        r matches Ok(n) ==> n == signed_value(year@),
        r matches Err(m) ==> m@ == {
            if signed_shape(year@) && i32::MIN <= signed_value(year@) <= i32::MAX {
                year_range_message(signed_value(year@))
            } else {
                "Invalid integer \""@ + year@ + "\""@
            }
        },
{
    match parse_int(year) {
        Ok(v) => {
            if 1 <= v && v <= 9999 {
                Ok(v as i32)
            } else if -2147483648 <= v && v <= 2147483647 {
                let mut m = String::from_str("year \"");
                let text = i64_string(v);
                m.append(text.as_str());
                m.append("\" not in the range 1 through 9999");
                Err(m)
            } else {
                let mut m = String::from_str("Invalid integer \"");
                m.append(year);
                m.append("\"");
                Err(m)
            }
        },
        Err(m) => Err(m),
    }
}

/// The lowercase name of month `m`, against which a month prefix
/// argument is matched.
pub open spec fn month_name_lower_spec(m: int) -> Seq<char> {
    if m == 1 {
        "january"@
    } else if m == 2 {
        "february"@
    } else if m == 3 {
        "march"@
    } else if m == 4 {
        "april"@
    } else if m == 5 {
        "may"@
    } else if m == 6 {
        "june"@
    } else if m == 7 {
        "july"@
    } else if m == 8 {
        "august"@
    } else if m == 9 {
        "september"@
    } else if m == 10 {
        "october"@
    } else if m == 11 {
        "november"@
    } else {
        "december"@
    }
}

fn month_name_lower(m: u32) -> (r: &'static str)
    requires
        1 <= m <= 12,
    ensures
        r@ == month_name_lower_spec(m as int),
{
    match m {
        1 => "january",
        2 => "february",
        3 => "march",
        4 => "april",
        5 => "may",
        6 => "june",
        7 => "july",
        8 => "august",
        9 => "september",
        10 => "october",
        11 => "november",
        _ => "december",
    }
}

/// The display name of month `m`.
pub open spec fn month_name_spec(m: int) -> Seq<char> {
    if m == 1 {
        "January"@
    } else if m == 2 {
        "February"@
    } else if m == 3 {
        "March"@
    } else if m == 4 {
        "April"@
    } else if m == 5 {
        "May"@
    } else if m == 6 {
        "June"@
    } else if m == 7 {
        "July"@
    } else if m == 8 {
        "August"@
    } else if m == 9 {
        "September"@
    } else if m == 10 {
        "October"@
    } else if m == 11 {
        "November"@
    } else {
        "December"@
    }
}

fn month_name(m: u32) -> (r: &'static str)
    requires
        1 <= m <= 12,
    ensures
        r@ == month_name_spec(m as int),
{
    match m {
        1 => "January",
        2 => "February",
        3 => "March",
        4 => "April",
        5 => "May",
        6 => "June",
        7 => "July",
        8 => "August",
        9 => "September",
        10 => "October",
        11 => "November",
        _ => "December",
    }
}

/// Does the lowercased input select month `m` by prefix?
pub open spec fn month_matched(lower: Seq<char>, m: int) -> bool {
    lower.is_prefix_of(month_name_lower_spec(m))
}

/// How many of the first `k` months the lowercased input selects.
pub open spec fn month_match_count(lower: Seq<char>, k: int) -> int
    decreases k,
{
    if k <= 0 {
        0
    } else {
        month_match_count(lower, k - 1) + if month_matched(lower, k) {
            1int
        } else {
            0int
        }
    }
}

/// The first of the first `k` months the lowercased input selects, or 0.
pub open spec fn first_month_match(lower: Seq<char>, k: int) -> int
    decreases k,
{
    if k <= 0 {
        0
    } else if first_month_match(lower, k - 1) != 0 {
        first_month_match(lower, k - 1)
    } else if month_matched(lower, k) {
        k
    } else {
        0
    }
}

/// What the month argument parses to: a number is accepted between 1 and
/// 12 and rejected otherwise by value; anything else is lowercased and
/// matched as a prefix of a month name, which must be unambiguous.
pub open spec fn spec_parse_month(s: Seq<char>) -> Result<int, Seq<char>> {
    if unsigned_shape(s) && dec_value(unsigned_digits(s)) <= u32::MAX {
        let v = dec_value(unsigned_digits(s));
        if 1 <= v <= 12 {
            Ok(v)
        } else {
            Err("month \""@ + s + "\" not in the range 1 through 12"@)
        }
    } else {
        let lower = lower_of(s);
        if month_match_count(lower, 12) == 1 {
            Ok(first_month_match(lower, 12))
        } else {
            Err("Invalid month \""@ + s + "\""@)
        }
    }
}

/// Parses the month argument, by number or by unambiguous name prefix.
pub fn parse_month(month: &str) -> (r: Result<u32, String>)
    ensures
        (r is Ok) == (spec_parse_month(month@) is Ok),
        r matches Ok(n) ==> Ok::<int, Seq<char>>(n as int) == spec_parse_month(month@),
        r matches Err(m) ==> Err::<int, Seq<char>>(m@) == spec_parse_month(month@),
{
    let numeric = match crate::strnum::parse_u64_str(month) {
        Some(v) => {
            if v <= u32::MAX as u64 {
                Some(v as u32)
            } else {
                None
            }
        },
        None => {
            proof {
                if unsigned_shape(month@) {
                    crate::strnum::lemma_dec_value_nonneg(unsigned_digits(month@));
                }
            }
            None
        },
    };
    match numeric {
        Some(n) => {
            if 1 <= n && n <= 12 {
                Ok(n)
            } else {
                let mut m = String::from_str("month \"");
                m.append(month);
                m.append("\" not in the range 1 through 12");
                Err(m)
            }
        },
        None => {
            let lower = lowercase(month);
            let mut count: u32 = 0;
            let mut first: u32 = 0;
            let mut k: u32 = 1;
            while k <= 12
                invariant
                    1 <= k <= 13,
                    lower@ == lower_of(month@),
                    count == month_match_count(lower@, k - 1),
                    count <= k - 1,
                    first == first_month_match(lower@, k - 1),
                    0 <= first <= 12,
                decreases 13 - k,
            {
                if str_is_prefix(lower.as_str(), month_name_lower(k)) {
                    count = count + 1;
                    if first == 0 {
                        first = k;
                    }
                }
                k = k + 1;
            }
            if count == 1 {
                proof {
                    lemma_first_match_nonzero(lower@, 12);
                }
                Ok(first)
            } else {
                let mut m = String::from_str("Invalid month \"");
                m.append(month);
                m.append("\"");
                Err(m)
            }
        },
    }
}

proof fn lemma_first_match_nonzero(lower: Seq<char>, k: int)
    ensures
        month_match_count(lower, k) >= 0,
        month_match_count(lower, k) == 0 ==> first_month_match(lower, k) == 0,
        month_match_count(lower, k) >= 1 ==> 1 <= first_month_match(lower, k) <= k,
    decreases k,
{
    if k > 0 {
        lemma_first_match_nonzero(lower, k - 1);
    }
}

/// The Gregorian leap-year rule.
pub open spec fn spec_is_leap(year: int) -> bool {
    year % 4 == 0 && (year % 100 != 0 || year % 400 == 0)
}

/// Is `year` a leap year?
pub fn is_leap_year(year: i32) -> (r: bool)
    requires
        year >= 0,
    ensures
        r == spec_is_leap(year as int),
{
    year % 4 == 0 && (year % 100 != 0 || year % 400 == 0)
}

/// The number of days in a month of a year.
pub open spec fn spec_last_day(year: int, month: int) -> int {
    if month == 2 {
        if spec_is_leap(year) {
            29
        } else {
            28
        }
    } else if month == 4 || month == 6 || month == 9 || month == 11 {
        30
    } else {
        31
    }
}

/// The date of the last day of a month.
pub fn last_day_in_month(year: i32, month: u32) -> (r: Date)
    requires
        1 <= year <= 9999,
        1 <= month <= 12,
    ensures
        r == (Date { year, month, day: spec_last_day(year as int, month as int) as u32 }),
{
    match month {
        1 | 3 | 5 | 7 | 8 | 10 | 12 => Date { year, month, day: 31 },
        4 | 6 | 9 | 11 => Date { year, month, day: 30 },
        2 => {
            if is_leap_year(year) {
                Date { year, month, day: 29 }
            } else {
                Date { year, month, day: 28 }
            }
        },
        _ => vstd::pervasive::unreached(),
    }
}

// ------------------------------------------------------------------
// Rendering one month
// ------------------------------------------------------------------

/// The weekday of the first day of a month, numbered from Sunday = 1 to
/// Saturday = 7: a function of year and month alone.
pub uninterp spec fn weekday_from_sunday(year: int, month: int) -> int;

/// Relies on chrono's `NaiveDate::from_ymd_opt` (the first of a valid
/// month exists), `Datelike::weekday` and `Weekday::number_from_sunday`
/// (numbered 1 for Sunday through 7 for Saturday).
#[verifier::external_body]
fn first_weekday_from_sunday(year: i32, month: u32) -> (r: u32)
    requires
        1 <= year <= 9999,
        1 <= month <= 12,
    ensures
        r == weekday_from_sunday(year as int, month as int),
        1 <= r <= 7,
{
    chrono::NaiveDate::from_ymd_opt(year, month, 1).unwrap().weekday().number_from_sunday()
}

/// What ansi_term's reverse-video styling turns a piece of text into: a
/// function of the text alone.
pub uninterp spec fn styled_reverse(s: Seq<char>) -> Seq<char>;

/// Relies on `ansi_term::Style::reverse` and `Style::paint`: the painted
/// text depends on the input text alone.
#[verifier::external_body]
fn highlight(s: &str) -> (r: String)
    ensures
        r@ == styled_reverse(s@),
{
    ansi_term::Style::new().reverse().paint(s).to_string()
}

/// One day cell: the day number right-aligned in two columns, with
/// today's own date in reverse video.
pub open spec fn day_cell(year: int, month: int, day: int, today: Date) -> Seq<char> {
    let text = pad_left_spec(dec_str(day), 2);
    if today.year == year && today.month == month && today.day == day {
        styled_reverse(text)
    } else {
        text
    }
}

/// The grid cells of a month: blank cells up to the first weekday, then
/// one cell per day.
pub open spec fn month_cells(year: int, month: int, today: Date) -> Seq<Seq<char>> {
    let lead = weekday_from_sunday(year, month) - 1;
    Seq::new(
        (lead + spec_last_day(year, month)) as nat,
        |i: int|
            if i < lead {
                "  "@
            } else {
                day_cell(year, month, i - lead + 1, today)
            },
    )
}

/// One rendered week: the cells joined with single spaces, padded to the
/// 20-column grid, and a two-space gutter.
pub open spec fn week_line(cells: Seq<Seq<char>>) -> Seq<char> {
    pad_right_spec(join_spec(cells, " "@), 20) + "  "@
}

/// The title line's text: the month name, optionally with the year.
pub open spec fn month_title(year: int, month: int, print_year: bool) -> Seq<char> {
    if print_year {
        month_name_spec(month) + " "@ + dec_str(year)
    } else {
        month_name_spec(month)
    }
}

/// How many week lines a cell count occupies.
pub open spec fn week_count(ncells: int) -> int {
    (ncells + 6) / 7
}

/// A rendered month: exactly eight lines — the centered title, the
/// weekday header, one line per week of the grid, and blank lines of the
/// full width up to eight.
pub open spec fn spec_format_month(year: int, month: int, print_year: bool, today: Date) -> Seq<
    Seq<char>,
> {
    let cells = month_cells(year, month, today);
    let weeks = week_count(cells.len() as int);
    Seq::new(
        8,
        |i: int|
            if i == 0 {
                center_spec(month_title(year, month, print_year), 20)
            } else if i == 1 {
                "Su Mo Tu We Th Fr Sa  "@
            } else if i - 2 < weeks {
                let lo = 7 * (i - 2);
                let hi = if lo + 7 <= cells.len() {
                    lo + 7
                } else {
                    cells.len() as int
                };
                week_line(cells.subrange(lo, hi))
            } else {
                spaces(22)
            },
    )
}

/// Renders one month of a year as its eight fixed-width lines.
pub fn format_month(year: i32, month: u32, print_year: bool, today: Date) -> (r: Vec<String>)
    requires
        1 <= year <= 9999,
        1 <= month <= 12,
    ensures
        r@.len() == 8,
        forall|i: int|
            0 <= i < 8 ==> (#[trigger] r@[i])@ == spec_format_month(
                year as int,
                month as int,
                print_year,
                today,
            )[i],
{
    let ghost cells_spec = month_cells(year as int, month as int, today);
    let wd = first_weekday_from_sunday(year, month);
    let last = last_day_in_month(year, month).day;
    let lead = wd - 1;

    let mut cells: Vec<String> = Vec::new();
    let mut i: u32 = 0;
    while i < lead
        invariant
            0 <= i <= lead,
            lead == weekday_from_sunday(year as int, month as int) - 1,
            0 <= lead <= 6,
            cells_spec == month_cells(year as int, month as int, today),
            cells@.len() == i,
            forall|j: int| 0 <= j < i ==> (#[trigger] cells@[j])@ == cells_spec[j],
        decreases lead - i,
    {
        cells.push(String::from_str("  "));
        i = i + 1;
    }
    let mut day: u32 = 1;
    while day <= last
        invariant
            1 <= day <= last + 1,
            last == spec_last_day(year as int, month as int),
            lead == weekday_from_sunday(year as int, month as int) - 1,
            0 <= lead <= 6,
            cells_spec == month_cells(year as int, month as int, today),
            cells@.len() == lead + day - 1,
            forall|j: int| 0 <= j < cells@.len() ==> (#[trigger] cells@[j])@ == cells_spec[j],
        decreases last + 1 - day,
    {
        let num = u64_string(day as u64);
        let text = crate::strnum::pad_left(num.as_str(), 2);
        let cell = if today.year == year && today.month == month && today.day == day {
            highlight(text.as_str())
        } else {
            text
        };
        cells.push(cell);
        day = day + 1;
    }
    assert(cells@.len() == cells_spec.len());

    let ghost lines_spec = spec_format_month(year as int, month as int, print_year, today);
    let mut lines: Vec<String> = Vec::new();
    let title = if print_year {
        let mut t = String::from_str(month_name(month));
        t.append(" ");
        let year_text = u64_string(year as u64);
        t.append(year_text.as_str());
        t
    } else {
        String::from_str(month_name(month))
    };
    lines.push(crate::strnum::center(title.as_str(), 20));
    lines.push(String::from_str("Su Mo Tu We Th Fr Sa  "));

    let n = cells.len();
    let mut lo: usize = 0;
    while lo < n
        invariant
            0 <= lo <= n,
            n == cells@.len(),
            n == cells_spec.len(),
            n <= 37,
            lo % 7 == 0 || lo == n,
            cells_spec == month_cells(year as int, month as int, today),
            lines_spec == spec_format_month(year as int, month as int, print_year, today),
            forall|j: int| 0 <= j < n ==> (#[trigger] cells@[j])@ == cells_spec[j],
            lines@.len() == 2 + (lo + 6) / 7,
            lines@.len() <= 2 + week_count(n as int),
            forall|k: int| 0 <= k < lines@.len() ==> (#[trigger] lines@[k])@ == lines_spec[k],
        decreases n - lo,
    {
        let hi = if lo + 7 <= n {
            lo + 7
        } else {
            n
        };
        let mut chunk: Vec<String> = Vec::new();
        let mut j = lo;
        while j < hi
            invariant
                lo <= j <= hi <= n,
                n == cells@.len(),
                n == cells_spec.len(),
                forall|t: int| 0 <= t < n ==> (#[trigger] cells@[t])@ == cells_spec[t],
                chunk@.len() == j - lo,
                forall|t: int|
                    0 <= t < chunk@.len() ==> (#[trigger] chunk@[t])@ == cells_spec[lo + t],
            decreases hi - j,
        {
            chunk.push(cells[j].clone());
            j = j + 1;
        }
        proof {
            assert(chunk.deep_view() =~= cells_spec.subrange(lo as int, hi as int));
        }
        let joined = crate::strnum::join_strings(&chunk, " ");
        let mut line = crate::strnum::pad_right(joined.as_str(), 20);
        line.append("  ");
        assert(line@ == week_line(cells_spec.subrange(lo as int, hi as int)));
        lines.push(line);
        proof {
            let nn = n as int;
            let ll = lo as int;
            assert(ll % 7 == 0);
            assert((ll + 6) / 7 == ll / 7);
            assert(7 * (ll / 7) == ll);
            assert(nn + 6 >= ll + 7);
            assert((nn + 6) / 7 >= (ll + 7) / 7);
            assert((ll + 7) / 7 == ll / 7 + 1);
            let k = lines@.len() - 1;
            assert(k == 2 + ll / 7);
            assert(2 <= k < 8);
            assert(k - 2 < week_count(nn));
            assert(7 * (k - 2) == ll);
            assert(lines@[k]@ == lines_spec[k]);
        }
        lo = hi;
    }

    while lines.len() < 8
        invariant
            2 <= lines@.len() <= 8,
            cells_spec == month_cells(year as int, month as int, today),
            lines_spec == spec_format_month(year as int, month as int, print_year, today),
            lines@.len() >= 2 + week_count(cells_spec.len() as int),
            forall|k: int| 0 <= k < lines@.len() ==> (#[trigger] lines@[k])@ == lines_spec[k],
        decreases 8 - lines@.len(),
    {
        lines.push(crate::strnum::space_string(22));
    }
    lines
}

} // verus!
