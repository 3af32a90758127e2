//! File-finder predicates: the entry-type argument, the size filter
//! grammar (`+5k`, `-2M`, `100c`), and the size comparison itself. The
//! size filter is matched leftmost inside its argument: an optional sign,
//! a digit run, and an optional unit letter.

use core::cmp::Ordering;
use vstd::prelude::*;
use vstd::string::*;

use crate::strnum::{all_digits, dec_value, is_digit, str_eq, unsigned_digits, unsigned_shape};

verus! {

/// The kinds of directory entry the finder can select.
#[derive(Copy, Clone, PartialEq, Eq, PartialOrd, Ord, Debug, Structural)]
pub enum EntryType {
    Dir,
    File,
    Link,
}

/// The units a size filter can be written in.
#[derive(Debug, Clone, Copy, PartialEq, Eq, Structural)]
pub enum SizeUnit {
    Bytes,
    Kilobytes,
    Megabytes,
    Gigabytes,
    Terabytes,
    Petabytes,
}

/// A size filter: how to compare, the written number, and its unit.
#[derive(Clone, Copy, Debug)]
pub struct SizeFilter {
    pub ordering: Ordering,
    pub size: usize,
    pub unit: SizeUnit,
}

/// How many bytes one of a unit is.
pub open spec fn unit_multiplier(u: SizeUnit) -> int {
    match u {
        SizeUnit::Bytes => 1int,
        SizeUnit::Kilobytes => 1024int,
        SizeUnit::Megabytes => 1024int * 1024,
        SizeUnit::Gigabytes => 1024int * 1024 * 1024,
        SizeUnit::Terabytes => 1024int * 1024 * 1024 * 1024,
        SizeUnit::Petabytes => 1024int * 1024 * 1024 * 1024 * 1024,
    }
}

impl SizeFilter {
    /// The filter's size in bytes; the written number scaled by its unit.
    pub fn get_size_in_bytes(&self) -> (r: usize)
        requires
            self.size * unit_multiplier(self.unit) <= usize::MAX,
        ensures
            r == self.size * unit_multiplier(self.unit),
    {
        match self.unit {
            SizeUnit::Bytes => self.size,
            SizeUnit::Kilobytes => self.size * 1024,
            SizeUnit::Megabytes => {
                proof {
                    let s = self.size as int;
                    assert(s * 1024 <= s * (1024 * 1024) && s * 1024 * 1024 == s * (1024 * 1024))
                        by (nonlinear_arith)
                        requires
                            s >= 0,
                    ;
                }
                self.size * 1024 * 1024
            },
            SizeUnit::Gigabytes => {
                proof {
                    let s = self.size as int;
                    assert(s * 1024 <= s * (1024 * 1024 * 1024) && s * 1024 * 1024 <= s * (1024
                        * 1024 * 1024) && s * 1024 * 1024 * 1024 == s * (1024 * 1024 * 1024))
                        by (nonlinear_arith)
                        requires
                            s >= 0,
                    ;
                }
                self.size * 1024 * 1024 * 1024
            },
            SizeUnit::Terabytes => {
                proof {
                    let s = self.size as int;
                    assert(s * 1024 <= s * (1024 * 1024 * 1024 * 1024) && s * 1024 * 1024 <= s * (
                    1024 * 1024 * 1024 * 1024) && s * 1024 * 1024 * 1024 <= s * (1024 * 1024 * 1024
                        * 1024) && s * 1024 * 1024 * 1024 * 1024 == s * (1024 * 1024 * 1024 * 1024))
                        by (nonlinear_arith)
                        requires
                            s >= 0,
                    ;
                }
                self.size * 1024 * 1024 * 1024 * 1024
            },
            SizeUnit::Petabytes => {
                proof {
                    let s = self.size as int;
                    assert(s * 1024 <= s * (1024 * 1024 * 1024 * 1024 * 1024) && s * 1024 * 1024
                        <= s * (1024 * 1024 * 1024 * 1024 * 1024) && s * 1024 * 1024 * 1024 <= s * (
                    1024 * 1024 * 1024 * 1024 * 1024) && s * 1024 * 1024 * 1024 * 1024 <= s * (1024
                        * 1024 * 1024 * 1024 * 1024) && s * 1024 * 1024 * 1024 * 1024 * 1024 == s
                        * (1024 * 1024 * 1024 * 1024 * 1024)) by (nonlinear_arith)
                        requires
                            s >= 0,
                    ;
                }
                self.size * 1024 * 1024 * 1024 * 1024 * 1024
            },
        }
    }
}

/// Does a file of `file_size` bytes pass a filter of `filter_size` bytes
/// under the given comparison?
pub fn size_matches(ordering: Ordering, file_size: usize, filter_size: usize) -> (r: bool)
    ensures
        r == match ordering {
            Ordering::Equal => file_size == filter_size,
            Ordering::Less => file_size < filter_size,
            Ordering::Greater => file_size > filter_size,
        },
{
    match ordering {
        Ordering::Equal => file_size == filter_size,
        Ordering::Less => file_size < filter_size,
        Ordering::Greater => file_size > filter_size,
    }
}

/// Parses the entry-type letter.
pub fn parse_entry_type(s: &str) -> (r: Result<EntryType, String>)
    ensures
        (r is Ok) == (s@ == "f"@ || s@ == "d"@ || s@ == "l"@),
        s@ == "f"@ ==> r == Ok::<EntryType, String>(EntryType::File),
        s@ == "d"@ ==> r == Ok::<EntryType, String>(EntryType::Dir),
        s@ == "l"@ ==> r == Ok::<EntryType, String>(EntryType::Link),
        r matches Err(m) ==> m@ == "[possible values: d, f, l]"@,
{
    proof {
        reveal_strlit("f");
        reveal_strlit("d");
        reveal_strlit("l");
        assert("f"@.len() == 1 && "d"@.len() == 1 && "l"@.len() == 1);
        assert("f"@[0] == 'f' && "d"@[0] == 'd' && "l"@[0] == 'l');
    }
    if str_eq(s, "f") {
        Ok(EntryType::File)
    } else if str_eq(s, "d") {
        Ok(EntryType::Dir)
    } else if str_eq(s, "l") {
        Ok(EntryType::Link)
    } else {
        Err(String::from_str("[possible values: d, f, l]"))
    }
}

/// Parses the sign of a size filter into its comparison.
pub fn parse_ordering(input: &str) -> (r: Result<Ordering, String>)
    ensures
        (r is Ok) == (input@ == "+"@ || input@ == "-"@ || input@ == ""@),
        input@ == "+"@ ==> r == Ok::<Ordering, String>(Ordering::Greater),
        input@ == "-"@ ==> r == Ok::<Ordering, String>(Ordering::Less),
        input@ == ""@ ==> r == Ok::<Ordering, String>(Ordering::Equal),
        r matches Err(m) ==> m@ == "illegal ordering option"@,
{
    proof {
        reveal_strlit("+");
        reveal_strlit("-");
        reveal_strlit("");
        assert("+"@.len() == 1 && "-"@.len() == 1 && ""@.len() == 0);
        assert("+"@[0] == '+' && "-"@[0] == '-');
    }
    if str_eq(input, "+") {
        Ok(Ordering::Greater)
    } else if str_eq(input, "-") {
        Ok(Ordering::Less)
    } else if str_eq(input, "") {
        Ok(Ordering::Equal)
    } else {
        Err(String::from_str("illegal ordering option"))
    }
}

/// Parses the unit letter of a size filter. Of the letters the filter
/// grammar admits, `T` has no unit here and is refused.
pub fn parse_unit(input: &str) -> (r: Result<SizeUnit, String>)
    ensures
        (r is Ok) == (input@ == "c"@ || input@ == ""@ || input@ == "k"@ || input@ == "M"@
            || input@ == "G"@ || input@ == "P"@),
        (input@ == "c"@ || input@ == ""@) ==> r == Ok::<SizeUnit, String>(SizeUnit::Bytes),
        input@ == "k"@ ==> r == Ok::<SizeUnit, String>(SizeUnit::Kilobytes),
        input@ == "M"@ ==> r == Ok::<SizeUnit, String>(SizeUnit::Megabytes),
        input@ == "G"@ ==> r == Ok::<SizeUnit, String>(SizeUnit::Gigabytes),
        input@ == "P"@ ==> r == Ok::<SizeUnit, String>(SizeUnit::Petabytes),
        r matches Err(m) ==> m@ == "illegal unit"@,
{
    proof {
        reveal_strlit("c");
        reveal_strlit("");
        reveal_strlit("k");
        reveal_strlit("M");
        reveal_strlit("G");
        reveal_strlit("P");
        assert("c"@.len() == 1 && "k"@.len() == 1 && "M"@.len() == 1 && "G"@.len() == 1 && "P"@.len()
            == 1 && ""@.len() == 0);
        assert("c"@[0] == 'c' && "k"@[0] == 'k' && "M"@[0] == 'M' && "G"@[0] == 'G' && "P"@[0]
            == 'P');
    }
    if str_eq(input, "c") {
        Ok(SizeUnit::Bytes)
    } else if str_eq(input, "") {
        Ok(SizeUnit::Bytes)
    } else if str_eq(input, "k") {
        Ok(SizeUnit::Kilobytes)
    } else if str_eq(input, "M") {
        Ok(SizeUnit::Megabytes)
    } else if str_eq(input, "G") {
        Ok(SizeUnit::Gigabytes)
    } else if str_eq(input, "P") {
        Ok(SizeUnit::Petabytes)
    } else {
        Err(String::from_str("illegal unit"))
    }
}

/// Parses the numeric part of a size filter.
pub fn parse_size_value(input: &str) -> (r: Result<usize, String>)
    ensures
        (r is Ok) == (unsigned_shape(input@) && dec_value(unsigned_digits(input@)) <= usize::MAX),
        r matches Ok(n) ==> n == dec_value(unsigned_digits(input@)),
        r matches Err(m) ==> m@ == "illegal size value"@,
{
    match crate::strnum::parse_usize_str(input) {
        Some(n) => Ok(n),
        None => Err(String::from_str("illegal size value")),
    }
}

// ------------------------------------------------------------------
// The size filter grammar, matched leftmost inside its argument
// ------------------------------------------------------------------

/// Can a size filter match start at offset `i`: a digit, or a sign with a
/// digit right after it?
pub open spec fn size_match_at(s: Seq<char>, i: int) -> bool {
    0 <= i < s.len() && (is_digit(s[i]) || ((s[i] == '+' || s[i] == '-') && i + 1 < s.len()
        && is_digit(s[i + 1])))
}

/// The first offset at or after `i` where a match starts, or the length.
pub open spec fn first_size_match(s: Seq<char>, i: int) -> int
    decreases s.len() - i,
{
    if !(0 <= i < s.len()) {
        s.len() as int
    } else if size_match_at(s, i) {
        i
    } else {
        first_size_match(s, i + 1)
    }
}

pub proof fn lemma_first_size_match(s: Seq<char>, i: int)
    requires
        0 <= i <= s.len(),
    ensures
        i <= first_size_match(s, i) <= s.len(),
        first_size_match(s, i) < s.len() ==> size_match_at(s, first_size_match(s, i)),
        forall|j: int| i <= j < first_size_match(s, i) ==> !size_match_at(s, j),
    decreases s.len() - i,
{
    if i < s.len() && !size_match_at(s, i) {
        lemma_first_size_match(s, i + 1);
    }
}

/// The end of the digit run that starts at `j`.
pub open spec fn digit_run_end(s: Seq<char>, j: int) -> int
    decreases s.len() - j,
{
    if 0 <= j < s.len() && is_digit(s[j]) {
        digit_run_end(s, j + 1)
    } else {
        j
    }
}

pub proof fn lemma_digit_run_end(s: Seq<char>, j: int)
    requires
        0 <= j <= s.len(),
    ensures
        j <= digit_run_end(s, j) <= s.len(),
        j < s.len() && is_digit(s[j]) ==> digit_run_end(s, j) > j,
        digit_run_end(s, j) < s.len() ==> !is_digit(s[digit_run_end(s, j)]),
        forall|t: int| j <= t < digit_run_end(s, j) ==> is_digit(s[t]),
    decreases s.len() - j,
{
    if j < s.len() && is_digit(s[j]) {
        lemma_digit_run_end(s, j + 1);
        assert forall|t: int| j <= t < digit_run_end(s, j) implies is_digit(s[t]) by {
            if t > j {
                assert(is_digit(s[t]));
            }
        }
    }
}

/// Where the sign (if any) ends and the digits start.
pub open spec fn size_digits_start(s: Seq<char>) -> int {
    let m = first_size_match(s, 0);
    if m < s.len() && (s[m] == '+' || s[m] == '-') {
        m + 1
    } else {
        m
    }
}

/// The sign text of the leftmost match: one character or empty.
pub open spec fn size_sign_text(s: Seq<char>) -> Seq<char> {
    s.subrange(first_size_match(s, 0), size_digits_start(s))
}

/// The digit run of the leftmost match.
pub open spec fn size_digits_text(s: Seq<char>) -> Seq<char> {
    s.subrange(size_digits_start(s), digit_run_end(s, size_digits_start(s)))
}

pub open spec fn is_size_unit_char(c: char) -> bool {
    c == 'c' || c == 'k' || c == 'M' || c == 'G' || c == 'T' || c == 'P'
}

/// The unit text right after the digit run: one letter or empty.
pub open spec fn size_unit_text(s: Seq<char>) -> Seq<char> {
    let e = digit_run_end(s, size_digits_start(s));
    if e < s.len() && is_size_unit_char(s[e]) {
        s.subrange(e, e + 1)
    } else {
        s.subrange(e, e)
    }
}

/// The whole argument has a match somewhere.
pub open spec fn size_filter_matches(s: Seq<char>) -> bool {
    first_size_match(s, 0) < s.len()
}

/// Parses a size filter argument: the leftmost match of an optional
/// sign, a digit run, and an optional unit letter. A number beyond the
/// machine's range or the unsupported `T` unit is outside this parser's
/// domain (the tool stops on them).
pub fn parse_size(input: &str) -> (r: Result<SizeFilter, String>)
    requires
        size_filter_matches(input@),
        dec_value(size_digits_text(input@)) <= usize::MAX,
        size_unit_text(input@) != seq!['T'],
    ensures
        r matches Ok(f) && {
            let s = input@;
            &&& f.ordering == (if size_sign_text(s) == seq!['+'] {
                Ordering::Greater
            } else if size_sign_text(s) == seq!['-'] {
                Ordering::Less
            } else {
                Ordering::Equal
            })
            &&& f.size == dec_value(size_digits_text(s))
            &&& f.unit == (if size_unit_text(s) == seq!['k'] {
                SizeUnit::Kilobytes
            } else if size_unit_text(s) == seq!['M'] {
                SizeUnit::Megabytes
            } else if size_unit_text(s) == seq!['G'] {
                SizeUnit::Gigabytes
            } else if size_unit_text(s) == seq!['P'] {
                SizeUnit::Petabytes
            } else {
                SizeUnit::Bytes
            })
        },
{
    let n = input.unicode_len();
    let mut i: usize = 0;
    while i < n && !size_match_at_exec(input, i)
        invariant
            0 <= i <= n,
            n == input@.len(),
            forall|j: int| 0 <= j < i ==> !size_match_at(input@, j),
        decreases n - i,
    {
        i = i + 1;
    }
    proof {
        lemma_first_size_match(input@, 0);
        assert(first_size_match(input@, 0) == i as int);
    }
    let m = i;
    let c = input.get_char(m);
    let d0: usize = if c == '+' || c == '-' {
        m + 1
    } else {
        m
    };
    let mut j: usize = d0;
    while j < n && is_digit_exec(input, j)
        invariant
            d0 <= j <= n,
            n == input@.len(),
            forall|t: int| d0 <= t < j ==> is_digit(input@[t]),
        decreases n - j,
    {
        j = j + 1;
    }
    proof {
        lemma_digit_run_end(input@, d0 as int);
        assert(digit_run_end(input@, d0 as int) == j as int);
    }
    let unit_end: usize = if j < n && is_size_unit_exec(input, j) {
        j + 1
    } else {
        j
    };
    let sign_text = input.substring_char(m, d0);
    let digits_text = input.substring_char(d0, j);
    let unit_text = input.substring_char(j, unit_end);
    proof {
        assert(sign_text@ == size_sign_text(input@));
        assert(digits_text@ == size_digits_text(input@));
        assert(unit_text@ == size_unit_text(input@));
        assert(all_digits(digits_text@));
        assert(unsigned_digits(digits_text@) == digits_text@);
        assert(is_digit(input@[d0 as int]));
        assert(digits_text@.len() > 0);
        crate::strnum::lemma_dec_value_nonneg(digits_text@);
        size_value_ties(input@, sign_text@, digits_text@, unit_text@);
        unit_text_is_known(input@);
        reveal_strlit("+");
        reveal_strlit("-");
        reveal_strlit("");
        reveal_strlit("c");
        reveal_strlit("k");
        reveal_strlit("M");
        reveal_strlit("G");
        reveal_strlit("P");
        assert("+"@.len() == 1 && "+"@[0] == '+');
        assert("-"@.len() == 1 && "-"@[0] == '-');
        assert(""@.len() == 0);
        assert("c"@.len() == 1 && "c"@[0] == 'c');
        assert("k"@.len() == 1 && "k"@[0] == 'k');
        assert("M"@.len() == 1 && "M"@[0] == 'M');
        assert("G"@.len() == 1 && "G"@[0] == 'G');
        assert("P"@.len() == 1 && "P"@[0] == 'P');
        assert("+"@ =~= seq!['+']);
        assert("-"@ =~= seq!['-']);
        assert(""@ =~= Seq::<char>::empty());
        assert("c"@ =~= seq!['c']);
        assert("k"@ =~= seq!['k']);
        assert("M"@ =~= seq!['M']);
        assert("G"@ =~= seq!['G']);
        assert("P"@ =~= seq!['P']);
        if sign_text@.len() == 1 {
            if sign_text@[0] == '+' {
                assert(sign_text@ =~= "+"@);
            } else {
                assert(sign_text@ =~= "-"@);
            }
        } else {
            assert(sign_text@ =~= ""@);
        }
        if unit_text@.len() == 1 {
            if unit_text@[0] == 'c' {
                assert(unit_text@ =~= "c"@);
            } else if unit_text@[0] == 'k' {
                assert(unit_text@ =~= "k"@);
            } else if unit_text@[0] == 'M' {
                assert(unit_text@ =~= "M"@);
            } else if unit_text@[0] == 'G' {
                assert(unit_text@ =~= "G"@);
            } else if unit_text@[0] == 'P' {
                assert(unit_text@ =~= "P"@);
            } else {
                assert(unit_text@ =~= seq!['T']);
            }
        } else {
            assert(unit_text@ =~= ""@);
        }
    }
    let ordering = match parse_ordering(sign_text) {
        Ok(o) => o,
        Err(_) => vstd::pervasive::unreached(),
    };
    let size = match parse_size_value(digits_text) {
        Ok(v) => v,
        Err(_) => vstd::pervasive::unreached(),
    };
    let unit = match parse_unit(unit_text) {
        Ok(u) => u,
        Err(_) => vstd::pervasive::unreached(),
    };
    Ok(SizeFilter { ordering, size, unit })
}

fn size_match_at_exec(s: &str, i: usize) -> (r: bool)
    requires
        i < s@.len(),
    ensures
        r == size_match_at(s@, i as int),
{
    let n = s.unicode_len();
    let c = s.get_char(i);
    let u = c as u32;
    if 48 <= u && u <= 57 {
        true
    } else if (c == '+' || c == '-') && i + 1 < n {
        let d = s.get_char(i + 1) as u32;
        48 <= d && d <= 57
    } else {
        false
    }
}

fn is_digit_exec(s: &str, i: usize) -> (r: bool)
    requires
        i < s@.len(),
    ensures
        r == is_digit(s@[i as int]),
{
    let u = s.get_char(i) as u32;
    48 <= u && u <= 57
}

fn is_size_unit_exec(s: &str, i: usize) -> (r: bool)
    requires
        i < s@.len(),
    ensures
        r == is_size_unit_char(s@[i as int]),
{
    let c = s.get_char(i);
    c == 'c' || c == 'k' || c == 'M' || c == 'G' || c == 'T' || c == 'P'
}

proof fn unit_text_is_known(s: Seq<char>)
    requires
        size_filter_matches(s),
    ensures
        size_unit_text(s) == Seq::<char>::empty() || (size_unit_text(s).len() == 1
            && is_size_unit_char(size_unit_text(s)[0])),
{
    let e = digit_run_end(s, size_digits_start(s));
    lemma_first_size_match(s, 0);
    lemma_digit_run_end(s, size_digits_start(s));
    if e < s.len() && is_size_unit_char(s[e]) {
    } else {
        assert(s.subrange(e, e) =~= Seq::<char>::empty());
    }
}

proof fn size_value_ties(s: Seq<char>, sign: Seq<char>, digits: Seq<char>, unit: Seq<char>)
    requires
        size_filter_matches(s),
        sign == size_sign_text(s),
        digits == size_digits_text(s),
        unit == size_unit_text(s),
    ensures
        sign.len() <= 1,
        sign.len() == 1 ==> (sign[0] == '+' || sign[0] == '-'),
        unsigned_digits(digits) == digits,
{
    lemma_first_size_match(s, 0);
    lemma_digit_run_end(s, size_digits_start(s));
    let m = first_size_match(s, 0);
    if m < s.len() && (s[m] == '+' || s[m] == '-') {
        assert(sign =~= seq![s[m]]);
    } else {
        assert(sign =~= Seq::<char>::empty());
    }
    if digits.len() > 0 && digits[0] == '+' {
        assert(is_digit(s[size_digits_start(s)]));
        assert(false);
    }
}

} // verus!
