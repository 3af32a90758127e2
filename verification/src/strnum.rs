//! Verified text/number conversions shared by the tools: decimal parsing
//! exactly as `str::parse` does it (optional sign, ASCII digits, overflow
//! is an error), decimal rendering, and a few string primitives (equality,
//! prefix test, padding, joining) with exact sequence-level contracts.

use vstd::prelude::*;

verus! {

/// An ASCII decimal digit.
pub open spec fn is_digit(c: char) -> bool {
    48 <= c as u32 <= 57
}

/// Numeric value of one digit character.
pub open spec fn digit_val(c: char) -> int {
    c as u32 - 48
}

pub open spec fn all_digits(s: Seq<char>) -> bool {
    forall|i: int| 0 <= i < s.len() ==> is_digit(s[i])
}

/// Value of a digit string, most significant digit first.
pub open spec fn dec_value(s: Seq<char>) -> int
    decreases s.len(),
{
    if s.len() == 0 {
        0
    } else {
        10 * dec_value(s.drop_last()) + digit_val(s.last())
    }
}

pub proof fn lemma_dec_value_nonneg(s: Seq<char>)
    requires
        all_digits(s),
    ensures
        dec_value(s) >= 0,
    decreases s.len(),
{
    if s.len() > 0 {
        assert(all_digits(s.drop_last()));
        lemma_dec_value_nonneg(s.drop_last());
    }
}

/// Appending digits never decreases the value of a digit string.
pub proof fn lemma_dec_value_prefix(s: Seq<char>, k: int)
    requires
        all_digits(s),
        0 <= k <= s.len(),
    ensures
        dec_value(s) >= dec_value(s.take(k)),
    decreases s.len() - k,
{
    if k < s.len() {
        let t = s.take(k + 1);
        assert(t.drop_last() =~= s.take(k));
        assert(all_digits(s.take(k)));
        lemma_dec_value_nonneg(s.take(k));
        lemma_dec_value_prefix(s, k + 1);
    } else {
        assert(s.take(k) =~= s);
    }
}

/// The digit part of an unsigned integer literal: `str::parse` for the
/// unsigned types accepts one optional leading `+`.
pub open spec fn unsigned_digits(s: Seq<char>) -> Seq<char> {
    if s.len() > 0 && s[0] == '+' {
        s.drop_first()
    } else {
        s
    }
}

/// The string has the shape `str::parse` accepts for an unsigned type
/// (ignoring range): an optional `+`, then one or more digits.
pub open spec fn unsigned_shape(s: Seq<char>) -> bool {
    unsigned_digits(s).len() > 0 && all_digits(unsigned_digits(s))
}

/// The digit part of a signed integer literal: an optional `+` or `-`.
pub open spec fn signed_digits(s: Seq<char>) -> Seq<char> {
    if s.len() > 0 && (s[0] == '+' || s[0] == '-') {
        s.drop_first()
    } else {
        s
    }
}

pub open spec fn signed_shape(s: Seq<char>) -> bool {
    signed_digits(s).len() > 0 && all_digits(signed_digits(s))
}

/// Mathematical value of a signed integer literal of valid shape.
pub open spec fn signed_value(s: Seq<char>) -> int {
    if s.len() > 0 && s[0] == '-' {
        -dec_value(signed_digits(s))
    } else {
        dec_value(signed_digits(s))
    }
}

/// Reads the digit run `s[start..]` as a decimal number, failing exactly
/// when a non-digit appears, the run is empty, or the value overflows.
fn parse_digits_u64(s: &str, start: usize) -> (r: Option<u64>)
    requires
        start <= s@.len(),
    ensures
        (r is Some) == ({
            let d = s@.skip(start as int);
            d.len() > 0 && all_digits(d) && dec_value(d) <= u64::MAX
        }),
        r matches Some(v) ==> v == dec_value(s@.skip(start as int)),
{
    let ghost d = s@.skip(start as int);
    let n = s.unicode_len();
    if start == n {
        return None;
    }
    let mut acc: u64 = 0;
    let mut i: usize = start;
    while i < n
        invariant
            start <= i <= n,
            n == s@.len(),
            start < n,
            d == s@.skip(start as int),
            all_digits(d.take(i - start)),
            acc == dec_value(d.take(i - start)),
        decreases n - i,
    {
        let c = s.get_char(i);
        let u = c as u32;
        if u < 48 || u > 57 {
            assert(!is_digit(d[i - start]));
            return None;
        }
        let dv: u64 = (u - 48) as u64;
        assert(d.take(i + 1 - start).drop_last() =~= d.take(i - start));
        let shifted = match acc.checked_mul(10) {
            Some(t) => t,
            None => {
                proof {
                    if all_digits(d) {
                        lemma_dec_value_nonneg(d);
                        lemma_dec_value_prefix(d, i + 1 - start);
                    }
                }
                return None;
            },
        };
        acc = match shifted.checked_add(dv) {
            Some(t) => t,
            None => {
                proof {
                    if all_digits(d) {
                        lemma_dec_value_nonneg(d);
                        lemma_dec_value_prefix(d, i + 1 - start);
                    }
                }
                return None;
            },
        };
        i = i + 1;
    }
    assert(d.take(n - start) =~= d);
    Some(acc)
}

/// Reads a whole string of digits as a decimal value; `None` when the
/// string is empty, holds a non-digit, or exceeds `u64::MAX`.
pub fn parse_digits_value(s: &str) -> (r: Option<u64>)
    ensures
        (r is Some) == (s@.len() > 0 && all_digits(s@) && dec_value(s@) <= u64::MAX),
        r matches Some(v) ==> v == dec_value(s@),
{
    assert(s@.skip(0) =~= s@);
    parse_digits_u64(s, 0)
}

/// Decimal parsing of a `u64`, exactly as `str::parse::<u64>` behaves:
/// optional `+`, at least one digit, value within range.
pub fn parse_u64_str(s: &str) -> (r: Option<u64>)
    ensures
        (r is Some) == (unsigned_shape(s@) && dec_value(unsigned_digits(s@)) <= u64::MAX),
        r matches Some(v) ==> v == dec_value(unsigned_digits(s@)),
{
    let n = s.unicode_len();
    let start: usize = if n > 0 && s.get_char(0) == '+' {
        1
    } else {
        0
    };
    assert(s@.skip(start as int) =~= unsigned_digits(s@));
    parse_digits_u64(s, start)
}

/// Decimal parsing of a `usize`, exactly as `str::parse::<usize>` behaves.
pub fn parse_usize_str(s: &str) -> (r: Option<usize>)
    ensures
        (r is Some) == (unsigned_shape(s@) && dec_value(unsigned_digits(s@)) <= usize::MAX),
        r matches Some(v) ==> v == dec_value(unsigned_digits(s@)),
{
    match parse_u64_str(s) {
        Some(v) => {
            if v <= usize::MAX as u64 {
                Some(v as usize)
            } else {
                None
            }
        },
        None => {
            proof {
                if unsigned_shape(s@) {
                    lemma_dec_value_nonneg(unsigned_digits(s@));
                }
            }
            None
        },
    }
}

/// Decimal parsing of an `i64`, exactly as `str::parse::<i64>` behaves:
/// optional `+` or `-`, at least one digit, value within range.
pub fn parse_i64_str(s: &str) -> (r: Option<i64>)
    ensures
        (r is Some) == (signed_shape(s@) && i64::MIN <= signed_value(s@) <= i64::MAX),
        r matches Some(v) ==> v == signed_value(s@),
{
    let n = s.unicode_len();
    let mut neg = false;
    let mut start: usize = 0;
    if n > 0 {
        let c = s.get_char(0);
        if c == '+' {
            start = 1;
        } else if c == '-' {
            start = 1;
            neg = true;
        }
    }
    assert(s@.skip(start as int) =~= signed_digits(s@));
    let mag = match parse_digits_u64(s, start) {
        Some(v) => v,
        None => {
            proof {
                if signed_shape(s@) {
                    lemma_dec_value_nonneg(signed_digits(s@));
                }
            }
            return None;
        },
    };
    if neg {
        if mag <= 9223372036854775807u64 {
            Some(-(mag as i64))
        } else if mag == 9223372036854775808u64 {
            Some(i64::MIN)
        } else {
            None
        }
    } else {
        if mag <= 9223372036854775807u64 {
            Some(mag as i64)
        } else {
            None
        }
    }
}

/// The digit character for a value below ten.
pub open spec fn digit_char(d: int) -> char {
    ((48 + d) as u8) as char
}

/// Decimal rendering of a non-negative number, no sign, no leading zeros.
pub open spec fn dec_str(n: int) -> Seq<char>
    decreases n,
{
    if n < 0 {
        Seq::empty()
    } else if n < 10 {
        seq![digit_char(n)]
    } else {
        dec_str(n / 10).push(digit_char(n % 10))
    }
}

/// Decimal rendering of a signed number, `-` before the magnitude.
pub open spec fn dec_str_signed(n: int) -> Seq<char> {
    if n < 0 {
        seq!['-'] + dec_str(-n)
    } else {
        dec_str(n)
    }
}

fn digit_str(d: u64) -> (r: &'static str)
    requires
        d < 10,
    ensures
        r@ =~= seq![digit_char(d as int)],
{
    proof {
        reveal_strlit("0");
        reveal_strlit("1");
        reveal_strlit("2");
        reveal_strlit("3");
        reveal_strlit("4");
        reveal_strlit("5");
        reveal_strlit("6");
        reveal_strlit("7");
        reveal_strlit("8");
        reveal_strlit("9");
    }
    match d {
        0 => "0",
        1 => "1",
        2 => "2",
        3 => "3",
        4 => "4",
        5 => "5",
        6 => "6",
        7 => "7",
        8 => "8",
        _ => "9",
    }
}

/// Renders a number in decimal, matching what `format!("{}", n)` prints.
pub fn u64_string(n: u64) -> (r: String)
    ensures
        r@ == dec_str(n as int),
    decreases n,
{
    if n < 10 {
        String::from_str(digit_str(n))
    } else {
        let mut s = u64_string(n / 10);
        s.append(digit_str(n % 10));
        proof {
            assert(s@ =~= dec_str(n as int));
        }
        s
    }
}

/// Renders a signed number in decimal, matching `format!("{}", n)`.
pub fn i64_string(n: i64) -> (r: String)
    ensures
        r@ == dec_str_signed(n as int),
{
    if n >= 0 {
        let r = u64_string(n as u64);
        r
    } else {
        let mag: u64 = if n == i64::MIN {
            9223372036854775808u64
        } else {
            (-n) as u64
        };
        let mut s = String::from_str("-");
        s.append(u64_string(mag).as_str());
        proof {
            reveal_strlit("-");
            assert(s@ =~= dec_str_signed(n as int));
        }
        s
    }
}

/// A run of `n` spaces.
pub open spec fn spaces(n: int) -> Seq<char>
    decreases n,
{
    if n <= 0 {
        Seq::empty()
    } else {
        spaces(n - 1).push(' ')
    }
}

/// Builds a run of `n` spaces.
pub fn space_string(n: usize) -> (r: String)
    ensures
        r@ == spaces(n as int),
{
    let mut s = String::new();
    let mut i: usize = 0;
    while i < n
        invariant
            0 <= i <= n,
            s@ == spaces(i as int),
        decreases n - i,
    {
        proof {
            reveal_strlit(" ");
        }
        s.append(" ");
        assert(s@ =~= spaces(i + 1));
        i = i + 1;
    }
    s
}

/// Left-padding with spaces to `w` characters, as `{:>w$}` formats; a
/// string already that wide is unchanged.
pub open spec fn pad_left_spec(s: Seq<char>, w: int) -> Seq<char> {
    if s.len() >= w {
        s
    } else {
        spaces(w - s.len()) + s
    }
}

/// Right-padding with spaces to `w` characters, as `{:<w$}` formats.
pub open spec fn pad_right_spec(s: Seq<char>, w: int) -> Seq<char> {
    if s.len() >= w {
        s
    } else {
        s + spaces(w - s.len())
    }
}

/// Centering within `w` characters, as `{:^w$}` formats: the extra space
/// of an odd padding goes to the right.
pub open spec fn center_spec(s: Seq<char>, w: int) -> Seq<char> {
    if s.len() >= w {
        s
    } else {
        let pad = w - s.len();
        spaces(pad / 2) + s + spaces(pad - pad / 2)
    }
}

/// Pads on the left to `width` characters.
pub fn pad_left(s: &str, width: usize) -> (r: String)
    ensures
        r@ == pad_left_spec(s@, width as int),
{
    let n = s.unicode_len();
    if n >= width {
        String::from_str(s)
    } else {
        let mut r = space_string(width - n);
        r.append(s);
        r
    }
}

/// Pads on the right to `width` characters.
pub fn pad_right(s: &str, width: usize) -> (r: String)
    ensures
        r@ == pad_right_spec(s@, width as int),
{
    let n = s.unicode_len();
    let mut r = String::from_str(s);
    if n < width {
        let tail = space_string(width - n);
        r.append(tail.as_str());
    }
    r
}

/// Centers within `width` characters.
pub fn center(s: &str, width: usize) -> (r: String)
    ensures
        r@ == center_spec(s@, width as int),
{
    let n = s.unicode_len();
    if n >= width {
        String::from_str(s)
    } else {
        let pad = width - n;
        let mut r = space_string(pad / 2);
        r.append(s);
        let right = space_string(pad - pad / 2);
        r.append(right.as_str());
        r
    }
}

/// The elements of `v` glued with `sep` between neighbours.
pub open spec fn join_spec(v: Seq<Seq<char>>, sep: Seq<char>) -> Seq<char>
    decreases v.len(),
{
    if v.len() == 0 {
        Seq::empty()
    } else if v.len() == 1 {
        v[0]
    } else {
        v[0] + sep + join_spec(v.drop_first(), sep)
    }
}

pub proof fn lemma_join_push(v: Seq<Seq<char>>, sep: Seq<char>, x: Seq<char>)
    ensures
        join_spec(v.push(x), sep) == if v.len() == 0 {
            x
        } else {
            join_spec(v, sep) + sep + x
        },
    decreases v.len(),
{
    if v.len() == 0 {
        assert(v.push(x).len() == 1);
        assert(v.push(x)[0] == x);
    } else {
        assert(v.push(x).drop_first() =~= v.drop_first().push(x));
        lemma_join_push(v.drop_first(), sep, x);
        if v.len() == 1 {
            assert(join_spec(v.push(x), sep) =~= join_spec(v, sep) + sep + x);
        } else {
            assert(join_spec(v.push(x), sep) =~= join_spec(v, sep) + sep + x);
        }
    }
}

/// Joins strings with a separator, as `slice::join` does.
pub fn join_strings(v: &Vec<String>, sep: &str) -> (r: String)
    ensures
        r@ == join_spec(v.deep_view(), sep@),
{
    let mut r = String::new();
    let mut i: usize = 0;
    while i < v.len()
        invariant
            0 <= i <= v@.len(),
            r@ == join_spec(v.deep_view().take(i as int), sep@),
        decreases v@.len() - i,
    {
        if i > 0 {
            r.append(sep);
        }
        r.append(v[i].as_str());
        proof {
            assert(v.deep_view().take(i + 1) =~= v.deep_view().take(i as int).push(
                v.deep_view()[i as int],
            ));
            lemma_join_push(v.deep_view().take(i as int), sep@, v.deep_view()[i as int]);
            assert(v.deep_view()[i as int] == v@[i as int]@);
        }
        i = i + 1;
    }
    assert(v.deep_view().take(v@.len() as int) =~= v.deep_view());
    r
}

/// Is every character an ASCII digit? (True of the empty string.)
pub fn all_digits_str(s: &str) -> (r: bool)
    ensures
        r == all_digits(s@),
{
    let n = s.unicode_len();
    let mut i: usize = 0;
    while i < n
        invariant
            0 <= i <= n,
            n == s@.len(),
            forall|j: int| 0 <= j < i ==> is_digit(s@[j]),
        decreases n - i,
    {
        let u = s.get_char(i) as u32;
        if u < 48 || u > 57 {
            return false;
        }
        i = i + 1;
    }
    true
}

/// What `str::to_lowercase` maps a character sequence to: Unicode
/// lowercasing, a function of the characters alone.
pub uninterp spec fn lower_of(s: Seq<char>) -> Seq<char>;

/// Relies on `str::to_lowercase`: the result depends on the characters
/// alone, and an empty string stays empty.
#[verifier::external_body]
pub(crate) fn lowercase(s: &str) -> (r: String)
    ensures
        r@ == lower_of(s@),
        s@.len() == 0 ==> r@.len() == 0,
{
    s.to_lowercase()
}

/// String equality over the character sequences.
pub fn str_eq(a: &str, b: &str) -> (r: bool)
    ensures
        r == (a@ == b@),
{
    let na = a.unicode_len();
    let nb = b.unicode_len();
    if na != nb {
        return false;
    }
    let mut i: usize = 0;
    while i < na
        invariant
            0 <= i <= na,
            na == a@.len(),
            na == b@.len(),
            forall|j: int| 0 <= j < i ==> a@[j] == b@[j],
        decreases na - i,
    {
        if a.get_char(i) != b.get_char(i) {
            return false;
        }
        i = i + 1;
    }
    proof {
        assert(a@ =~= b@);
    }
    true
}

/// Does `s` start with `p`, comparing characters?
pub fn str_is_prefix(p: &str, s: &str) -> (r: bool)
    ensures
        r == p@.is_prefix_of(s@),
{
    let np = p.unicode_len();
    let ns = s.unicode_len();
    if np > ns {
        return false;
    }
    let mut i: usize = 0;
    while i < np
        invariant
            0 <= i <= np <= ns,
            np == p@.len(),
            ns == s@.len(),
            forall|j: int| 0 <= j < i ==> p@[j] == s@[j],
        decreases np - i,
    {
        if p.get_char(i) != s.get_char(i) {
            return false;
        }
        i = i + 1;
    }
    proof {
        assert(p@ =~= s@.take(np as int));
    }
    true
}

} // verus!
