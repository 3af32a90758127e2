//! Tail-style windowing: parsing of the `+N` / `N` / `-N` count argument
//! and the computation of the starting offset within a known total. A bare
//! number counts from the end (it is negated on parse); `+N` counts from
//! the start; `+0` asks for the last unit only.

use vstd::prelude::*;
use vstd::string::*;

use crate::strnum::{parse_i64_str, signed_shape, signed_value, str_eq};

verus! {

/// A lines or bytes count argument, already oriented: positive values
/// count from the start of the input, negative ones from its end.
#[derive(Debug, PartialEq, Eq, Structural, Clone, Copy)]
pub enum TakeValue {
    /// The argument `+0`: start at the very last unit.
    PlusZero,
    /// Any other count, sign already applied.
    TakeNum(i64),
}

/// A count argument that is not `+0` and not an integer in range.
#[derive(Debug, PartialEq, Eq, Structural)]
pub struct ParseTakeValueError;

/// Two's-complement negation of an `i64` value.
pub open spec fn wrapped_neg(v: int) -> int {
    if v == i64::MIN {
        v
    } else {
        -v
    }
}

/// What a count argument parses to: `+0` is the end marker; an explicit
/// `+` keeps the sign; a bare or `-`-signed number is negated, so `10`
/// means "the last ten" and `-10` means the same.
pub open spec fn spec_take_value(s: Seq<char>) -> Option<TakeValue> {
    if s == "+0"@ {
        Some(TakeValue::PlusZero)
    } else if !(signed_shape(s) && i64::MIN <= signed_value(s) <= i64::MAX) {
        None
    } else if s.len() > 0 && s[0] == '+' {
        Some(TakeValue::TakeNum(signed_value(s) as i64))
    } else {
        Some(TakeValue::TakeNum(wrapped_neg(signed_value(s)) as i64))
    }
}

impl TakeValue {
    /// Parses a count argument; only its shape can fail, never its use.
    pub fn from_str(s: &str) -> (r: Result<TakeValue, ParseTakeValueError>)
        ensures
            (r is Ok) == (spec_take_value(s@) is Some),
            r matches Ok(v) ==> Some(v) == spec_take_value(s@),
    {
        if str_eq(s, "+0") {
            return Ok(TakeValue::PlusZero);
        }
        let n = s.unicode_len();
        let explicit_plus = n > 0 && s.get_char(0) == '+';
        match parse_i64_str(s) {
            None => Err(ParseTakeValueError),
            Some(v) => {
                if explicit_plus {
                    Ok(TakeValue::TakeNum(v))
                } else if v == i64::MIN {
                    Ok(TakeValue::TakeNum(v))
                } else {
                    Ok(TakeValue::TakeNum(-v))
                }
            },
        }
    }
}

/// Parses the line-count option, wrapping the failure in its message.
pub fn parse_line(s: &str) -> (r: Result<TakeValue, String>)
    ensures
        (r is Ok) == (spec_take_value(s@) is Some),
        r matches Ok(v) ==> Some(v) == spec_take_value(s@),
        r matches Err(m) ==> m@ == "illegal line count -- "@ + s@,
{
    match TakeValue::from_str(s) {
        Ok(v) => Ok(v),
        Err(_) => {
            let mut m = String::from_str("illegal line count -- ");
            m.append(s);
            Err(m)
        },
    }
}

/// Parses the byte-count option, wrapping the failure in its message.
pub fn parse_byte(s: &str) -> (r: Result<TakeValue, String>)
    ensures
        (r is Ok) == (spec_take_value(s@) is Some),
        r matches Ok(v) ==> Some(v) == spec_take_value(s@),
        r matches Err(m) ==> m@ == "illegal byte count -- "@ + s@,
{
    match TakeValue::from_str(s) {
        Ok(v) => Ok(v),
        Err(_) => {
            let mut m = String::from_str("illegal byte count -- ");
            m.append(s);
            Err(m)
        },
    }
}

/// Where printing starts for a count argument against `total` available
/// units: `None` suppresses all output; a start at or beyond `total`
/// (as the `TakeNum(0)` case produces) prints nothing as well.
pub open spec fn spec_starting_index(tv: TakeValue, total: int) -> Option<int> {
    match tv {
        TakeValue::PlusZero => if total == 0 {
            None
        } else {
            Some(total - 1)
        },
        TakeValue::TakeNum(k) => if total == 0 || k > total {
            None
        } else if k < 0 && -(k as int) > total {
            Some(0)
        } else if k < 0 {
            Some(total + k)
        } else if k >= 1 {
            Some(k - 1)
        } else {
            Some(u64::MAX as int)
        },
    }
}

/// Computes the zero-based unit offset at which a tail run starts.
pub fn get_starting_index(take_val: &TakeValue, total: i64) -> (r: Option<u64>)
    requires
        total >= 0,
    ensures
        (r is Some) == (spec_starting_index(*take_val, total as int) is Some),
        r matches Some(u) ==> Some(u as int) == spec_starting_index(*take_val, total as int),
{
    match take_val {
        TakeValue::PlusZero => {
            if total == 0 {
                None
            } else {
                Some((total - 1) as u64)
            }
        },
        TakeValue::TakeNum(k) => {
            let k = *k;
            if total == 0 || k > total {
                None
            } else if k < 0 {
                if k + total < 0 {
                    Some(0)
                } else {
                    Some((total + k) as u64)
                }
            } else if k >= 1 {
                Some((k - 1) as u64)
            } else {
                Some(u64::MAX)
            }
        },
    }
}

/// How many `\n`-terminated chunks a buffer holds, counting a trailing
/// unterminated chunk as a line, and how many bytes.
pub open spec fn newline_count(s: Seq<u8>) -> int
    decreases s.len(),
{
    if s.len() == 0 {
        0
    } else {
        newline_count(s.drop_last()) + if s.last() == 10 {
            1int
        } else {
            0int
        }
    }
}

pub open spec fn chunk_count(s: Seq<u8>) -> int {
    newline_count(s) + if s.len() > 0 && s.last() != 10 {
        1int
    } else {
        0int
    }
}

proof fn lemma_newline_count_bound(s: Seq<u8>)
    ensures
        0 <= newline_count(s) <= s.len(),
    decreases s.len(),
{
    if s.len() > 0 {
        lemma_newline_count_bound(s.drop_last());
    }
}

/// Counts the lines and bytes of a whole input, as a read-until loop
/// over `\n` delimiters reports them.
pub fn count_lines_bytes(content: &[u8]) -> (r: (i64, i64))
    requires
        content@.len() <= i64::MAX,
    ensures
        r.0 == chunk_count(content@),
        r.1 == content@.len(),
{
    let n = content.len();
    let mut newlines: i64 = 0;
    let mut i: usize = 0;
    while i < n
        invariant
            0 <= i <= n,
            n == content@.len(),
            n <= i64::MAX,
            newlines == newline_count(content@.take(i as int)),
        decreases n - i,
    {
        proof {
            lemma_newline_count_bound(content@.take(i as int));
            assert(content@.take(i + 1).drop_last() =~= content@.take(i as int));
        }
        let b = *vstd::slice::slice_index_get(content, i);
        if b == 10 {
            newlines = newlines + 1;
        }
        i = i + 1;
    }
    assert(content@.take(n as int) =~= content@);
    proof {
        lemma_newline_count_bound(content@);
    }
    let lines: i64 = if n > 0 && *vstd::slice::slice_index_get(content, n - 1) != 10 {
        proof {
            lemma_newline_count_bound(content@.drop_last());
        }
        newlines + 1
    } else {
        newlines
    };
    (lines, n as i64)
}

} // verus!
