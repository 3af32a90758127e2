//! Head-style windowing: the positive byte-count argument, the banner
//! line above each file, and the selection of a line window from the top
//! or the bottom of a text.

use vstd::prelude::*;
use vstd::string::*;

use crate::cutr::{find_char, lemma_find_char};
use crate::strnum::{dec_value, join_spec, unsigned_digits, unsigned_shape};

verus! {

/// A run configuration: the inputs, a line count that may be negative
/// (counting from the end), and an optional byte count that wins over it.
#[derive(Debug)]
pub struct Config {
    pub files: Vec<String>,
    pub lines: isize,
    pub bytes: Option<usize>,
}

/// Parses a strictly positive count: zero is rejected for its sign, and
/// anything that does not read as a number is an illegal count.
pub fn parse_positive_int(val: &str) -> (r: Result<usize, String>)
    ensures
        (r is Ok) == (unsigned_shape(val@) && 1 <= dec_value(unsigned_digits(val@))
            <= usize::MAX),
        r matches Ok(n) ==> n == dec_value(unsigned_digits(val@)),
        r matches Err(m) ==> m@ == {
            if unsigned_shape(val@) && dec_value(unsigned_digits(val@)) == 0 {
                "value must be positive"@
            } else {
                "Illegal count -- "@ + val@
            }
        },
{
    match crate::strnum::parse_usize_str(val) {
        Some(n) => {
            if n > 0 {
                Ok(n)
            } else {
                Err(String::from_str("value must be positive"))
            }
        },
        None => {
            proof {
                if unsigned_shape(val@) {
                    crate::strnum::lemma_dec_value_nonneg(unsigned_digits(val@));
                }
            }
            let mut m = String::from_str("Illegal count -- ");
            m.append(val);
            Err(m)
        },
    }
}

/// The banner printed above each of several files.
pub fn make_file_header(filename: &String) -> (r: String)
    ensures
        r@ == "==> "@ + filename@ + " <==\n"@,
{
    let mut r = String::from_str("==> ");
    r.append(filename.as_str());
    r.append(" <==\n");
    r
}

/// The first `count` `\n`-terminated chunks of a text, terminators
/// kept; the whole text when it has fewer.
pub open spec fn spec_head_lines(s: Seq<char>, count: int) -> Seq<char>
    decreases count,
{
    if count <= 0 || s.len() == 0 {
        Seq::empty()
    } else {
        let k = find_char(s, '\n');
        if !(0 <= k < s.len()) {
            s
        } else {
            s.take(k + 1) + spec_head_lines(s.skip(k + 1), count - 1)
        }
    }
}

/// Takes the first `count` lines of a text, terminators kept.
pub fn head_lines(text: &str, count: usize) -> (r: String)
    ensures
        r@ == spec_head_lines(text@, count as int),
    decreases count,
{
    let n = text.unicode_len();
    if count == 0 || n == 0 {
        return String::new();
    }
    let mut k: usize = 0;
    while k < n && text.get_char(k) != '\n'
        invariant
            0 <= k <= n,
            n == text@.len(),
            forall|j: int| 0 <= j < k ==> text@[j] != '\n',
        decreases n - k,
    {
        k = k + 1;
    }
    proof {
        lemma_find_char(text@, '\n');
        assert(find_char(text@, '\n') == k as int);
    }
    if k == n {
        String::from_str(text)
    } else {
        let mut r = String::from_str(text.substring_char(0, k + 1));
        let rest = text.substring_char(k + 1, n);
        let tail = head_lines(rest, count - 1);
        r.append(tail.as_str());
        r
    }
}

/// A line without its terminator loses a final carriage return too.
pub open spec fn strip_cr(line: Seq<char>) -> Seq<char> {
    if line.len() > 0 && line.last() == '\r' {
        line.drop_last()
    } else {
        line
    }
}

/// The text split at `\n`, each piece without its terminator and
/// without a final `\r`; a trailing terminator opens no extra line.
pub open spec fn spec_split_lines(s: Seq<char>) -> Seq<Seq<char>>
    decreases s.len(),
{
    if s.len() == 0 {
        Seq::empty()
    } else {
        let k = find_char(s, '\n');
        if !(0 <= k < s.len()) {
            seq![strip_cr(s)]
        } else {
            seq![strip_cr(s.take(k))] + spec_split_lines(s.skip(k + 1))
        }
    }
}

/// Splits a text into its lines.
pub fn split_lines(text: &str) -> (r: Vec<String>)
    ensures
        r.deep_view() == spec_split_lines(text@),
    decreases text@.len(),
{
    let n = text.unicode_len();
    if n == 0 {
        let r: Vec<String> = Vec::new();
        assert(r.deep_view() =~= spec_split_lines(text@));
        return r;
    }
    let mut k: usize = 0;
    while k < n && text.get_char(k) != '\n'
        invariant
            0 <= k <= n,
            n == text@.len(),
            forall|j: int| 0 <= j < k ==> text@[j] != '\n',
        decreases n - k,
    {
        k = k + 1;
    }
    proof {
        lemma_find_char(text@, '\n');
        assert(find_char(text@, '\n') == k as int);
    }
    if k == n {
        let head = text.substring_char(0, n);
        let line = if n > 0 && text.get_char(n - 1) == '\r' {
            text.substring_char(0, n - 1)
        } else {
            head
        };
        let mut r: Vec<String> = Vec::new();
        r.push(String::from_str(line));
        proof {
            assert(line@ =~= strip_cr(text@));
            assert(r.deep_view() =~~= spec_split_lines(text@));
        }
        r
    } else {
        let line = if k > 0 && text.get_char(k - 1) == '\r' {
            text.substring_char(0, k - 1)
        } else {
            text.substring_char(0, k)
        };
        let rest = text.substring_char(k + 1, n);
        let mut r: Vec<String> = Vec::new();
        r.push(String::from_str(line));
        let mut tail = split_lines(rest);
        r.append(&mut tail);
        proof {
            assert(line@ =~= strip_cr(text@.take(k as int)));
            assert(r.deep_view() =~~= spec_split_lines(text@));
        }
        r
    }
}

/// The window shown of one input: a positive count takes that many
/// lines from the top; zero or a negative count drops that many lines
/// from the bottom and re-joins the rest, with a final newline whenever
/// any line is shown.
pub fn head_of_text(text: &str, lines: isize) -> (r: String)
    ensures
        lines > 0 ==> r@ == spec_head_lines(text@, lines as int),
        lines <= 0 ==> ({
            let ls = spec_split_lines(text@);
            let keep = if ls.len() + lines > 0 {
                ls.len() + lines
            } else {
                0int
            };
            r@ == if keep > 0 {
                join_spec(ls.take(keep), "\n"@) + "\n"@
            } else {
                Seq::<char>::empty()
            }
        }),
{
    if lines > 0 {
        head_lines(text, lines as usize)
    } else {
        let mut ls = split_lines(text);
        let total = ls.len();
        let drop_n: usize = if lines == isize::MIN {
            (isize::MAX as usize) + 1
        } else {
            (-lines) as usize
        };
        let keep: usize = if total > drop_n {
            total - drop_n
        } else {
            0
        };
        if keep == 0 {
            String::new()
        } else {
            ls.truncate(keep);
            proof {
                assert(ls.deep_view() =~= spec_split_lines(text@).take(keep as int));
            }
            let mut r = crate::strnum::join_strings(&ls, "\n");
            r.append("\n");
            r
        }
    }
}

} // verus!
