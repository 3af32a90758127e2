//! Sorted-file comparison: the ordering of lines (optionally
//! case-insensitive), the three-column classification one merge step
//! makes, and the rendering of each column under the suppression flags.

use core::cmp::Ordering;
use vstd::prelude::*;
use vstd::string::*;

use crate::strnum::{lower_of, lowercase};

verus! {

/// A run configuration: the two inputs, which columns stay silent, the
/// comparison mode, and the column delimiter.
#[derive(Debug)]
pub struct Config {
    pub file1: String,
    pub file2: String,
    pub suppress_col1: bool,
    pub suppress_col2: bool,
    pub suppress_col3: bool,
    pub insensitive: bool,
    pub delimiter: String,
}

/// Lexicographic order on byte sequences, as `str::cmp` orders strings.
pub open spec fn lex_cmp(a: Seq<u8>, b: Seq<u8>) -> Ordering
    decreases a.len(),
{
    if a.len() == 0 && b.len() == 0 {
        Ordering::Equal
    } else if a.len() == 0 {
        Ordering::Less
    } else if b.len() == 0 {
        Ordering::Greater
    } else if a[0] < b[0] {
        Ordering::Less
    } else if a[0] > b[0] {
        Ordering::Greater
    } else {
        lex_cmp(a.drop_first(), b.drop_first())
    }
}

proof fn lemma_lex_cmp_skip(a: Seq<u8>, b: Seq<u8>, i: int)
    requires
        0 <= i <= a.len(),
        i <= b.len(),
        forall|j: int| 0 <= j < i ==> a[j] == b[j],
    ensures
        lex_cmp(a, b) == lex_cmp(a.skip(i), b.skip(i)),
    decreases i,
{
    if i > 0 {
        assert(a[0] == b[0]);
        lemma_lex_cmp_skip(a.drop_first(), b.drop_first(), i - 1);
        assert(a.drop_first().skip(i - 1) =~= a.skip(i));
        assert(b.drop_first().skip(i - 1) =~= b.skip(i));
    } else {
        assert(a.skip(0) =~= a);
        assert(b.skip(0) =~= b);
    }
}

fn bytes_cmp(a: &[u8], b: &[u8]) -> (r: Ordering)
    ensures
        r == lex_cmp(a@, b@),
{
    let na = a.len();
    let nb = b.len();
    let mut i: usize = 0;
    while i < na && i < nb
        invariant
            0 <= i <= na,
            i <= nb,
            na == a@.len(),
            nb == b@.len(),
            forall|j: int| 0 <= j < i ==> a@[j] == b@[j],
        decreases na - i,
    {
        let av = *vstd::slice::slice_index_get(a, i);
        let bv = *vstd::slice::slice_index_get(b, i);
        if av < bv {
            proof {
                lemma_lex_cmp_skip(a@, b@, i as int);
            }
            return Ordering::Less;
        }
        if av > bv {
            proof {
                lemma_lex_cmp_skip(a@, b@, i as int);
            }
            return Ordering::Greater;
        }
        i = i + 1;
    }
    proof {
        lemma_lex_cmp_skip(a@, b@, i as int);
    }
    if na == nb {
        Ordering::Equal
    } else if na < nb {
        Ordering::Less
    } else {
        Ordering::Greater
    }
}

/// How `compare_lines` orders two lines under a comparison mode.
pub open spec fn spec_compare_lines(a: Seq<char>, b: Seq<char>, insensitive: bool) -> Ordering {
    if insensitive {
        lex_cmp(
            vstd::utf8::encode_utf8(lower_of(a)),
            vstd::utf8::encode_utf8(lower_of(b)),
        )
    } else {
        lex_cmp(vstd::utf8::encode_utf8(a), vstd::utf8::encode_utf8(b))
    }
}

/// Orders two lines, lowercasing both first in case-insensitive mode.
pub fn compare_lines(line1: &str, line2: &str, insensitive: bool) -> (r: Ordering)
    ensures
        r == spec_compare_lines(line1@, line2@, insensitive),
{
    if insensitive {
        let a = lowercase(line1);
        let b = lowercase(line2);
        bytes_cmp(a.as_str().as_bytes(), b.as_str().as_bytes())
    } else {
        bytes_cmp(line1.as_bytes(), line2.as_bytes())
    }
}

/// What one merge step decides: the column (1, 2 or 3) the current line
/// belongs to — 0 when both inputs are exhausted — and which inputs move
/// to their next line.
#[derive(Debug, PartialEq, Eq, Structural, Clone, Copy)]
pub struct CommStep {
    pub column: u32,
    pub advance1: bool,
    pub advance2: bool,
}

/// Decides one step of the two-file merge from the current front lines.
pub fn comm_step(line1: &Option<String>, line2: &Option<String>, insensitive: bool) -> (r:
    CommStep)
    ensures
        line1 is Some && line2 is Some ==> r == (match spec_compare_lines(
            line1->0@,
            line2->0@,
            insensitive,
        ) {
            Ordering::Less => CommStep { column: 1, advance1: true, advance2: false },
            Ordering::Greater => CommStep { column: 2, advance1: false, advance2: true },
            Ordering::Equal => CommStep { column: 3, advance1: true, advance2: true },
        }),
        line1 is Some && line2 is None ==> r == (CommStep {
            column: 1,
            advance1: true,
            advance2: false,
        }),
        line1 is None && line2 is Some ==> r == (CommStep {
            column: 2,
            advance1: false,
            advance2: true,
        }),
        line1 is None && line2 is None ==> r == (CommStep {
            column: 0,
            advance1: false,
            advance2: false,
        }),
{
    match (line1, line2) {
        (Some(l1), Some(l2)) => match compare_lines(l1.as_str(), l2.as_str(), insensitive) {
            Ordering::Less => CommStep { column: 1, advance1: true, advance2: false },
            Ordering::Greater => CommStep { column: 2, advance1: false, advance2: true },
            Ordering::Equal => CommStep { column: 3, advance1: true, advance2: true },
        },
        (Some(_), None) => CommStep { column: 1, advance1: true, advance2: false },
        (None, Some(_)) => CommStep { column: 2, advance1: false, advance2: true },
        (None, None) => CommStep { column: 0, advance1: false, advance2: false },
    }
}

/// The first column's output for a line, or nothing when suppressed.
pub fn format_line_1(line1: &str, config: &Config) -> (r: Option<String>)
    ensures
        (r is Some) == !config.suppress_col1,
        r matches Some(s) ==> s@ == line1@,
{
    if config.suppress_col1 {
        None
    } else {
        Some(String::from_str(line1))
    }
}

/// The second column's output: behind one delimiter unless the first
/// column is suppressed, or nothing when suppressed itself.
pub fn format_line_2(line2: &str, config: &Config) -> (r: Option<String>)
    ensures
        (r is Some) == !config.suppress_col2,
        r matches Some(s) ==> s@ == if config.suppress_col1 {
            line2@
        } else {
            config.delimiter@ + line2@
        },
{
    if config.suppress_col2 {
        None
    } else if config.suppress_col1 {
        Some(String::from_str(line2))
    } else {
        let mut s = String::from_str(config.delimiter.as_str());
        s.append(line2);
        Some(s)
    }
}

/// The third column's output: behind one delimiter for each of the first
/// two columns still shown, or nothing when suppressed itself.
pub fn format_line_3(line3: &str, config: &Config) -> (r: Option<String>)
    ensures
        (r is Some) == !config.suppress_col3,
        r matches Some(s) ==> s@ == if config.suppress_col1 && config.suppress_col2 {
            line3@
        } else if config.suppress_col1 || config.suppress_col2 {
            config.delimiter@ + line3@
        } else {
            config.delimiter@ + config.delimiter@ + line3@
        },
{
    if config.suppress_col3 {
        None
    } else if config.suppress_col1 && config.suppress_col2 {
        Some(String::from_str(line3))
    } else if config.suppress_col1 || config.suppress_col2 {
        let mut s = String::from_str(config.delimiter.as_str());
        s.append(line3);
        Some(s)
    } else {
        let mut s = String::from_str(config.delimiter.as_str());
        s.append(config.delimiter.as_str());
        s.append(line3);
        Some(s)
    }
}

} // verus!
