//! The column selector: parses a selection expression such as `1,3-5,9-12`
//! into an ordered list of zero-based half-open ranges, and applies such a
//! list to one line of input under three interpretations (bytes, characters,
//! or pre-split fields).
//!
//! The grammar is a comma-separated list of clauses; each clause is either a
//! bare positive decimal number `N` (selecting the N-th unit, one-based) or
//! `N1-N2` (selecting units N1 through N2 inclusive). A leading `+`, a zero,
//! or any other content is rejected. The resulting list keeps the clause
//! order and may repeat or overlap ranges; extraction re-emits repeated
//! content and silently skips offsets beyond the input's length.

use core::ops::Range;
use vstd::prelude::*;
use vstd::string::*;

use crate::strnum::{all_digits, dec_value, is_digit};

verus! {

/// An ordered list of zero-based half-open ranges, in clause order.
pub type PositionList = Vec<Range<usize>>;

/// Which units a run extracts, with the parsed selection for that mode.
#[derive(Debug, Clone)]
pub enum Extract {
    Fields(PositionList),
    Bytes(PositionList),
    Chars(PositionList),
}

/// The selector's options as plain values, with at most one of the three
/// selection modes set; the command-line front end fills this in.
#[derive(Debug)]
pub struct Args {
    pub files: Vec<String>,
    pub delimiter: u8,
    pub bytes: Option<Extract>,
    pub chars: Option<Extract>,
    pub fields: Option<Extract>,
    pub output_delimiter: Option<u8>,
    pub output_file: Option<String>,
}

/// A validated run configuration: exactly one extraction mode.
#[derive(Debug)]
pub struct Config {
    pub files: Vec<String>,
    pub delimiter: u8,
    pub extract: Extract,
    pub output_delimiter: u8,
    pub output_file: Option<String>,
}

// ------------------------------------------------------------------
// Specification of parsing
// ------------------------------------------------------------------

/// Ghost description of a parse failure: either a clause (or range
/// endpoint) that is not a positive number, or a backwards range, recorded
/// with its one-based endpoints.
pub enum SpecParseFailure {
    Illegal { clause: Seq<char> },
    Order { first: int, second: int },
}

/// A clause or endpoint names a selectable unit: all digits, at least one,
/// value positive and within the machine's index range.
pub open spec fn valid_index_text(c: Seq<char>) -> bool {
    c.len() > 0 && all_digits(c) && 1 <= dec_value(c) <= usize::MAX
}

/// The zero-based offset a valid index text denotes.
pub open spec fn index_of_text(c: Seq<char>) -> int {
    dec_value(c) - 1
}

/// Index of the first occurrence of `c` in `s`, or `s.len()` if absent.
pub open spec fn find_char(s: Seq<char>, c: char) -> int
    decreases s.len(),
{
    if s.len() == 0 {
        0
    } else if s[0] == c {
        0
    } else {
        1 + find_char(s.drop_first(), c)
    }
}

pub proof fn lemma_find_char(s: Seq<char>, c: char)
    ensures
        0 <= find_char(s, c) <= s.len(),
        find_char(s, c) < s.len() ==> s[find_char(s, c)] == c,
        forall|j: int| 0 <= j < find_char(s, c) ==> s[j] != c,
    decreases s.len(),
{
    if s.len() > 0 && s[0] != c {
        lemma_find_char(s.drop_first(), c);
        assert forall|j: int| 0 <= j < find_char(s, c) implies s[j] != c by {
            if j > 0 {
                assert(s.drop_first()[j - 1] == s[j]);
            }
        }
    }
}

/// The clause has the two-endpoint shape `digits-digits`.
pub open spec fn range_shape(c: Seq<char>) -> bool {
    let k = find_char(c, '-');
    0 < k < c.len() && all_digits(c.take(k)) && c.len() > k + 1 && all_digits(c.skip(k + 1))
}

/// What one clause of a selection spec parses to: a half-open pair of
/// zero-based offsets, or the failure the clause produces. A bare number
/// `N` yields `[N-1, N)`; `N1-N2` yields `[N1-1, N2)` provided the derived
/// starts are strictly ordered.
pub open spec fn spec_parse_clause(c: Seq<char>) -> Result<(int, int), SpecParseFailure> {
    if valid_index_text(c) {
        Ok((index_of_text(c), index_of_text(c) + 1))
    } else if range_shape(c) {
        let k = find_char(c, '-');
        let a = c.take(k);
        let b = c.skip(k + 1);
        if !valid_index_text(a) {
            Err(SpecParseFailure::Illegal { clause: a })
        } else if !valid_index_text(b) {
            Err(SpecParseFailure::Illegal { clause: b })
        } else if index_of_text(a) >= index_of_text(b) {
            Err(SpecParseFailure::Order {
                first: index_of_text(a) + 1,
                second: index_of_text(b) + 1,
            })
        } else {
            Ok((index_of_text(a), index_of_text(b) + 1))
        }
    } else {
        Err(SpecParseFailure::Illegal { clause: c })
    }
}

/// What a whole selection spec parses to: the clause results in clause
/// order (never merged, deduplicated or sorted), or the first failure.
pub open spec fn spec_parse_pos(s: Seq<char>) -> Result<Seq<(int, int)>, SpecParseFailure>
    decreases s.len(),
{
    let k = find_char(s, ',');
    if !(0 <= k < s.len()) {
        match spec_parse_clause(s) {
            Ok(p) => Ok(seq![p]),
            Err(e) => Err(e),
        }
    } else {
        match spec_parse_clause(s.take(k)) {
            Ok(p) => match spec_parse_pos(s.skip(k + 1)) {
                Ok(rest) => Ok(seq![p] + rest),
                Err(e) => Err(e),
            },
            Err(e) => Err(e),
        }
    }
}

// ------------------------------------------------------------------
// Parse failures as runtime values
// ------------------------------------------------------------------

/// A selection spec that could not be parsed; carries what the messages
/// of the tool need: the offending clause text verbatim, or the two
/// one-based endpoints of a backwards range.
#[derive(Debug)]
pub enum ParseError {
    IllegalListValue { clause: String },
    RangeOrder { first: usize, second: usize },
}

impl ParseError {
    /// The runtime error carries the same information as the ghost one.
    pub open spec fn corresponds(self, e: SpecParseFailure) -> bool {
        match (self, e) {
            (
                ParseError::IllegalListValue { clause },
                SpecParseFailure::Illegal { clause: c },
            ) => clause@ == c,
            (
                ParseError::RangeOrder { first, second },
                SpecParseFailure::Order { first: f, second: s },
            ) => first == f && second == s,
            _ => false,
        }
    }

    /// The diagnostic text of this failure, character by character.
    pub open spec fn spec_message(self) -> Seq<char> {
        match self {
            ParseError::IllegalListValue { clause } => "illegal list value: "@ + clause@,
            ParseError::RangeOrder { first, second } => "First number in range ("@
                + crate::strnum::dec_str(first as int)
                + ") must be lower than the second number ("@ + crate::strnum::dec_str(
                second as int,
            ) + ")"@,
        }
    }

    /// Renders the human-readable message, exactly as the tool prints it:
    /// the offending clause verbatim, or the two one-based range endpoints.
    pub fn message(&self) -> (r: String)
        ensures
            r@ == self.spec_message(),
    {
        match self {
            ParseError::IllegalListValue { clause } => {
                let mut s = String::from_str("illegal list value: ");
                s.append(clause.as_str());
                s
            },
            ParseError::RangeOrder { first, second } => {
                let mut s = String::from_str("First number in range (");
                let first_text = crate::strnum::u64_string(*first as u64);
                s.append(first_text.as_str());
                s.append(") must be lower than the second number (");
                let second_text = crate::strnum::u64_string(*second as u64);
                s.append(second_text.as_str());
                s.append(")");
                s
            },
        }
    }
}

/// The runtime range list realizes the ghost list of offset pairs.
pub open spec fn matches_pairs(v: Seq<Range<usize>>, ps: Seq<(int, int)>) -> bool {
    v.len() == ps.len() && forall|i: int|
        0 <= i < ps.len() ==> (#[trigger] v[i]).start as int == ps[i].0 && v[i].end as int
            == ps[i].1
}

// ------------------------------------------------------------------
// Executable parsing
// ------------------------------------------------------------------

/// Parses one clause or endpoint as a one-based unit number and converts
/// it to a zero-based offset; anything but a positive plain number (no
/// sign, digits only, non-zero, within index range) is illegal.
pub fn parse_index(input: &str) -> (r: Result<usize, ParseError>)
    ensures
        (r is Ok) == valid_index_text(input@),
        r matches Ok(n) ==> n == index_of_text(input@),
        r matches Err(e) ==> e matches ParseError::IllegalListValue { clause } && clause@
            == input@,
{
    let n = input.unicode_len();
    let mut i: usize = 0;
    let mut ok = true;
    while i < n
        invariant
            0 <= i <= n,
            n == input@.len(),
            ok == all_digits(input@.take(i as int)),
        decreases n - i,
    {
        let u = input.get_char(i) as u32;
        if u < 48 || u > 57 {
            assert(!is_digit(input@.take(i + 1)[i as int]));
            ok = false;
        } else {
            assert(all_digits(input@.take(i as int)) ==> all_digits(input@.take(i + 1)));
        }
        i = i + 1;
    }
    assert(input@.take(n as int) =~= input@);
    if !ok || n == 0 {
        return Err(ParseError::IllegalListValue { clause: String::from_str(input) });
    }
    match crate::strnum::parse_digits_value(input) {
        Some(v) => {
            if v >= 1 && v <= usize::MAX as u64 {
                Ok((v - 1) as usize)
            } else {
                Err(ParseError::IllegalListValue { clause: String::from_str(input) })
            }
        },
        None => {
            proof {
                crate::strnum::lemma_dec_value_nonneg(input@);
            }
            Err(ParseError::IllegalListValue { clause: String::from_str(input) })
        },
    }
}

/// Parses one comma-separated clause: a bare one-based number, or a
/// `N1-N2` range whose endpoints are validated independently and whose
/// derived zero-based starts must be strictly ordered.
pub fn parse_clause(clause: &str) -> (r: Result<Range<usize>, ParseError>)
    ensures
        (r is Ok) == (spec_parse_clause(clause@) is Ok),
        r matches Ok(rg) ==> spec_parse_clause(clause@) matches Ok(p) && rg.start == p.0
            && rg.end == p.1,
        r matches Err(e) ==> spec_parse_clause(clause@) matches Err(f) && e.corresponds(f),
{
    let whole = parse_index(clause);
    match whole {
        Ok(n) => Ok(Range { start: n, end: n + 1 }),
        Err(e0) => {
            let m = clause.unicode_len();
            let mut k: usize = 0;
            while k < m && clause.get_char(k) != '-'
                invariant
                    0 <= k <= m,
                    m == clause@.len(),
                    forall|j: int| 0 <= j < k ==> clause@[j] != '-',
                decreases m - k,
            {
                k = k + 1;
            }
            proof {
                lemma_find_char(clause@, '-');
                assert(find_char(clause@, '-') == k as int);
            }
            if k == 0 || k >= m || k + 1 >= m {
                assert(!range_shape(clause@));
                return Err(e0);
            }
            let a = clause.substring_char(0, k);
            let b = clause.substring_char(k + 1, m);
            if !crate::strnum::all_digits_str(a) || !crate::strnum::all_digits_str(b) {
                assert(!range_shape(clause@));
                return Err(e0);
            }
            assert(range_shape(clause@));
            let n1 = match parse_index(a) {
                Ok(v) => v,
                Err(e) => {
                    return Err(e);
                },
            };
            let n2 = match parse_index(b) {
                Ok(v) => v,
                Err(e) => {
                    return Err(e);
                },
            };
            if n1 >= n2 {
                Err(ParseError::RangeOrder { first: n1 + 1, second: n2 + 1 })
            } else {
                Ok(Range { start: n1, end: n2 + 1 })
            }
        },
    }
}

/// Parses a whole selection spec: a comma-separated list of clauses,
/// failing fast on the first invalid clause. The result keeps the clause
/// order, including duplicates and overlaps.
pub fn parse_pos(range: &str) -> (r: Result<PositionList, ParseError>)
    ensures
        (r is Ok) == (spec_parse_pos(range@) is Ok),
        r matches Ok(v) ==> spec_parse_pos(range@) matches Ok(ps) && matches_pairs(v@, ps),
        r matches Err(e) ==> spec_parse_pos(range@) matches Err(f) && e.corresponds(f),
    decreases range@.len(),
{
    let n = range.unicode_len();
    let mut k: usize = 0;
    while k < n && range.get_char(k) != ','
        invariant
            0 <= k <= n,
            n == range@.len(),
            forall|j: int| 0 <= j < k ==> range@[j] != ',',
        decreases n - k,
    {
        k = k + 1;
    }
    proof {
        lemma_find_char(range@, ',');
        assert(find_char(range@, ',') == k as int);
    }
    if k == n {
        match parse_clause(range) {
            Ok(rg) => {
                let v: PositionList = vec![rg];
                Ok(v)
            },
            Err(e) => Err(e),
        }
    } else {
        let clause = range.substring_char(0, k);
        assert(clause@ == range@.take(k as int));
        match parse_clause(clause) {
            Err(e) => Err(e),
            Ok(rg) => {
                let rest = range.substring_char(k + 1, n);
                assert(rest@ == range@.skip(k + 1));
                match parse_pos(rest) {
                    Err(e) => Err(e),
                    Ok(mut v) => {
                        v.insert(0, rg);
                        proof {
                            let ps = spec_parse_pos(range@) ->Ok_0;
                            assert(matches_pairs(v@, ps));
                        }
                        Ok(v)
                    },
                }
            },
        }
    }
}

/// Parsing is total and deterministic: `parse_pos` accepts every string,
/// its contract ties the outcome to `spec_parse_pos` alone, and any two
/// range lists realizing the same parsed spec are equal. Re-parsing the
/// same spec therefore always yields an identical position list.
pub proof fn lemma_parse_deterministic(
    v1: Seq<Range<usize>>,
    v2: Seq<Range<usize>>,
    ps: Seq<(int, int)>,
)
    requires
        matches_pairs(v1, ps),
        matches_pairs(v2, ps),
    ensures
        v1 =~= v2,
{
    assert forall|i: int| 0 <= i < v1.len() implies v1[i] == v2[i] by {
        assert(v1[i].start == v2[i].start && v1[i].end == v2[i].end);
    }
}

/// Accepts a delimiter argument only when it is a single byte, and
/// otherwise reports the offending text in the message.
pub fn parse_delimiter(input: &str) -> (r: Result<u8, String>)
    ensures
        (r is Ok) == (vstd::utf8::encode_utf8(input@).len() == 1),
        r matches Ok(b) ==> b == vstd::utf8::encode_utf8(input@)[0],
        r matches Err(m) ==> m@ == "--delim \""@ + input@ + "\" must be a single byte"@,
{
    let bytes: &[u8] = input.as_bytes();
    if bytes.len() == 1 {
        Ok(*vstd::slice::slice_index_get(bytes, 0))
    } else {
        let mut m = String::from_str("--delim \"");
        m.append(input);
        m.append("\" must be a single byte");
        Err(m)
    }
}

/// Wraps a parsed selection spec as a byte selection. The caller checks
/// the spec first; a malformed one is outside this constructor's domain.
pub fn parse_bytes(input: &str) -> (r: Result<Extract, String>)
    requires
        spec_parse_pos(input@) is Ok,
    ensures
        r matches Ok(ex) && ex matches Extract::Bytes(v) && matches_pairs(
            v@,
            spec_parse_pos(input@)->Ok_0,
        ),
{
    match parse_pos(input) {
        Ok(p) => Ok(Extract::Bytes(p)),
        Err(_) => vstd::pervasive::unreached(),
    }
}

/// Wraps a parsed selection spec as a character selection.
pub fn parse_chars(input: &str) -> (r: Result<Extract, String>)
    requires
        spec_parse_pos(input@) is Ok,
    ensures
        r matches Ok(ex) && ex matches Extract::Chars(v) && matches_pairs(
            v@,
            spec_parse_pos(input@)->Ok_0,
        ),
{
    match parse_pos(input) {
        Ok(p) => Ok(Extract::Chars(p)),
        Err(_) => vstd::pervasive::unreached(),
    }
}

/// Wraps a parsed selection spec as a field selection.
pub fn parse_fields(input: &str) -> (r: Result<Extract, String>)
    requires
        spec_parse_pos(input@) is Ok,
    ensures
        r matches Ok(ex) && ex matches Extract::Fields(v) && matches_pairs(
            v@,
            spec_parse_pos(input@)->Ok_0,
        ),
{
    match parse_pos(input) {
        Ok(p) => Ok(Extract::Fields(p)),
        Err(_) => vstd::pervasive::unreached(),
    }
}

// ------------------------------------------------------------------
// Specification of extraction
// ------------------------------------------------------------------

/// The in-bounds part of one half-open range of `s`: offsets at or beyond
/// the input's length are skipped silently, never padded or reported.
pub open spec fn select_one<T>(s: Seq<T>, start: int, end: int) -> Seq<T> {
    let lo = if start <= s.len() {
        start
    } else {
        s.len() as int
    };
    let hi = if end <= s.len() {
        end
    } else {
        s.len() as int
    };
    if 0 <= lo < hi {
        s.subrange(lo, hi)
    } else {
        Seq::empty()
    }
}

/// The range walk: every range in stored order, each contributing its
/// in-bounds elements in ascending offset order. Repeated or overlapping
/// ranges re-emit the covered elements.
pub open spec fn select_all<T>(s: Seq<T>, pos: Seq<Range<usize>>) -> Seq<T>
    decreases pos.len(),
{
    if pos.len() == 0 {
        Seq::empty()
    } else {
        select_one(s, pos[0].start as int, pos[0].end as int) + select_all(s, pos.drop_first())
    }
}

pub proof fn lemma_select_all_push<T>(s: Seq<T>, pos: Seq<Range<usize>>, rg: Range<usize>)
    ensures
        select_all(s, pos.push(rg)) == select_all(s, pos) + select_one(
            s,
            rg.start as int,
            rg.end as int,
        ),
    decreases pos.len(),
{
    if pos.len() == 0 {
        assert(pos.push(rg).drop_first() =~= pos);
        assert(select_all(s, pos.push(rg)) =~= select_all(s, pos) + select_one(
            s,
            rg.start as int,
            rg.end as int,
        ));
    } else {
        assert(pos.push(rg).drop_first() =~= pos.drop_first().push(rg));
        assert(pos.push(rg)[0] == pos[0]);
        lemma_select_all_push(s, pos.drop_first(), rg);
        assert(select_all(s, pos.push(rg)) =~= select_all(s, pos) + select_one(
            s,
            rg.start as int,
            rg.end as int,
        ));
    }
}

/// Splitting a position list splits the selection: the walk over a
/// concatenated list emits the first list's selection, then the second's.
/// In particular a clause listed twice re-emits its covered content.
pub proof fn lemma_select_all_concat<T>(s: Seq<T>, p1: Seq<Range<usize>>, p2: Seq<Range<usize>>)
    ensures
        select_all(s, p1 + p2) == select_all(s, p1) + select_all(s, p2),
    decreases p2.len(),
{
    if p2.len() == 0 {
        assert(p1 + p2 =~= p1);
        assert(select_all(s, p1 + p2) =~= select_all(s, p1) + select_all(s, p2));
    } else {
        let front = p2.drop_last();
        assert(p1 + p2 =~= (p1 + front).push(p2.last()));
        assert(p2 =~= front.push(p2.last()));
        lemma_select_all_concat(s, p1, front);
        lemma_select_all_push(s, p1 + front, p2.last());
        lemma_select_all_push(s, front, p2.last());
        assert(select_all(s, p1 + p2) =~= select_all(s, p1) + select_all(s, p2));
    }
}

/// A single range covering the whole input selects it unchanged, so
/// extracting with the full-range spec is the identity.
pub proof fn lemma_select_full_range<T>(s: Seq<T>, pos: Seq<Range<usize>>)
    requires
        pos.len() == 1,
        pos[0].start == 0,
        pos[0].end == s.len(),
    ensures
        select_all(s, pos) == s,
{
    assert(pos.drop_first().len() == 0);
    assert(select_all(s, pos.drop_first()) =~= Seq::<T>::empty());
    if s.len() > 0 {
        assert(select_all(s, pos) =~= s.subrange(0, s.len() as int));
        assert(s.subrange(0, s.len() as int) =~= s);
    } else {
        assert(select_all(s, pos) =~= s);
    }
}

// ------------------------------------------------------------------
// Executable extraction
// ------------------------------------------------------------------

/// What `String::from_utf8_lossy` decodes a byte sequence to: a function
/// of the bytes alone (ill-formed sequences become replacement characters).
pub uninterp spec fn utf8_lossy(bytes: Seq<u8>) -> Seq<char>;

/// Relies on `String::from_utf8_lossy`: the result depends on the bytes
/// alone, and well-formed UTF-8 decodes to exactly its own characters.
#[verifier::external_body]
fn utf8_lossy_string(bytes: &Vec<u8>) -> (r: String)
    ensures
        r@ == utf8_lossy(bytes@),
        vstd::utf8::valid_utf8(bytes@) ==> r@ == vstd::utf8::decode_utf8(bytes@),
{
    String::from_utf8_lossy(bytes).into_owned()
}

/// Extracts the characters of `line` covered by `char_pos`, in range-walk
/// order; indices address whole characters, so multi-byte characters are
/// never split.
pub fn extract_chars(line: &str, char_pos: &[Range<usize>]) -> (r: String)
    ensures
        r@ == select_all(line@, char_pos@),
{
    let n = line.unicode_len();
    let mut out = String::new();
    let mut i: usize = 0;
    while i < char_pos.len()
        invariant
            0 <= i <= char_pos@.len(),
            n == line@.len(),
            out@ == select_all(line@, char_pos@.take(i as int)),
        decreases char_pos@.len() - i,
    {
        let rg = vstd::slice::slice_index_get(char_pos, i);
        let lo = if rg.start <= n {
            rg.start
        } else {
            n
        };
        let hi = if rg.end <= n {
            rg.end
        } else {
            n
        };
        proof {
            assert(char_pos@.take(i + 1) =~= char_pos@.take(i as int).push(char_pos@[i as int]));
            lemma_select_all_push(line@, char_pos@.take(i as int), char_pos@[i as int]);
        }
        if lo < hi {
            let piece = line.substring_char(lo, hi);
            out.append(piece);
        }
        assert(out@ =~= select_all(line@, char_pos@.take(i + 1)));
        i = i + 1;
    }
    assert(char_pos@.take(char_pos@.len() as int) =~= char_pos@);
    out
}

/// Extracts the bytes of `line` covered by `byte_pos`, in range-walk
/// order, then decodes the selection as lossy UTF-8: slicing by raw byte
/// offset can split a multi-byte character, which becomes a replacement
/// character rather than an error.
pub fn extract_bytes(line: &str, byte_pos: &[Range<usize>]) -> (r: String)
    ensures
        r@ == utf8_lossy(select_all(vstd::utf8::encode_utf8(line@), byte_pos@)),
        vstd::utf8::valid_utf8(select_all(vstd::utf8::encode_utf8(line@), byte_pos@)) ==> r@
            == vstd::utf8::decode_utf8(select_all(vstd::utf8::encode_utf8(line@), byte_pos@)),
{
    let bytes: &[u8] = line.as_bytes();
    let n = bytes.len();
    let mut sel: Vec<u8> = Vec::new();
    let mut i: usize = 0;
    while i < byte_pos.len()
        invariant
            0 <= i <= byte_pos@.len(),
            n == bytes@.len(),
            bytes@ == vstd::utf8::encode_utf8(line@),
            sel@ == select_all(bytes@, byte_pos@.take(i as int)),
        decreases byte_pos@.len() - i,
    {
        let rg = vstd::slice::slice_index_get(byte_pos, i);
        let lo = if rg.start <= n {
            rg.start
        } else {
            n
        };
        let hi = if rg.end <= n {
            rg.end
        } else {
            n
        };
        proof {
            assert(byte_pos@.take(i + 1) =~= byte_pos@.take(i as int).push(byte_pos@[i as int]));
            lemma_select_all_push(bytes@, byte_pos@.take(i as int), byte_pos@[i as int]);
        }
        if lo < hi {
            let piece = vstd::slice::slice_subrange(bytes, lo, hi);
            let mut piece_vec = vstd::slice::slice_to_vec(piece);
            sel.append(&mut piece_vec);
        }
        assert(sel@ =~= select_all(bytes@, byte_pos@.take(i + 1)));
        i = i + 1;
    }
    assert(byte_pos@.take(byte_pos@.len() as int) =~= byte_pos@);
    utf8_lossy_string(&sel)
}

/// Extracts the fields of an already-decoded record covered by
/// `field_pos`, in range-walk order; the caller's codec re-joins them.
pub fn extract_fields(record: &Vec<String>, field_pos: &[Range<usize>]) -> (r: Vec<String>)
    ensures
        r@ == select_all(record@, field_pos@),
{
    let n = record.len();
    let mut out: Vec<String> = Vec::new();
    let mut i: usize = 0;
    while i < field_pos.len()
        invariant
            0 <= i <= field_pos@.len(),
            n == record@.len(),
            out@ == select_all(record@, field_pos@.take(i as int)),
        decreases field_pos@.len() - i,
    {
        let rg = vstd::slice::slice_index_get(field_pos, i);
        let lo = if rg.start <= n {
            rg.start
        } else {
            n
        };
        let hi = if rg.end <= n {
            rg.end
        } else {
            n
        };
        proof {
            assert(field_pos@.take(i + 1) =~= field_pos@.take(i as int).push(
                field_pos@[i as int],
            ));
            lemma_select_all_push(record@, field_pos@.take(i as int), field_pos@[i as int]);
        }
        if lo < hi {
            let mut j = lo;
            assert(out@ =~= select_all(record@, field_pos@.take(i as int)) + record@.subrange(
                lo as int,
                lo as int,
            ));
            while j < hi
                invariant
                    lo <= j <= hi,
                    hi <= n,
                    n == record@.len(),
                    out@ == select_all(record@, field_pos@.take(i as int)) + record@.subrange(
                        lo as int,
                        j as int,
                    ),
                decreases hi - j,
            {
                out.push(record[j].clone());
                assert(out@ =~= select_all(record@, field_pos@.take(i as int)) + record@.subrange(
                    lo as int,
                    j + 1,
                ));
                j = j + 1;
            }
        }
        assert(out@ =~= select_all(record@, field_pos@.take(i + 1)));
        i = i + 1;
    }
    assert(field_pos@.take(field_pos@.len() as int) =~= field_pos@);
    out
}

} // verus!
