//! Line, word, byte and character counting, and the fixed-width report
//! line built from the counts. A word is a maximal run of characters
//! without the Unicode White_Space property; a line is a `\n`-terminated
//! chunk, a trailing unterminated chunk included.

use vstd::prelude::*;
use vstd::string::*;

use crate::strnum::{dec_str, pad_left_spec, str_eq, u64_string};

verus! {

/// Counts for one input; also used as the running totals.
#[derive(Debug, PartialEq, Eq, Structural, Clone, Copy)]
pub struct FileInfo {
    pub num_lines: usize,
    pub num_words: usize,
    pub num_bytes: usize,
    pub num_chars: usize,
}

impl Default for FileInfo {
    /// All counts start at zero.
    fn default() -> (r: FileInfo)
        ensures
            r.num_lines == 0,
            r.num_words == 0,
            r.num_bytes == 0,
            r.num_chars == 0,
    {
        FileInfo { num_lines: 0, num_words: 0, num_bytes: 0, num_chars: 0 }
    }
}

impl FileInfo {
    /// Accumulates another input's counts into this one.
    pub fn add(&mut self, other: &FileInfo)
        requires
            old(self).num_lines + other.num_lines <= usize::MAX,
            old(self).num_words + other.num_words <= usize::MAX,
            old(self).num_bytes + other.num_bytes <= usize::MAX,
            old(self).num_chars + other.num_chars <= usize::MAX,
        ensures
            final(self).num_lines == old(self).num_lines + other.num_lines,
            final(self).num_words == old(self).num_words + other.num_words,
            final(self).num_bytes == old(self).num_bytes + other.num_bytes,
            final(self).num_chars == old(self).num_chars + other.num_chars,
    {
        self.num_lines = self.num_lines + other.num_lines;
        self.num_words = self.num_words + other.num_words;
        self.num_bytes = self.num_bytes + other.num_bytes;
        self.num_chars = self.num_chars + other.num_chars;
    }
}

/// Which counts a run reports, and for which inputs.
#[derive(Debug)]
pub struct Config {
    pub files: Vec<String>,
    pub lines: bool,
    pub words: bool,
    pub bytes: bool,
    pub chars: bool,
}

/// What `char::is_whitespace` decides: the Unicode White_Space property,
/// a function of the character alone.
pub uninterp spec fn is_unicode_ws(c: char) -> bool;

/// Relies on `char::is_whitespace`: the White_Space property depends on
/// the character alone; space, tab, newline and carriage return have it.
#[verifier::external_body]
fn is_whitespace_char(c: char) -> (r: bool)
    ensures
        r == is_unicode_ws(c),
        (c == ' ' || c == '\t' || c == '\n' || c == '\r') ==> r,
{
    c.is_whitespace()
}

/// How many words — maximal runs of non-whitespace — a text holds.
pub open spec fn word_count(s: Seq<char>) -> int
    decreases s.len(),
{
    if s.len() == 0 {
        0
    } else {
        word_count(s.drop_last()) + if !is_unicode_ws(s.last()) && (s.len() == 1 || is_unicode_ws(
            s[s.len() - 2],
        )) {
            1int
        } else {
            0int
        }
    }
}

/// How many `\n` characters a text holds.
pub open spec fn newline_chars(s: Seq<char>) -> int
    decreases s.len(),
{
    if s.len() == 0 {
        0
    } else {
        newline_chars(s.drop_last()) + if s.last() == '\n' {
            1int
        } else {
            0int
        }
    }
}

/// How many lines a text holds: its `\n`-terminated chunks, plus a
/// trailing unterminated one.
pub open spec fn line_count(s: Seq<char>) -> int {
    newline_chars(s) + if s.len() > 0 && s.last() != '\n' {
        1int
    } else {
        0int
    }
}

proof fn lemma_word_count_bound(s: Seq<char>)
    ensures
        0 <= word_count(s) <= s.len(),
    decreases s.len(),
{
    if s.len() > 0 {
        lemma_word_count_bound(s.drop_last());
    }
}

proof fn lemma_newline_chars_bound(s: Seq<char>)
    ensures
        0 <= newline_chars(s) <= s.len(),
    decreases s.len(),
{
    if s.len() > 0 {
        lemma_newline_chars_bound(s.drop_last());
    }
}

/// Counts the lines, words, bytes and characters of a whole input.
pub fn count(text: &str) -> (r: FileInfo)
    ensures
        r.num_lines == line_count(text@),
        r.num_words == word_count(text@),
        r.num_bytes == vstd::utf8::encode_utf8(text@).len(),
        r.num_chars == text@.len(),
{
    let num_bytes = text.as_bytes().len();
    let n = text.unicode_len();
    let mut newlines: usize = 0;
    let mut words: usize = 0;
    let mut prev_ws = true;
    let mut i: usize = 0;
    while i < n
        invariant
            0 <= i <= n,
            n == text@.len(),
            newlines == newline_chars(text@.take(i as int)),
            words == word_count(text@.take(i as int)),
            i == 0 ==> prev_ws == true,
            i > 0 ==> prev_ws == is_unicode_ws(text@[i - 1]),
        decreases n - i,
    {
        proof {
            lemma_newline_chars_bound(text@.take(i as int));
            lemma_word_count_bound(text@.take(i as int));
            assert(text@.take(i + 1).drop_last() =~= text@.take(i as int));
        }
        let c = text.get_char(i);
        if c == '\n' {
            newlines = newlines + 1;
        }
        let ws = is_whitespace_char(c);
        if !ws && prev_ws {
            words = words + 1;
        }
        prev_ws = ws;
        i = i + 1;
    }
    assert(text@.take(n as int) =~= text@);
    let num_lines: usize = if n > 0 && text.get_char(n - 1) != '\n' {
        proof {
            lemma_newline_chars_bound(text@.drop_last());
        }
        newlines + 1
    } else {
        newlines
    };
    FileInfo { num_lines, num_words: words, num_bytes, num_chars: n }
}

/// One count, right-aligned in the report's eight-column cell.
pub fn format_field(num: usize) -> (r: String)
    ensures
        r@ == pad_left_spec(dec_str(num as int), 8),
{
    let text = u64_string(num as u64);
    crate::strnum::pad_left(text.as_str(), 8)
}

/// The report line for one input: the selected counts in order, then the
/// file's name unless it stands for standard input.
pub open spec fn spec_file_info_string(
    filename: Seq<char>,
    fi: FileInfo,
    lines: bool,
    words: bool,
    bytes: bool,
    chars: bool,
) -> Seq<char> {
    (if lines {
        pad_left_spec(dec_str(fi.num_lines as int), 8)
    } else {
        Seq::empty()
    }) + (if words {
        pad_left_spec(dec_str(fi.num_words as int), 8)
    } else {
        Seq::empty()
    }) + (if bytes {
        pad_left_spec(dec_str(fi.num_bytes as int), 8)
    } else {
        Seq::empty()
    }) + (if chars {
        pad_left_spec(dec_str(fi.num_chars as int), 8)
    } else {
        Seq::empty()
    }) + (if filename == "-"@ {
        Seq::<char>::empty()
    } else {
        " "@ + filename
    })
}

/// Builds the report line for one input under the run's flags.
pub fn gen_file_info_string(filename: &String, file_info: FileInfo, config: &Config) -> (r: String)
    ensures
        r@ == spec_file_info_string(
            filename@,
            file_info,
            config.lines,
            config.words,
            config.bytes,
            config.chars,
        ),
{
    let mut result = String::new();
    if config.lines {
        let field = format_field(file_info.num_lines);
        result.append(field.as_str());
    }
    if config.words {
        let field = format_field(file_info.num_words);
        result.append(field.as_str());
    }
    if config.bytes {
        let field = format_field(file_info.num_bytes);
        result.append(field.as_str());
    }
    if config.chars {
        let field = format_field(file_info.num_chars);
        result.append(field.as_str());
    }
    if !str_eq(filename.as_str(), "-") {
        result.append(" ");
        result.append(filename.as_str());
    }
    assert(result@ =~= spec_file_info_string(
        filename@,
        file_info,
        config.lines,
        config.words,
        config.bytes,
        config.chars,
    ));
    result
}

} // verus!
