//! Line numbering for the concatenating printer: which prefix a line
//! gets under the numbering flags, and how the blank-line squeezing state
//! moves from line to line.

use vstd::prelude::*;
use vstd::string::*;

use crate::strnum::{dec_str, pad_left_spec};

verus! {

/// A run configuration: the inputs, the two numbering modes, and the
/// squeezing of repeated blank lines.
#[derive(Debug)]
pub struct Config {
    pub files: Vec<String>,
    pub number_lines: bool,
    pub number_nonblank_lines: bool,
    pub squeeze_empty_lines: bool,
}

/// The number prefix of one line: the line's displayed number
/// right-aligned in six columns and a tab, or nothing. Numbering all
/// lines discounts the omitted blanks; numbering non-blank lines also
/// discounts the blanks that were printed.
pub open spec fn spec_line_prefix(
    number_lines: bool,
    number_nonblank_lines: bool,
    index: int,
    line_is_empty: bool,
    count_of_blanks: int,
    blanks_omitted: int,
) -> Seq<char> {
    if number_lines {
        pad_left_spec(dec_str(index + 1 - blanks_omitted), 6) + "\t"@
    } else if number_nonblank_lines && !line_is_empty {
        pad_left_spec(dec_str(index + 1 - count_of_blanks - blanks_omitted), 6) + "\t"@
    } else {
        Seq::empty()
    }
}

/// Builds the prefix printed before one line.
pub fn determine_line_prefix(
    config: &Config,
    index: usize,
    line_is_empty: bool,
    count_of_blanks: usize,
    blanks_omitted: usize,
) -> (r: String)
    requires
        index < usize::MAX,
        blanks_omitted <= index,
        count_of_blanks + blanks_omitted <= index,
    ensures
        r@ == spec_line_prefix(
            config.number_lines,
            config.number_nonblank_lines,
            index as int,
            line_is_empty,
            count_of_blanks as int,
            blanks_omitted as int,
        ),
{
    if config.number_lines {
        let num = crate::strnum::u64_string((index + 1 - blanks_omitted) as u64);
        let mut r = crate::strnum::pad_left(num.as_str(), 6);
        r.append("\t");
        r
    } else if config.number_nonblank_lines && !line_is_empty {
        let num = crate::strnum::u64_string(
            (index + 1 - count_of_blanks - blanks_omitted) as u64,
        );
        let mut r = crate::strnum::pad_left(num.as_str(), 6);
        r.append("\t");
        r
    } else {
        String::new()
    }
}

/// What one line does to the printer's state: whether the line is
/// printed at all, which blank counter moves, and the blank flag the
/// next line sees.
#[derive(Debug, PartialEq, Eq, Structural, Clone, Copy)]
pub struct LineAction {
    pub print: bool,
    pub count_blank: bool,
    pub omit_blank: bool,
    pub now_blank: bool,
}

/// Decides one line's action: a blank line is swallowed only when
/// squeezing is on and the previous line was blank too; a swallowed
/// blank is counted as omitted, any other blank as seen.
pub fn line_action(squeeze_empty_lines: bool, line_is_empty: bool, is_previous_blank: bool) -> (r:
    LineAction)
    ensures
        r.print == (!line_is_empty || !squeeze_empty_lines || !is_previous_blank),
        r.count_blank == (line_is_empty && (!squeeze_empty_lines || !is_previous_blank)),
        r.omit_blank == (line_is_empty && squeeze_empty_lines && is_previous_blank),
        r.now_blank == line_is_empty,
{
    if line_is_empty {
        if !squeeze_empty_lines || !is_previous_blank {
            LineAction { print: true, count_blank: true, omit_blank: false, now_blank: true }
        } else {
            LineAction { print: false, count_blank: false, omit_blank: true, now_blank: true }
        }
    } else {
        LineAction { print: true, count_blank: false, omit_blank: false, now_blank: false }
    }
}

} // verus!
