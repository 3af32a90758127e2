//! The pattern searcher's options. Matching itself runs through the
//! caller's compiled pattern; only the option record is data this
//! library owns.

use vstd::prelude::*;

verus! {

/// The tool's options as plain values; the command-line front end fills
/// this in and compiles the pattern.
#[derive(Debug)]
pub struct Args {
    pub pattern: String,
    pub files: Vec<String>,
    pub recursive: bool,
    pub count: bool,
    pub invert_match: bool,
    pub insensitive: bool,
}

} // verus!
