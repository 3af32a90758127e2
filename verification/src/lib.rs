//! Verified building blocks for a family of small command-line text tools:
//! a cut-style range selector, line/word/byte counting, head/tail windowing,
//! calendar layout, sorted-file comparison, and their input parsers.
//!
//! Each tool's pure logic lives here with contracts; unverified shells
//! around this library do only argument handling and I/O.

pub mod calr;
pub mod catr;
pub mod commr;
pub mod cutr;
pub mod findr;
pub mod fortuner;
pub mod grepr;
pub mod headr;
pub mod strnum;
pub mod tailr;
pub mod wcr;
