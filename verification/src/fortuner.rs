//! Fortune records: the seed argument, the grouping of a file's lines
//! into `%`-separated records, and the random pick of one record.

use rand::seq::SliceRandom;
use rand::SeedableRng;
use vstd::prelude::*;
use vstd::string::*;

use crate::strnum::{
    dec_value, join_spec, str_eq, unsigned_digits, unsigned_shape,
};

verus! {

/// The tool's options as plain values; the command-line front end fills
/// this in.
#[derive(Debug)]
pub struct Args {
    pub sources: Vec<String>,
    pub pattern: Option<String>,
    pub insensitive: bool,
    pub seed: Option<u64>,
}

/// One record: the name of the file it came from and its text up to,
/// but not including, the terminating `%` line.
#[derive(Debug)]
pub struct Fortune {
    pub source: String,
    pub text: String,
}

/// Parses the random-seed argument.
pub fn parse_u64(val: &str) -> (r: Result<u64, String>)
    ensures
        (r is Ok) == (unsigned_shape(val@) && dec_value(unsigned_digits(val@)) <= u64::MAX),
        r matches Ok(n) ==> n == dec_value(unsigned_digits(val@)),
        r matches Err(m) ==> m@ == "\""@ + val@ + "\" not a valid integer"@,
{
    match crate::strnum::parse_u64_str(val) {
        Some(n) => Ok(n),
        None => {
            let mut m = String::from_str("\"");
            m.append(val);
            m.append("\" not a valid integer");
            Err(m)
        },
    }
}

/// The record texts of a line sequence: lines accumulate until a `%`
/// line flushes them, joined with newlines; a `%` after nothing is
/// skipped, and an unterminated trailing group is discarded.
pub open spec fn fortune_texts(lines: Seq<Seq<char>>, buffer: Seq<Seq<char>>) -> Seq<Seq<char>>
    decreases lines.len(),
{
    if lines.len() == 0 {
        Seq::empty()
    } else if lines[0] == "%"@ {
        if buffer.len() > 0 {
            seq![join_spec(buffer, "\n"@)] + fortune_texts(lines.drop_first(), Seq::empty())
        } else {
            fortune_texts(lines.drop_first(), Seq::empty())
        }
    } else {
        fortune_texts(lines.drop_first(), buffer.push(lines[0]))
    }
}

/// The texts of a record list.
pub open spec fn texts_of(v: Seq<Fortune>) -> Seq<Seq<char>> {
    v.map_values(|f: Fortune| f.text@)
}

/// Groups one file's lines into its records, each tagged with the
/// file's name.
pub fn read_fortunes_from_lines(source: &str, lines: &Vec<String>) -> (r: Vec<Fortune>)
    ensures
        texts_of(r@) == fortune_texts(lines.deep_view(), Seq::empty()),
        forall|i: int| 0 <= i < r@.len() ==> (#[trigger] r@[i]).source@ == source@,
{
    let n = lines.len();
    let mut result: Vec<Fortune> = Vec::new();
    let mut buffer: Vec<String> = Vec::new();
    let mut i: usize = 0;
    proof {
        assert(lines.deep_view().skip(0) =~= lines.deep_view());
        assert(texts_of(result@) =~= Seq::<Seq<char>>::empty());
        assert(buffer.deep_view() =~= Seq::<Seq<char>>::empty());
        assert(fortune_texts(lines.deep_view(), Seq::empty()) =~= texts_of(result@)
            + fortune_texts(lines.deep_view().skip(0), buffer.deep_view()));
    }
    while i < n
        invariant
            0 <= i <= n,
            n == lines@.len(),
            fortune_texts(lines.deep_view(), Seq::empty()) == texts_of(result@) + fortune_texts(
                lines.deep_view().skip(i as int),
                buffer.deep_view(),
            ),
            forall|k: int| 0 <= k < result@.len() ==> (#[trigger] result@[k]).source@ == source@,
        decreases n - i,
    {
        let ghost l = lines.deep_view();
        let ghost t_old = texts_of(result@);
        let ghost b_old = buffer.deep_view();
        proof {
            reveal_strlit("%");
            assert(l.skip(i as int).drop_first() =~= l.skip(i + 1));
            assert(l.skip(i as int)[0] == lines@[i as int]@);
        }
        if str_eq(lines[i].as_str(), "%") {
            if buffer.len() > 0 {
                let text = crate::strnum::join_strings(&buffer, "\n");
                result.push(Fortune { source: String::from_str(source), text });
                buffer.clear();
                proof {
                    assert(texts_of(result@) =~= t_old.push(join_spec(b_old, "\n"@)));
                    assert(buffer.deep_view() =~= Seq::<Seq<char>>::empty());
                    assert(fortune_texts(l, Seq::empty()) =~= texts_of(result@) + fortune_texts(
                        l.skip(i + 1),
                        buffer.deep_view(),
                    ));
                }
            } else {
                proof {
                    assert(b_old =~= Seq::<Seq<char>>::empty());
                    assert(fortune_texts(l, Seq::empty()) =~= texts_of(result@) + fortune_texts(
                        l.skip(i + 1),
                        buffer.deep_view(),
                    ));
                }
            }
        } else {
            buffer.push(lines[i].clone());
            proof {
                assert(buffer.deep_view() =~= b_old.push(lines@[i as int]@));
                assert(fortune_texts(l, Seq::empty()) =~= texts_of(result@) + fortune_texts(
                    l.skip(i + 1),
                    buffer.deep_view(),
                ));
            }
        }
        i = i + 1;
    }
    proof {
        assert(lines.deep_view().skip(n as int) =~= Seq::<Seq<char>>::empty());
        assert(texts_of(result@) =~= texts_of(result@) + fortune_texts(
            lines.deep_view().skip(n as int),
            buffer.deep_view(),
        ));
    }
    result
}

/// Relies on rand's `SliceRandom::choose` with a `StdRng` seeded from
/// the given value: `None` exactly on an empty slice, otherwise the text
/// of one of its records.
#[verifier::external_body]
fn choose_seeded(fortunes: &Vec<Fortune>, seed: u64) -> (r: Option<String>)
    ensures
        (r is Some) == (fortunes@.len() > 0),
        r matches Some(t) ==> exists|i: int|
            0 <= i < fortunes@.len() && t@ == (#[trigger] fortunes@[i]).text@,
{
    let mut rng = rand::rngs::StdRng::seed_from_u64(seed);
    fortunes.choose(&mut rng).map(|f| f.text.clone())
}

/// Relies on rand's `SliceRandom::choose` with the thread's generator:
/// `None` exactly on an empty slice, otherwise the text of one record.
#[verifier::external_body]
fn choose_unseeded(fortunes: &Vec<Fortune>) -> (r: Option<String>)
    ensures
        (r is Some) == (fortunes@.len() > 0),
        r matches Some(t) ==> exists|i: int|
            0 <= i < fortunes@.len() && t@ == (#[trigger] fortunes@[i]).text@,
{
    let mut rng = rand::thread_rng();
    fortunes.choose(&mut rng).map(|f| f.text.clone())
}

/// Picks one record's text at random — reproducibly when a seed is
/// given — or nothing from an empty list.
pub fn pick_fortune(fortunes: &Vec<Fortune>, seed: Option<u64>) -> (r: Option<String>)
    ensures
        (r is Some) == (fortunes@.len() > 0),
        r matches Some(t) ==> exists|i: int|
            0 <= i < fortunes@.len() && t@ == (#[trigger] fortunes@[i]).text@,
{
    match seed {
        Some(seed_value) => choose_seeded(fortunes, seed_value),
        None => choose_unseeded(fortunes),
    }
}

} // verus!
