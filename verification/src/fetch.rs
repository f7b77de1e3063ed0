//! The records that system data is collected into, and the reading of the
//! texts that the system describes itself in. The texts are handed in; this
//! module opens no file.

use vstd::prelude::*;
use crate::util::text::{has_at, matches_at, split, split_chars, views};

pub mod cpu;
pub mod distro;
pub mod memory;
pub mod packages;
pub mod shell;
pub mod terminal;
pub mod uptime;
pub mod user;

verus! {

/// Why a text could not be read.
#[derive(Clone, Copy, Debug, PartialEq, Eq, Structural)]
pub enum FetchError {
    /// A line names a field and gives it no value.
    MissingValue,
    /// A value that has to be a number is none.
    NotANumber,
}

/// Whether `s` begins with `prefix`.
pub open spec fn starts_with(s: Seq<char>, prefix: Seq<char>) -> bool {
    matches_at(s, prefix, 0)
}

/// The second of the pieces that `sep` parts `s` into.
pub open spec fn second_piece(s: Seq<char>, sep: char) -> Option<Seq<char>> {
    let pieces = split(s, sep);
    if pieces.len() > 1 {
        Some(pieces[1])
    } else {
        None
    }
}

/// The first of the pieces that `sep` parts `s` into.
pub open spec fn first_piece(s: Seq<char>, sep: char) -> Seq<char> {
    split(s, sep)[0]
}

/// Whether `s` begins with `prefix`.
pub fn begins_with(s: &Vec<char>, prefix: &Vec<char>) -> (r: bool)
    ensures
        r == starts_with(s@, prefix@),
{
    has_at(s, prefix, 0)
}

/// The first two of the pieces that `sep` parts `s` into.
pub fn two_pieces(s: &Vec<char>, sep: char) -> (r: (Vec<char>, Option<Vec<char>>))
    ensures
        r.0@ == first_piece(s@, sep),
        match r.1 {
            Some(piece) => second_piece(s@, sep) == Some(piece@),
            None => second_piece(s@, sep) is None,
        },
{
    let mut pieces = split_chars(s, sep);
    assert(views(pieces@)[0] == pieces@[0]@);
    if pieces.len() > 1 {
        assert(views(pieces@)[1] == pieces@[1]@);
        let second = pieces.swap_remove(1);
        let first = pieces.swap_remove(0);
        (first, Some(second))
    } else {
        let first = pieces.swap_remove(0);
        (first, None)
    }
}

} // verus!
