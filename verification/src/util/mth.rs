//! Small conversions.

use vstd::prelude::*;
use crate::util::text::{split, split_chars, string_of, to_chars, views};

verus! {

/// The pieces of a text between its line feeds, each as a string of its own:
/// one more piece than there are line feeds.
pub fn to_vector(map: String) -> (r: Vec<String>)
    ensures
        views(r@) == split(map@, '\n'),
{
    let chars = to_chars(map.as_str());
    let pieces = split_chars(&chars, '\n');
    let mut r: Vec<String> = Vec::new();
    let mut i: usize = 0;
    while i < pieces.len()
        invariant
            i <= pieces@.len(),
            r@.len() == i,
            forall|j: int| 0 <= j < i ==> (#[trigger] r@[j])@ == pieces@[j]@,
        decreases pieces@.len() - i,
    {
        r.push(string_of(&pieces[i]));
        i += 1;
    }
    assert(views(r@) =~= views(pieces@));
    r
}

} // verus!
