//! The version of the kernel, read from the text in which the kernel
//! presents itself.

use vstd::prelude::*;
use crate::util::text::{lines, nth_word, split_lines, string_of, to_chars, views, word};

verus! {

/// The version of the kernel.
pub struct Version {
    pub version: String,
}

/// The last line of a text; nothing where the text has no line.
pub open spec fn last_line(text: Seq<char>) -> Seq<char> {
    if lines(text).len() > 0 {
        lines(text).last()
    } else {
        Seq::empty()
    }
}

/// The version that a text presents: the third word of its last line.
pub open spec fn presented(text: Seq<char>) -> Option<Seq<char>> {
    word(last_line(text), 2)
}

impl Version {
    /// The version that `proc_version` presents; nothing where its last
    /// line has fewer than three words.
    #[allow(dead_code)]
    pub fn gen(&mut self, proc_version: &str) -> (r: Option<Self>)
        ensures
            *final(self) == *old(self),
            match r {
                Some(v) => presented(proc_version@) == Some(v.version@),
                None => presented(proc_version@) is None,
            },
    {
        let all = split_lines(&to_chars(proc_version));
        let line: Vec<char> = if all.len() > 0 {
            assert(views(all@).last() == all@[all@.len() - 1]@);
            let last = &all[all.len() - 1];
            crate::util::text::slice(last, 0, last.len())
        } else {
            Vec::new()
        };
        assert(line@ =~= last_line(proc_version@));
        match nth_word(&line, 2) {
            Some(w) => Some(Version { version: string_of(&w) }),
            None => None,
        }
    }
}

} // verus!
