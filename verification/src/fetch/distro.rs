//! What is known of the distribution.

use vstd::prelude::*;
use crate::fetch::{first_piece, second_piece, two_pieces, FetchError};
use crate::util::text::{
    remove_char, same_text, split, split_chars, string_of, strip_blanks, to_chars, trim, views,
    without_char,
};

verus! {

/// The distribution, field by field.
pub struct DistroInfo<T> {
    pub name: T,
    pub pretty_name: T,
    pub build: T,
    pub id: T,
    pub architecture: T,
    pub kernel: T,
}

impl View for DistroInfo<String> {
    type V = DistroInfo<Seq<char>>;

    open spec fn view(&self) -> DistroInfo<Seq<char>> {
        DistroInfo {
            name: self.name@,
            pretty_name: self.pretty_name@,
            build: self.build@,
            id: self.id@,
            architecture: self.architecture@,
            kernel: self.kernel@,
        }
    }
}

impl DistroInfo<String> {
    /// Whether every field holds `text`.
    pub open spec fn all_are(&self, text: Seq<char>) -> bool {
        &&& self.name@ == text
        &&& self.pretty_name@ == text
        &&& self.build@ == text
        &&& self.id@ == text
        &&& self.architecture@ == text
        &&& self.kernel@ == text
    }

    /// A record with `text` in every field.
    pub fn filled(text: &str) -> (r: Self)
        ensures
            r.all_are(text@),
    {
        DistroInfo {
            name: text.to_owned(),
            pretty_name: text.to_owned(),
            build: text.to_owned(),
            id: text.to_owned(),
            architecture: text.to_owned(),
            kernel: text.to_owned(),
        }
    }
}

/// The distribution after one more line of its description was read, or
/// nothing where the line names a field and gives it no value. A line is a
/// key, `=`, and a value; the name and the pretty name lose their quotes,
/// the identity and the build lose the whitespace around them.
pub open spec fn described(d: DistroInfo<Seq<char>>, line: Seq<char>) -> Option<
    DistroInfo<Seq<char>>,
> {
    let key = first_piece(line, '=');
    let value = second_piece(line, '=');
    if key == "NAME"@ {
        match value {
            Some(v) => Some(DistroInfo { name: without_char(v, '"'), ..d }),
            None => None,
        }
    } else if key == "PRETTY_NAME"@ {
        match value {
            Some(v) => Some(DistroInfo { pretty_name: without_char(v, '"'), ..d }),
            None => None,
        }
    } else if key == "ID"@ {
        match value {
            Some(v) => Some(DistroInfo { id: trim(v), ..d }),
            None => None,
        }
    } else if key == "BUILD_ID"@ {
        match value {
            Some(v) => Some(DistroInfo { build: trim(v), ..d }),
            None => None,
        }
    } else {
        Some(d)
    }
}

/// The distribution after the lines from `i` on were read.
pub open spec fn described_by(d: DistroInfo<Seq<char>>, lines: Seq<Seq<char>>, i: int) -> Option<
    DistroInfo<Seq<char>>,
>
    decreases lines.len() - i,
{
    if i < 0 || i >= lines.len() {
        Some(d)
    } else {
        match described(d, lines[i]) {
            Some(next) => described_by(next, lines, i + 1),
            None => None,
        }
    }
}

/// Reads one line of the description.
fn describe(data: &mut DistroInfo<String>, line: &Vec<char>) -> (r: Result<(), FetchError>)
    ensures
        match described(old(data)@, line@) {
            Some(d) => r is Ok && final(data)@ == d,
            None => r == Err::<(), FetchError>(FetchError::MissingValue),
        },
{
    let (key, value) = two_pieces(line, '=');
    if same_text(&key, &to_chars("NAME")) {
        match value {
            Some(v) => {
                data.name = string_of(&remove_char(&v, '"'));
            },
            None => {
                return Err(FetchError::MissingValue);
            },
        }
    } else if same_text(&key, &to_chars("PRETTY_NAME")) {
        match value {
            Some(v) => {
                data.pretty_name = string_of(&remove_char(&v, '"'));
            },
            None => {
                return Err(FetchError::MissingValue);
            },
        }
    } else if same_text(&key, &to_chars("ID")) {
        match value {
            Some(v) => {
                data.id = string_of(&strip_blanks(&v, true));
            },
            None => {
                return Err(FetchError::MissingValue);
            },
        }
    } else if same_text(&key, &to_chars("BUILD_ID")) {
        match value {
            Some(v) => {
                data.build = string_of(&strip_blanks(&v, true));
            },
            None => {
                return Err(FetchError::MissingValue);
            },
        }
    }
    Ok(())
}

/// Records the distribution from the text that describes it, line by line,
/// and the kernel from the text of its release, trimmed. Where a line names
/// a field and gives no value the reading ends there.
pub fn distro(data: &mut DistroInfo<String>, os_release: &str, kernel_release: &str) -> (r:
    Result<(), FetchError>)
    ensures
        match described_by(old(data)@, split(os_release@, '\n'), 0) {
            Some(d) => r is Ok && final(data)@ == (DistroInfo {
                kernel: trim(kernel_release@),
                ..d
            }),
            None => r == Err::<(), FetchError>(FetchError::MissingValue),
        },
{
    let all = split_chars(&to_chars(os_release), '\n');
    let ghost lines = split(os_release@, '\n');
    let ghost goal = described_by(data@, lines, 0);
    let mut i: usize = 0;
    while i < all.len()
        invariant
            i <= all@.len(),
            views(all@) == lines,
            lines == split(os_release@, '\n'),
            goal == described_by(old(data)@, lines, 0),
            goal == described_by(data@, lines, i as int),
        decreases all@.len() - i,
    {
        assert(lines[i as int] == all@[i as int]@);
        match describe(data, &all[i]) {
            Ok(()) => {},
            Err(e) => {
                return Err(e);
            },
        }
        i += 1;
    }
    data.kernel = string_of(&strip_blanks(&to_chars(kernel_release), true));
    Ok(())
}

} // verus!
