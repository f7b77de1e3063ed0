//! What is known of the terminal.

use vstd::prelude::*;
use crate::util::numeral::{parse_i32, read_i32};
use crate::util::text::{
    find_char, find_sub, index_of, index_of_sub, nth_word, remove_char, slice, string_of,
    to_chars, without_char, word,
};

verus! {

/// The terminal and its version.
pub struct TerminalInfo<T> {
    pub terminal: T,
    pub terminal_version: T,
}

impl View for TerminalInfo<String> {
    type V = TerminalInfo<Seq<char>>;

    open spec fn view(&self) -> TerminalInfo<Seq<char>> {
        TerminalInfo {
            terminal: self.terminal@,
            terminal_version: self.terminal_version@,
        }
    }
}

impl TerminalInfo<String> {
    /// Whether every field holds `text`.
    pub open spec fn all_are(&self, text: Seq<char>) -> bool {
        &&& self.terminal@ == text
        &&& self.terminal_version@ == text
    }

    /// A record with `text` in every field.
    pub fn filled(text: &str) -> (r: Self)
        ensures
            r.all_are(text@),
    {
        TerminalInfo {
            terminal: text.to_owned(),
            terminal_version: text.to_owned(),
        }
    }
}

/// Whether a process is the shell, or part of its name: whether the name of
/// the shell holds the name of the process, taken without line feeds.
pub open spec fn is_shell(shell: Seq<char>, process: Seq<char>) -> bool {
    find_sub(shell, without_char(process, '\n'), 0) >= 0
}

/// Whether the search for the terminal goes on to the parent of `process`.
pub fn names_shell(shell: &str, process: &str) -> (r: bool)
    ensures
        r == is_shell(shell@, process@),
{
    let name = remove_char(&to_chars(process), '\n');
    index_of_sub(&to_chars(shell), &name, 0).is_some()
}

/// Records the terminal: the name of its process without line feeds.
pub fn terminal(data: &mut TerminalInfo<String>, process: &str)
    ensures
        final(data)@ == (TerminalInfo { terminal: without_char(process@, '\n'), ..old(data)@ }),
{
    data.terminal = string_of(&remove_char(&to_chars(process), '\n'));
}

/// The first line of a text, its line feed included.
pub open spec fn first_line(text: Seq<char>) -> Seq<char> {
    let at = find_char(text, '\n', 0);
    if 0 <= at < text.len() {
        text.subrange(0, at + 1)
    } else {
        text
    }
}

/// The parent that the status of a process names: the fourth word of its
/// first line, read as a number.
pub open spec fn parent(stat: Seq<char>) -> Option<i32> {
    match word(first_line(stat), 3) {
        Some(w) => parse_i32(w),
        None => None,
    }
}

/// The parent that the status of a process names; nothing where the first
/// line has no fourth word or that word is no number.
pub fn get_parent(stat: &str) -> (r: Option<i32>)
    ensures
        r == parent(stat@),
{
    let chars = to_chars(stat);
    let line = match index_of(&chars, '\n', 0) {
        Some(at) => slice(&chars, 0, at + 1),
        None => {
            assert(chars@.subrange(0, chars@.len() as int) == chars@);
            slice(&chars, 0, chars.len())
        },
    };
    match nth_word(&line, 3) {
        Some(w) => read_i32(&w),
        None => None,
    }
}

} // verus!
