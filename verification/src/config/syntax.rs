//! The line grammar of configuration text, as a state machine over lines.
//!
//! The reader keeps a document, the current section and the current key. Each
//! line is cut at the comment character and trimmed; what is left is nothing,
//! a section header, a continuation of the current key's value, a key with a
//! value, or a bare key.

use vstd::prelude::*;
use crate::config::document::{lookup, with_slot, DocumentView};
use crate::util::text::{find_char, is_whitespace, lines, rfind_char, trim};

verus! {

/// Why configuration text was refused, with the number of the offending line,
/// counted from one.
#[derive(Clone, Copy, Debug, PartialEq, Eq, Structural)]
pub enum ConfigSyntaxError {
    /// A line opens a section header and never closes it.
    MissingClosingBracket(usize),
    /// A continuation line stands before any key.
    MissingKeyForContinuation(usize),
    /// Nothing stands before the delimiter.
    EmptyKey(usize),
}

/// The characters that shape the grammar.
pub struct Syntax {
    /// Starts a comment, wherever it stands in a line.
    pub comment: char,
    /// Parts a key from its value.
    pub delimiter: char,
    /// Joins the lines of a continued value.
    pub separator: Seq<char>,
}

/// What the reader knows between two lines.
pub struct ReaderState {
    pub doc: DocumentView,
    pub section: Seq<char>,
    pub key: Option<Seq<char>>,
}

/// The line up to the first comment character.
pub open spec fn before_comment(raw: Seq<char>, comment: char) -> Seq<char> {
    raw.subrange(0, find_char(raw, comment, 0))
}

/// Whether a trimmed, non-empty line opens a section header.
pub open spec fn opens_header(line: Seq<char>) -> bool {
    line.len() > 0 && line[0] == '['
}

/// The name in a section header: what stands between the opening bracket and
/// the last closing bracket, trimmed.
pub open spec fn header_name(line: Seq<char>) -> Seq<char> {
    trim(line.subrange(1, rfind_char(line, ']', line.len() as int)))
}

/// The text that a continuation line is appended to: the value that the key
/// has in the section, or nothing where it has none.
pub open spec fn continued_text(doc: DocumentView, section: Seq<char>, key: Seq<char>) -> Seq<
    char,
> {
    match lookup(doc, section, key) {
        Ok(text) => text,
        Err(_) => Seq::empty(),
    }
}

/// The reader's state after one more line, or the error that the line raises.
pub open spec fn step(st: ReaderState, raw: Seq<char>, number: usize, syn: Syntax) -> Result<
    ReaderState,
    ConfigSyntaxError,
> {
    let cut = before_comment(raw, syn.comment);
    let line = trim(cut);
    if line.len() == 0 {
        Ok(st)
    } else if opens_header(line) {
        if rfind_char(line, ']', line.len() as int) >= 0 {
            Ok(ReaderState { section: header_name(line), ..st })
        } else {
            Err(ConfigSyntaxError::MissingClosingBracket(number))
        }
    } else if is_whitespace(cut[0]) {
        match st.key {
            None => Err(ConfigSyntaxError::MissingKeyForContinuation(number)),
            Some(key) => Ok(
                ReaderState {
                    doc: with_slot(
                        st.doc,
                        st.section,
                        key,
                        Some(continued_text(st.doc, st.section, key) + syn.separator + line),
                    ),
                    ..st
                },
            ),
        }
    } else {
        let at = find_char(line, syn.delimiter, 0);
        if at < line.len() {
            let key = trim(line.subrange(0, at));
            let value = trim(line.subrange(at + 1, line.len() as int));
            if key.len() == 0 {
                Err(ConfigSyntaxError::EmptyKey(number))
            } else {
                Ok(
                    ReaderState {
                        doc: with_slot(st.doc, st.section, key, Some(value)),
                        section: st.section,
                        key: Some(key),
                    },
                )
            }
        } else {
            Ok(
                ReaderState {
                    doc: with_slot(st.doc, st.section, line, None),
                    section: st.section,
                    key: Some(line),
                },
            )
        }
    }
}

/// The reader's state after the lines from `i` on, or the first error.
pub open spec fn run(lines: Seq<Seq<char>>, i: int, st: ReaderState, syn: Syntax) -> Result<
    ReaderState,
    ConfigSyntaxError,
>
    decreases lines.len() - i,
{
    if i < 0 || i >= lines.len() || i >= usize::MAX {
        Ok(st)
    } else {
        match step(st, lines[i], (i + 1) as usize, syn) {
            Ok(next) => run(lines, i + 1, next, syn),
            Err(e) => Err(e),
        }
    }
}

/// The state that reading starts in: no sections, no key, and the default
/// section current.
pub open spec fn start_state(default_section: Seq<char>) -> ReaderState {
    ReaderState { doc: Map::empty(), section: default_section, key: None }
}

/// The document that `text` describes, or the first error in it.
pub open spec fn parse_text(text: Seq<char>, syn: Syntax, default_section: Seq<char>) -> Result<
    DocumentView,
    ConfigSyntaxError,
> {
    match run(lines(text), 0, start_state(default_section), syn) {
        Ok(st) => Ok(st.doc),
        Err(e) => Err(e),
    }
}

} // verus!
