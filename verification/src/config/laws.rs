//! What holds of every document and every line: reading back what was
//! written, and reading a key with a quoted value.

use vstd::prelude::*;
use crate::config::document::{has_slot, lookup, with_slot, ConfigLookupError, DocumentView};
use crate::config::helio::text_of;
use crate::config::syntax::{
    before_comment, parse_text, run, start_state, step, ConfigSyntaxError, ReaderState, Syntax,
};
use crate::util::text::{
    find_char, is_whitespace, lemma_find_char_absent, lemma_find_char_bounds,
    lemma_find_char_first, lemma_rfind_char_bounds, lemma_strip_fixed,
    lemma_without_char_concat, lemma_without_char_idempotent, lines, skip_blank,
    skip_blank_back, trim, without_char,
};

verus! {

/// A key that was given a value reads as that value without its double
/// quotes, whatever the document held before.
pub proof fn lemma_read_after_write(
    doc: DocumentView,
    section: Seq<char>,
    key: Seq<char>,
    text: Seq<char>,
)
    ensures
        text_of(with_slot(doc, section, key, Some(text)), section, key) == Ok::<
            Seq<char>,
            ConfigLookupError,
        >(without_char(text, '"')),
{
}

/// Writing a key leaves every other key as it was, and every other section.
pub proof fn lemma_write_keeps_others(
    doc: DocumentView,
    section: Seq<char>,
    key: Seq<char>,
    slot: Option<Seq<char>>,
    other_section: Seq<char>,
    other_key: Seq<char>,
)
    requires
        !(other_section == section && other_key == key),
    ensures
        has_slot(doc, other_section, other_key) ==> lookup(
            with_slot(doc, section, key, slot),
            other_section,
            other_key,
        ) == lookup(doc, other_section, other_key),
        other_section != section ==> lookup(
            with_slot(doc, section, key, slot),
            other_section,
            other_key,
        ) == lookup(doc, other_section, other_key),
{
}

/// Reading a value, writing it back under the same key and reading again
/// gives the same text: once the quotes are gone there are none to remove.
pub proof fn lemma_read_write_read(
    doc: DocumentView,
    section: Seq<char>,
    key: Seq<char>,
    text: Seq<char>,
)
    requires
        text_of(doc, section, key) == Ok::<Seq<char>, ConfigLookupError>(text),
    ensures
        text_of(with_slot(doc, section, key, Some(text)), section, key) == Ok::<
            Seq<char>,
            ConfigLookupError,
        >(text),
{
    let stored = lookup(doc, section, key)->Ok_0;
    lemma_without_char_idempotent(stored, '"');
}

/// The line `key = "value"`, written with the delimiter of the grammar.
pub open spec fn quoted_line(key: Seq<char>, value: Seq<char>, delimiter: char) -> Seq<char> {
    key + seq![' ', delimiter, ' ', '"'] + value + seq!['"']
}

/// A key that a line can start with: not empty, no blank at either end, no
/// opening bracket in front, and none of the characters that end a key or a
/// line.
pub open spec fn plain_key(key: Seq<char>, syn: Syntax) -> bool {
    &&& key.len() > 0
    &&& key[0] != '['
    &&& !is_whitespace(key[0])
    &&& !is_whitespace(key.last())
    &&& forall|i: int|
        0 <= i < key.len() ==> key[i] != syn.comment && key[i] != syn.delimiter && key[i] != '\n'
}

/// A value that fits on a line: it holds neither the comment character nor a
/// line feed.
pub open spec fn plain_value(value: Seq<char>, syn: Syntax) -> bool {
    forall|i: int| 0 <= i < value.len() ==> value[i] != syn.comment && value[i] != '\n'
}

/// A grammar whose comment character and delimiter are neither the space, the
/// double quote, the line feed, nor each other.
pub open spec fn plain_syntax(syn: Syntax) -> bool {
    &&& syn.comment != syn.delimiter
    &&& syn.comment != ' ' && syn.comment != '"' && syn.comment != '\n'
    &&& syn.delimiter != ' ' && syn.delimiter != '\n'
}

/// Wherever the line `key = "value"` is read, the key then reads, in the
/// section that was current, as the value with its own quotes removed.
pub proof fn lemma_quoted_line_step(
    st: ReaderState,
    key: Seq<char>,
    value: Seq<char>,
    number: usize,
    syn: Syntax,
)
    requires
        plain_syntax(syn),
        plain_key(key, syn),
        plain_value(value, syn),
    ensures
        step(st, quoted_line(key, value, syn.delimiter), number, syn) == Ok::<ReaderState, ConfigSyntaxError>(
            ReaderState {
                doc: with_slot(st.doc, st.section, key, Some(seq!['"'] + value + seq!['"'])),
                section: st.section,
                key: Some(key),
            },
        ),
        text_of(
            with_slot(st.doc, st.section, key, Some(seq!['"'] + value + seq!['"'])),
            st.section,
            key,
        ) == Ok::<Seq<char>, ConfigLookupError>(without_char(value, '"')),
{
    let d = syn.delimiter;
    let raw = quoted_line(key, value, d);
    let n = raw.len() as int;
    let k = key.len() as int;
    let quoted = seq!['"'] + value + seq!['"'];
    assert(n == k + 4 + value.len() + 1);
    assert forall|i: int| 0 <= i < n implies raw[i] != syn.comment by {
        if i < k {
            assert(raw[i] == key[i]);
        } else if i < k + 4 {
        } else if i < k + 4 + value.len() {
            assert(raw[i] == value[i - k - 4]);
        }
    }
    lemma_find_char_absent(raw, syn.comment);
    assert(before_comment(raw, syn.comment) == raw);
    assert(raw[0] == key[0]);
    assert(raw.last() == '"');
    lemma_strip_fixed(raw, true);
    assert(trim(raw) == raw);
    assert forall|i: int| 0 <= i < k + 1 implies raw[i] != d by {
        if i < k {
            assert(raw[i] == key[i]);
        }
    }
    assert(raw[k + 1] == d);
    lemma_find_char_first(raw, d, k + 1);
    let left = raw.subrange(0, k + 1);
    assert(left == key.push(' '));
    assert(left[0] == key[0]);
    assert(left.last() == ' ');
    assert(left[k - 1] == key.last());
    assert(skip_blank_back(left, k + 1, true) == skip_blank_back(left, k, true));
    assert(left.subrange(0, k) == key);
    assert(trim(left) == key);
    let right = raw.subrange(k + 2, n);
    assert(right == seq![' '] + quoted);
    assert(right[0] == ' ');
    assert(right[1] == '"');
    assert(right.last() == '"');
    assert(skip_blank(right, 0, true) == skip_blank(right, 1, true));
    assert(right.subrange(1, right.len() as int) == quoted);
    assert(trim(right) == quoted);
    lemma_without_char_concat(seq!['"'] + value, seq!['"'], '"');
    lemma_without_char_concat(seq!['"'], value, '"');
    let quote = seq!['"'];
    assert(quote.last() == '"');
    assert(quote.drop_last() == Seq::<char>::empty());
    assert(without_char(quote.drop_last(), '"') == Seq::<char>::empty());
    assert(without_char(quote, '"') == Seq::<char>::empty());
    assert(Seq::<char>::empty() + without_char(value, '"') + Seq::<char>::empty() == without_char(
        value,
        '"',
    ));
}

/// Text that is the one line `key = "value"` describes a document in which
/// the key reads, in the default section, as the value with its own quotes
/// removed.
pub proof fn lemma_quoted_line_document(
    key: Seq<char>,
    value: Seq<char>,
    syn: Syntax,
    default_section: Seq<char>,
)
    requires
        plain_syntax(syn),
        plain_key(key, syn),
        plain_value(value, syn),
    ensures
        parse_text(quoted_line(key, value, syn.delimiter), syn, default_section) matches Ok(doc)
            && text_of(doc, default_section, key) == Ok::<Seq<char>, ConfigLookupError>(
            without_char(value, '"'),
        ),
{
    let raw = quoted_line(key, value, syn.delimiter);
    let n = raw.len() as int;
    let k = key.len() as int;
    assert forall|i: int| 0 <= i < n implies raw[i] != '\n' by {
        if i < k {
            assert(raw[i] == key[i]);
        } else if i < k + 4 {
        } else if i < k + 4 + value.len() {
            assert(raw[i] == value[i - k - 4]);
        }
    }
    lemma_find_char_absent(raw, '\n');
    assert(raw.subrange(0, n) == raw);
    assert(lines(raw) == seq![raw]);
    let st = start_state(default_section);
    lemma_quoted_line_step(st, key, value, 1, syn);
    let next = step(st, raw, 1, syn)->Ok_0;
    assert(run(seq![raw], 1, next, syn) == Ok::<ReaderState, ConfigSyntaxError>(next));
    assert(run(seq![raw], 0, st, syn) == run(seq![raw], 1, next, syn));
}

/// A line that is a key and nothing else declares the key without a value:
/// the key then reads as having none.
pub proof fn lemma_bare_key_step(st: ReaderState, key: Seq<char>, number: usize, syn: Syntax)
    requires
        plain_key(key, syn),
    ensures
        step(st, key, number, syn) == Ok::<ReaderState, ConfigSyntaxError>(
            ReaderState {
                doc: with_slot(st.doc, st.section, key, None),
                section: st.section,
                key: Some(key),
            },
        ),
        text_of(with_slot(st.doc, st.section, key, None), st.section, key) == Err::<
            Seq<char>,
            ConfigLookupError,
        >(ConfigLookupError::KeyHasNoValue),
{
    lemma_find_char_absent(key, syn.comment);
    assert(before_comment(key, syn.comment) == key);
    lemma_strip_fixed(key, true);
    lemma_find_char_absent(key, syn.delimiter);
}

/// A line that starts with whitespace continues the value of the current
/// key: its trimmed text is appended, behind the separator.
pub proof fn lemma_continuation_step(
    st: ReaderState,
    raw: Seq<char>,
    number: usize,
    syn: Syntax,
    key: Seq<char>,
    value: Seq<char>,
)
    requires
        st.key == Some(key),
        lookup(st.doc, st.section, key) == Ok::<Seq<char>, ConfigLookupError>(value),
        raw.len() > 0,
        is_whitespace(raw[0]),
        raw[0] != syn.comment,
        trim(before_comment(raw, syn.comment)).len() > 0,
        trim(before_comment(raw, syn.comment))[0] != '[',
    ensures
        step(st, raw, number, syn) == Ok::<ReaderState, ConfigSyntaxError>(
            ReaderState {
                doc: with_slot(
                    st.doc,
                    st.section,
                    key,
                    Some(value + syn.separator + trim(before_comment(raw, syn.comment))),
                ),
                ..st
            },
        ),
{
    assert(find_char(raw, syn.comment, 0) == find_char(raw, syn.comment, 1));
    lemma_find_char_bounds(raw, syn.comment, 1);
    assert(before_comment(raw, syn.comment)[0] == raw[0]);
}

/// A section header that is never closed is refused, with the number of its
/// line.
pub proof fn lemma_unclosed_header_step(
    st: ReaderState,
    raw: Seq<char>,
    number: usize,
    syn: Syntax,
)
    requires
        trim(before_comment(raw, syn.comment)).len() > 0,
        trim(before_comment(raw, syn.comment))[0] == '[',
        forall|i: int|
            0 <= i < trim(before_comment(raw, syn.comment)).len() ==> trim(
                before_comment(raw, syn.comment),
            )[i] != ']',
    ensures
        step(st, raw, number, syn) == Err::<ReaderState, ConfigSyntaxError>(
            ConfigSyntaxError::MissingClosingBracket(number),
        ),
{
    let line = trim(before_comment(raw, syn.comment));
    lemma_rfind_char_bounds(line, ']', line.len() as int);
}

/// The first line that is refused ends the reading: its error is the error
/// of the whole text, whatever follows.
pub proof fn lemma_first_error_wins(
    all: Seq<Seq<char>>,
    i: int,
    st: ReaderState,
    syn: Syntax,
    e: ConfigSyntaxError,
)
    requires
        0 <= i < all.len(),
        i < usize::MAX,
        step(st, all[i], (i + 1) as usize, syn) == Err::<ReaderState, ConfigSyntaxError>(e),
    ensures
        run(all, i, st, syn) == Err::<ReaderState, ConfigSyntaxError>(e),
{
}

} // verus!
