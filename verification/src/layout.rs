//! The steps between the fetch text and the columns: gaps, centring, case
//! regions, and the filling of lines to a common width.

use vstd::prelude::*;
use vstd::string::StringExecFns;
use crate::util::hyperstr::{strip_ansi, without_ansi};
use crate::util::text::{
    contains_sub, has_sub, piece_after, piece_before, pieces_around, push_chars, push_repeated,
    remove_all, remove_char, remove_pattern, repeated, replace_all, replace_pattern, string_of,
    to_chars, views, without_char,
};
use crate::variable::creator::{fold_case, Creator, LOWER, UPPER};
use crate::variable::iterator::tokenize;

verus! {

/// A line of the fetch text with the gap that parts it from the art: the gap
/// in front, or behind where text and art change sides.
pub open spec fn with_gap(module: Seq<char>, gap: Seq<char>, reverse: bool) -> Seq<char> {
    if reverse {
        module + gap
    } else {
        gap + module
    }
}

/// A line of the fetch text with its gap.
pub fn gapped(module: &str, gap: &str, reverse: bool) -> (r: String)
    ensures
        r@ == with_gap(module@, gap@, reverse),
{
    let mut r = String::new();
    if reverse {
        r.append(module);
        r.append(gap);
    } else {
        r.append(gap);
        r.append(module);
    }
    assert(Seq::<char>::empty() + module@ + gap@ == module@ + gap@);
    assert(Seq::<char>::empty() + gap@ + module@ == gap@ + module@);
    r
}

/// The number of empty lines that centre text of `fetch_lines` lines beside
/// art of `art_lines` lines: half the difference where centring is wanted
/// and the art is longer, none otherwise.
pub open spec fn lead_count(center: bool, art_lines: usize, fetch_lines: usize) -> nat {
    if center && art_lines > fetch_lines {
        ((art_lines - fetch_lines) / 2) as nat
    } else {
        0
    }
}

/// The empty lines that centre the text beside the art.
pub fn lead(center: bool, art_lines: usize, fetch_lines: usize) -> (r: String)
    ensures
        r@ == repeated("\n"@, lead_count(center, art_lines, fetch_lines)),
{
    let mut r = String::new();
    if center && art_lines > fetch_lines {
        push_repeated(&mut r, "\n", (art_lines - fetch_lines) / 2);
    }
    assert(Seq::<char>::empty() + repeated(
        "\n"@,
        lead_count(center, art_lines, fetch_lines),
    ) == repeated("\n"@, lead_count(center, art_lines, fetch_lines)));
    r
}

/// The marker of a case region: the pattern with the letter in the place of
/// `{letter}`, without double quotes.
pub open spec fn marker(pattern: Seq<char>, letter: Seq<char>) -> Seq<char> {
    without_char(replace_all(pattern, "{letter}"@, letter), '"')
}

/// The marker of a case region.
pub fn case_marker(pattern: &str, letter: &str) -> (r: String)
    ensures
        r@ == marker(pattern@, letter@),
{
    let put = replace_pattern(&to_chars(pattern), &to_chars("{letter}"), &to_chars(letter));
    string_of(&remove_char(&put, '"'))
}

/// The text after both case passes: first the regions between the upper
/// markers are folded to upper case, then in the result the regions between
/// the lower markers to lower case.
pub open spec fn folded_regions(
    text: Seq<char>,
    upper_start: Seq<char>,
    upper_end: Seq<char>,
    lower_start: Seq<char>,
    lower_end: Seq<char>,
) -> Seq<char> {
    fold_case(
        tokenize(fold_case(tokenize(text, upper_start, upper_end), UPPER), lower_start, lower_end),
        LOWER,
    )
}

/// Folds the case regions of `text`.
pub fn fold_regions(
    text: &str,
    upper_start: &str,
    upper_end: &str,
    lower_start: &str,
    lower_end: &str,
) -> (r: String)
    requires
        upper_start@.len() > 0,
        upper_end@.len() > 0,
        lower_start@.len() > 0,
        lower_end@.len() > 0,
    ensures
        r@ == folded_regions(text@, upper_start@, upper_end@, lower_start@, lower_end@),
{
    let upper = Creator::init(text, upper_start, upper_end).process_case(UPPER).unwrap();
    Creator::init(upper.as_str(), lower_start, lower_end).process_case(LOWER).unwrap()
}

/// The mark behind which a line is filled up.
pub open spec fn fill_mark() -> Seq<char> {
    "{FILL}"@
}

/// The mark of a line that is filled up and not measured.
pub open spec fn ignore_mark() -> Seq<char> {
    "{IGNORE}"@
}

/// Whether a line sets the width that lines are filled to: it has a fill
/// mark and no ignore mark.
pub open spec fn is_measured(line: Seq<char>) -> bool {
    contains_sub(line, fill_mark()) && !contains_sub(line, ignore_mark())
}

/// Whether a line is filled up: it has one of the two marks.
pub open spec fn is_marked(line: Seq<char>) -> bool {
    contains_sub(line, fill_mark()) || contains_sub(line, ignore_mark())
}

/// The part of a line that is measured: what stands before the fill mark,
/// without escape codes.
pub open spec fn head(line: Seq<char>) -> Seq<char> {
    without_ansi(piece_before(line, fill_mark()))
}

/// The greatest width among the measured lines of the first `upto`, given
/// the width of each line's head.
pub open spec fn longest(lines: Seq<Seq<char>>, widths: Seq<usize>, upto: int) -> usize
    decreases upto,
{
    if upto <= 0 || upto > lines.len() || upto > widths.len() {
        0
    } else {
        let before = longest(lines, widths, upto - 1);
        if is_measured(lines[upto - 1]) && widths[upto - 1] > before {
            widths[upto - 1]
        } else {
            before
        }
    }
}

/// A line after filling: a marked line is what stands before its fill mark,
/// spaces up to the width `to`, and what stands between that mark and the
/// next, all without ignore marks; any other line is itself.
pub open spec fn filled(line: Seq<char>, width: usize, to: usize) -> Seq<char> {
    if is_marked(line) {
        remove_all(
            piece_before(line, fill_mark()) + repeated(
                " "@,
                if width < to {
                    (to - width) as nat
                } else {
                    0
                },
            ) + piece_after(line, fill_mark()),
            ignore_mark(),
        )
    } else {
        line
    }
}

/// The lines after filling, given the width of each line's head.
pub open spec fn filled_lines(lines: Seq<Seq<char>>, widths: Seq<usize>) -> Seq<Seq<char>> {
    Seq::new(
        lines.len(),
        |i: int| filled(lines[i], widths[i], longest(lines, widths, lines.len() as int)),
    )
}

/// The part of a line that is measured.
pub fn fill_head(line: &str) -> (r: String)
    ensures
        r@ == head(line@),
{
    let (before, _) = pieces_around(&to_chars(line), &to_chars("{FILL}"));
    string_of(&strip_ansi(&before))
}

/// Fills the marked lines up to the width of the widest measured line.
/// `widths` gives for each line the width of its head on the screen.
pub fn fill(lines: &Vec<String>, widths: &Vec<usize>) -> (r: Vec<String>)
    requires
        widths@.len() == lines@.len(),
    ensures
        views(r@) == filled_lines(views(lines@), widths@),
{
    let ghost all = views(lines@);
    let fill_mark_chars = to_chars("{FILL}");
    let ignore_mark_chars = to_chars("{IGNORE}");
    let mut to: usize = 0;
    let mut i: usize = 0;
    while i < lines.len()
        invariant
            i <= lines@.len() == widths@.len(),
            all == views(lines@),
            fill_mark_chars@ == fill_mark(),
            ignore_mark_chars@ == ignore_mark(),
            to == longest(all, widths@, i as int),
        decreases lines@.len() - i,
    {
        assert(all[i as int] == lines@[i as int]@);
        let line = to_chars(lines[i].as_str());
        if has_sub(&line, &fill_mark_chars) && !has_sub(&line, &ignore_mark_chars) {
            if widths[i] > to {
                to = widths[i];
            }
        }
        i += 1;
    }
    let mut r: Vec<String> = Vec::new();
    let mut k: usize = 0;
    while k < lines.len()
        invariant
            k <= lines@.len() == widths@.len(),
            all == views(lines@),
            fill_mark_chars@ == fill_mark(),
            ignore_mark_chars@ == ignore_mark(),
            to == longest(all, widths@, all.len() as int),
            r@.len() == k,
            forall|j: int| 0 <= j < k ==> (#[trigger] r@[j])@ == filled(all[j], widths@[j], to),
        decreases lines@.len() - k,
    {
        assert(all[k as int] == lines@[k as int]@);
        let line = to_chars(lines[k].as_str());
        if has_sub(&line, &fill_mark_chars) || has_sub(&line, &ignore_mark_chars) {
            let (before, after) = pieces_around(&line, &fill_mark_chars);
            let mut output = String::new();
            push_chars(&mut output, &before);
            let pad: usize = if widths[k] < to {
                to - widths[k]
            } else {
                0
            };
            push_repeated(&mut output, " ", pad);
            push_chars(&mut output, &after);
            assert(output@ == before@ + repeated(" "@, pad as nat) + after@);
            let bare = remove_pattern(&to_chars(output.as_str()), &ignore_mark_chars);
            r.push(string_of(&bare));
        } else {
            r.push(lines[k].clone());
        }
        k += 1;
    }
    assert(views(r@) =~= filled_lines(all, widths@));
    r
}

} // verus!
