//! Frames of box-drawing characters around text.

use vstd::prelude::*;
use vstd::string::StringExecFns;
use crate::util::hyperstr::{strip_ansi, without_ansi, RESET};
use crate::util::text::{
    byte_width, push_chars, push_repeated, repeated, split, split_chars, string_of, to_chars,
    views, width_of,
};

verus! {

/// The width that a line takes in a frame: its length in bytes once the
/// escape codes are gone.
pub open spec fn shown_width(line: Seq<char>) -> usize {
    byte_width(without_ansi(line))
}

/// The horizontal edge of a frame around text of the given width.
pub open spec fn edge(width: usize) -> Seq<char> {
    repeated("─"@, (width + 2) as nat)
}

/// The top of a frame.
pub open spec fn top(width: usize, color: Seq<char>) -> Seq<char> {
    color + "╭"@ + edge(width) + "╮"@ + "\n"@
}

/// The bottom of a frame.
pub open spec fn bottom(width: usize) -> Seq<char> {
    "╰"@ + edge(width) + "╯"@
}

/// One framed line, padded with spaces to the width of the frame.
pub open spec fn row(line: Seq<char>, width: usize, color: Seq<char>) -> Seq<char> {
    "│ "@ + RESET@ + line + repeated(" "@, (width - shown_width(line)) as nat) + color + " │"@
        + "\n"@
}

/// The first `upto` lines, each framed.
pub open spec fn rows(lines: Seq<Seq<char>>, width: usize, color: Seq<char>, upto: int) -> Seq<
    char,
>
    decreases upto,
{
    if upto <= 0 || upto > lines.len() {
        Seq::empty()
    } else {
        rows(lines, width, color, upto - 1) + row(lines[upto - 1], width, color)
    }
}

/// The greatest width among the first `upto` lines.
pub open spec fn widest(lines: Seq<Seq<char>>, upto: int) -> usize
    decreases upto,
{
    if upto <= 0 || upto > lines.len() {
        0
    } else {
        let before = widest(lines, upto - 1);
        if shown_width(lines[upto - 1]) > before {
            shown_width(lines[upto - 1])
        } else {
            before
        }
    }
}

/// The frame around text of one line.
pub open spec fn framed_single(text: Seq<char>, color: Seq<char>) -> Seq<char> {
    let width = shown_width(text);
    top(width, color) + "│ "@ + RESET@ + text + color + " │"@ + "\n"@ + bottom(width)
}

/// The frame around text of several lines, as wide as the widest of them.
pub open spec fn framed_multi(text: Seq<char>, color: Seq<char>) -> Seq<char> {
    let lines = split(text, '\n');
    let width = widest(lines, lines.len() as int);
    top(width, color) + rows(lines, width, color, lines.len() as int) + bottom(width)
}

/// The width of the frame around a text.
pub open spec fn frame_width(text: Seq<char>) -> usize {
    let lines = split(text, '\n');
    if lines.len() == 1 {
        shown_width(text)
    } else {
        widest(lines, lines.len() as int)
    }
}

/// The frame around a text.
pub open spec fn framed(text: Seq<char>, color: Seq<char>) -> Seq<char> {
    if split(text, '\n').len() == 1 {
        framed_single(text, color)
    } else {
        framed_multi(text, color)
    }
}

proof fn lemma_widest_bounds(lines: Seq<Seq<char>>, upto: int, k: int)
    requires
        0 <= k < upto <= lines.len(),
    ensures
        shown_width(lines[k]) <= widest(lines, upto),
    decreases upto,
{
    if k < upto - 1 {
        lemma_widest_bounds(lines, upto - 1, k);
    }
}

/// The width of `line` in a frame.
fn measure(line: &Vec<char>) -> (w: usize)
    ensures
        w == shown_width(line@),
{
    let bare = string_of(&strip_ansi(line));
    width_of(bare.as_str())
}

/// Appends the top of a frame to `out`.
fn push_top(out: &mut String, width: usize, color: &str)
    requires
        width + 2 <= usize::MAX,
    ensures
        final(out)@ == old(out)@ + top(width, color@),
{
    let ghost before = out@;
    out.append(color);
    out.append("╭");
    push_repeated(out, "─", width + 2);
    out.append("╮");
    out.append("\n");
    assert(out@ == before + (color@ + "╭"@ + edge(width) + "╮"@ + "\n"@));
}

/// Appends the bottom of a frame to `out`.
fn push_bottom(out: &mut String, width: usize)
    requires
        width + 2 <= usize::MAX,
    ensures
        final(out)@ == old(out)@ + bottom(width),
{
    let ghost before = out@;
    out.append("╰");
    push_repeated(out, "─", width + 2);
    out.append("╯");
    assert(out@ == before + ("╰"@ + edge(width) + "╯"@));
}

fn single(text: &str, color: &str) -> (r: String)
    requires
        shown_width(text@) + 2 <= usize::MAX,
    ensures
        r@ == framed_single(text@, color@),
{
    let chars = to_chars(text);
    let width = measure(&chars);
    let mut output = String::new();
    push_top(&mut output, width, color);
    output.append("│ ");
    output.append(RESET);
    output.append(text);
    output.append(color);
    output.append(" │");
    output.append("\n");
    push_bottom(&mut output, width);
    assert(output@ == framed_single(text@, color@));
    output
}

fn multi(text: &str, color: &str) -> (r: String)
    requires
        widest(split(text@, '\n'), split(text@, '\n').len() as int) + 2 <= usize::MAX,
    ensures
        r@ == framed_multi(text@, color@),
{
    let chars = to_chars(text);
    let lines = split_chars(&chars, '\n');
    let ghost ls = split(text@, '\n');
    let mut width: usize = 0;
    let mut i: usize = 0;
    while i < lines.len()
        invariant
            i <= lines@.len(),
            views(lines@) == ls,
            width == widest(ls, i as int),
        decreases lines@.len() - i,
    {
        assert(ls[i as int] == lines@[i as int]@);
        let w = measure(&lines[i]);
        if w > width {
            width = w;
        }
        i += 1;
    }
    let mut output = String::new();
    push_top(&mut output, width, color);
    let ghost head = output@;
    let mut k: usize = 0;
    assert(head + rows(ls, width, color@, 0) == head);
    while k < lines.len()
        invariant
            k <= lines@.len(),
            views(lines@) == ls,
            width == widest(ls, ls.len() as int),
            output@ == head + rows(ls, width, color@, k as int),
        decreases lines@.len() - k,
    {
        assert(ls[k as int] == lines@[k as int]@);
        proof {
            lemma_widest_bounds(ls, ls.len() as int, k as int);
        }
        let ghost before = output@;
        let w = measure(&lines[k]);
        output.append("│ ");
        output.append(RESET);
        push_chars(&mut output, &lines[k]);
        push_repeated(&mut output, " ", width - w);
        output.append(color);
        output.append(" │");
        output.append("\n");
        assert(output@ == before + row(ls[k as int], width, color@));
        assert((head + rows(ls, width, color@, k as int)) + row(ls[k as int], width, color@)
            == head + rows(ls, width, color@, k + 1));
        k += 1;
    }
    push_bottom(&mut output, width);
    assert(output@ == framed_multi(text@, color@));
    output
}

/// Puts a frame in the colour `color` around `text`: around its one line, or
/// around its several lines, padded to the widest.
pub fn apply_border(text: &str, color: &str) -> (r: String)
    requires
        frame_width(text@) + 2 <= usize::MAX,
    ensures
        r@ == framed(text@, color@),
{
    let chars = to_chars(text);
    let lines = split_chars(&chars, '\n');
    assert(views(lines@).len() == lines@.len());
    if lines.len() == 1 {
        return single(text, color);
    }
    multi(text, color)
}

} // verus!
