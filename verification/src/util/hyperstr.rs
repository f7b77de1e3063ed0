//! Terminal colours: the escape codes, their names for templates, and the
//! removal of the codes from text that is to be measured.

use vstd::prelude::*;
use vstd::string::StringExecFns;
use crate::util::text::{
    push_repeated, remove_all, remove_pattern, repeated, slice, string_of, to_chars, views,
};
use crate::variable::symbols::SymbolTable;

verus! {

/// Black text.
pub const BLACK: &'static str = "\x1b[30m";

/// Red text.
pub const RED: &'static str = "\x1b[31m";

/// Green text.
pub const GREEN: &'static str = "\x1b[32m";

/// Yellow text.
pub const YELLOW: &'static str = "\x1b[33m";

/// Blue text.
pub const BLUE: &'static str = "\x1b[34m";

/// Magenta text.
pub const MAGENTA: &'static str = "\x1b[35m";

/// Cyan text.
pub const CYAN: &'static str = "\x1b[36m";

/// White text.
pub const WHITE: &'static str = "\x1b[37m";

/// Back to the terminal's own style.
pub const RESET: &'static str = "\x1b[0m";

/// Bold text.
pub const BOLD: &'static str = "\x1b[1m";

/// Italic text.
pub const ITALIC: &'static str = "\x1b[3m";

/// Underlined text.
pub const UNDERLINE: &'static str = "\x1b[4m";

/// Blinking text.
pub const BLINK: &'static str = "\x1b[5m";

/// Text and background exchanged.
pub const REVERSE: &'static str = "\x1b[7m";

/// Invisible text.
pub const HIDDEN: &'static str = "\x1b[8m";

/// Crossed-out text.
pub const CROSSED: &'static str = "\x1b[9m";

/// Gray text.
pub const GRAY: &'static str = "\x1b[90m";

/// Light red text.
pub const LIGHT_RED: &'static str = "\x1b[91m";

/// Light green text.
pub const LIGHT_GREEN: &'static str = "\x1b[92m";

/// Light yellow text.
pub const LIGHT_YELLOW: &'static str = "\x1b[93m";

/// Light blue text.
pub const LIGHT_BLUE: &'static str = "\x1b[94m";

/// Light magenta text.
pub const LIGHT_MAGENTA: &'static str = "\x1b[95m";

/// Light cyan text.
pub const LIGHT_CYAN: &'static str = "\x1b[96m";

/// Light gray text.
pub const LIGHT_GRAY: &'static str = "\x1b[97m";

/// The line separator.
pub const N: &'static str = "\n";

/// The colour symbols: each name with its escape code. Where a name is given
/// twice the later code stands, so `R` reverses.
pub open spec fn color_symbols() -> Map<Seq<char>, Seq<char>> {
    Map::<Seq<char>, Seq<char>>::empty().insert("BLACK"@, BLACK@).insert("RED"@, RED@).insert(
        "GREEN"@,
        GREEN@,
    ).insert("YELLOW"@, YELLOW@).insert("BLUE"@, BLUE@).insert("MAGENTA"@, MAGENTA@).insert(
        "CYAN"@,
        CYAN@,
    ).insert("WHITE"@, WHITE@).insert("GRAY"@, GRAY@).insert("LIGHT_RED"@, LIGHT_RED@).insert(
        "LIGHT_GREEN"@,
        LIGHT_GREEN@,
    ).insert("LIGHT_YELLOW"@, LIGHT_YELLOW@).insert("LIGHT_BLUE"@, LIGHT_BLUE@).insert(
        "LIGHT_MAGENTA"@,
        LIGHT_MAGENTA@,
    ).insert("LIGHT_CYAN"@, LIGHT_CYAN@).insert("LIGHT_GRAY"@, LIGHT_GRAY@).insert(
        "RESET"@,
        RESET@,
    ).insert("BOLD"@, BOLD@).insert("UNDERLINE"@, UNDERLINE@).insert("REVERSE"@, REVERSE@).insert(
        "BLINK"@,
        BLINK@,
    ).insert("INVISIBLE"@, HIDDEN@).insert("CROSSED"@, CROSSED@).insert("ITALIC"@, ITALIC@).insert(
        "R"@,
        RESET@,
    ).insert("B"@, BOLD@).insert("U"@, UNDERLINE@).insert("R"@, REVERSE@).insert(
        "BL"@,
        BLINK@,
    ).insert("IN"@, HIDDEN@).insert("C"@, CROSSED@).insert("I"@, ITALIC@)
}

/// A symbol table that holds the colour symbols.
pub fn colormap() -> (table: SymbolTable)
    ensures
        table@ == color_symbols(),
{
    let mut table = SymbolTable::new();
    table.insert("BLACK", BLACK);
    table.insert("RED", RED);
    table.insert("GREEN", GREEN);
    table.insert("YELLOW", YELLOW);
    table.insert("BLUE", BLUE);
    table.insert("MAGENTA", MAGENTA);
    table.insert("CYAN", CYAN);
    table.insert("WHITE", WHITE);
    table.insert("GRAY", GRAY);
    table.insert("LIGHT_RED", LIGHT_RED);
    table.insert("LIGHT_GREEN", LIGHT_GREEN);
    table.insert("LIGHT_YELLOW", LIGHT_YELLOW);
    table.insert("LIGHT_BLUE", LIGHT_BLUE);
    table.insert("LIGHT_MAGENTA", LIGHT_MAGENTA);
    table.insert("LIGHT_CYAN", LIGHT_CYAN);
    table.insert("LIGHT_GRAY", LIGHT_GRAY);
    table.insert("RESET", RESET);
    table.insert("BOLD", BOLD);
    table.insert("UNDERLINE", UNDERLINE);
    table.insert("REVERSE", REVERSE);
    table.insert("BLINK", BLINK);
    table.insert("INVISIBLE", HIDDEN);
    table.insert("CROSSED", CROSSED);
    table.insert("ITALIC", ITALIC);
    table.insert("R", RESET);
    table.insert("B", BOLD);
    table.insert("U", UNDERLINE);
    table.insert("R", REVERSE);
    table.insert("BL", BLINK);
    table.insert("IN", HIDDEN);
    table.insert("C", CROSSED);
    table.insert("I", ITALIC);
    table
}

/// A line of padding for art: twenty-four spaces and a line feed.
pub open spec fn padding_line() -> Seq<char> {
    repeated(" "@, 24) + "\n"@
}

/// The number of padding lines that centre art of `art_lines` lines beside
/// text of `fetch_lines` lines: half the difference where centring is wanted
/// and the text is longer, none otherwise.
pub open spec fn padding_count(center: bool, fetch_lines: usize, art_lines: usize) -> nat {
    if center && fetch_lines > art_lines {
        ((fetch_lines - art_lines) / 2) as nat
    } else {
        0
    }
}

/// Appends to `art` the padding lines that centre it beside the text.
pub fn ascii_check(center: bool, art: &mut String, fetch_lines: usize, art_lines: usize)
    ensures
        final(art)@ == old(art)@ + repeated(
            padding_line(),
            padding_count(center, fetch_lines, art_lines),
        ),
{
    if center && fetch_lines > art_lines {
        let diff = (fetch_lines - art_lines) / 2;
        let mut i: usize = 0;
        assert(art@ + repeated(padding_line(), 0) == art@);
        while i < diff
            invariant
                i <= diff,
                art@ == old(art)@ + repeated(padding_line(), i as nat),
            decreases diff - i,
        {
            let ghost before = art@;
            push_repeated(art, " ", 24);
            art.append("\n");
            assert(art@ == before + padding_line());
            assert((old(art)@ + repeated(padding_line(), i as nat)) + padding_line() == old(art)@
                + (repeated(padding_line(), i as nat) + padding_line()));
            i += 1;
        }
    } else {
        assert(art@ + repeated(padding_line(), 0) == art@);
    }
}

/// The escape codes that are removed from text, in the order of their
/// removal: the styles, then the colours, then the light colours.
pub open spec fn ansi_codes() -> Seq<Seq<char>> {
    seq![
        RESET@,
        BOLD@,
        UNDERLINE@,
        REVERSE@,
        BLINK@,
        HIDDEN@,
        CROSSED@,
        ITALIC@,
        BLACK@,
        RED@,
        GREEN@,
        YELLOW@,
        BLUE@,
        MAGENTA@,
        CYAN@,
        WHITE@,
        GRAY@,
        LIGHT_RED@,
        LIGHT_GREEN@,
        LIGHT_YELLOW@,
        LIGHT_BLUE@,
        LIGHT_MAGENTA@,
        LIGHT_CYAN@,
        LIGHT_GRAY@,
    ]
}

/// `s` after the codes from `i` on were removed, one code after the other.
pub open spec fn strip_codes(s: Seq<char>, codes: Seq<Seq<char>>, i: int) -> Seq<char>
    decreases codes.len() - i,
{
    if i < 0 || i >= codes.len() {
        s
    } else {
        strip_codes(remove_all(s, codes[i]), codes, i + 1)
    }
}

/// `s` without its escape codes.
pub open spec fn without_ansi(s: Seq<char>) -> Seq<char> {
    strip_codes(s, ansi_codes(), 0)
}

fn ansi_code_list() -> (codes: Vec<Vec<char>>)
    ensures
        views(codes@) == ansi_codes(),
{
    let mut codes: Vec<Vec<char>> = Vec::new();
    codes.push(to_chars(RESET));
    codes.push(to_chars(BOLD));
    codes.push(to_chars(UNDERLINE));
    codes.push(to_chars(REVERSE));
    codes.push(to_chars(BLINK));
    codes.push(to_chars(HIDDEN));
    codes.push(to_chars(CROSSED));
    codes.push(to_chars(ITALIC));
    codes.push(to_chars(BLACK));
    codes.push(to_chars(RED));
    codes.push(to_chars(GREEN));
    codes.push(to_chars(YELLOW));
    codes.push(to_chars(BLUE));
    codes.push(to_chars(MAGENTA));
    codes.push(to_chars(CYAN));
    codes.push(to_chars(WHITE));
    codes.push(to_chars(GRAY));
    codes.push(to_chars(LIGHT_RED));
    codes.push(to_chars(LIGHT_GREEN));
    codes.push(to_chars(LIGHT_YELLOW));
    codes.push(to_chars(LIGHT_BLUE));
    codes.push(to_chars(LIGHT_MAGENTA));
    codes.push(to_chars(LIGHT_CYAN));
    codes.push(to_chars(LIGHT_GRAY));
    assert(views(codes@) =~= ansi_codes());
    codes
}

/// The characters of `s` without its escape codes.
pub fn strip_ansi(s: &Vec<char>) -> (r: Vec<char>)
    ensures
        r@ == without_ansi(s@),
{
    let codes = ansi_code_list();
    let mut r: Vec<char> = slice(s, 0, s.len());
    assert(s@.subrange(0, s@.len() as int) == s@);
    let mut i: usize = 0;
    while i < codes.len()
        invariant
            i <= codes@.len(),
            views(codes@) == ansi_codes(),
            strip_codes(r@, ansi_codes(), i as int) == without_ansi(s@),
        decreases codes@.len() - i,
    {
        assert(views(codes@)[i as int] == codes@[i as int]@);
        r = remove_pattern(&r, &codes[i]);
        i += 1;
    }
    r
}

/// Text that can be freed of its escape codes.
pub trait Ansi {
    /// The text without its escape codes.
    spec fn stripped(&self) -> Seq<char>;

    fn strip_ansi_colors(&self) -> (r: String)
        ensures
            r@ == self.stripped(),
    ;
}

impl Ansi for str {
    open spec fn stripped(&self) -> Seq<char> {
        without_ansi(self@)
    }

    fn strip_ansi_colors(&self) -> (r: String) {
        let chars = to_chars(self);
        string_of(&strip_ansi(&chars))
    }
}

} // verus!
