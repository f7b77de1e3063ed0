//! The two passes over a token list: substitution against a symbol table, and
//! case folding of the placeholders' own text.

use vstd::prelude::*;
use vstd::string::StringExecFns;
use crate::data::FetchData;
use crate::util::case::{lowercase_of, to_lowercase, to_uppercase, uppercase_of};
use crate::util::hyperstr::{color_symbols, colormap};
use crate::util::text::views;
use crate::variable::iterator::{tokenize, Token, Type, VariableIterator};
use crate::variable::symbols::SymbolTable;

verus! {

/// A condition that is reported and does not stop a pass.
#[derive(Clone, PartialEq, Eq, Debug)]
pub enum Diagnostic {
    /// A placeholder, named as the template wrote it, has no symbol.
    UnresolvedPlaceholder(String),
    /// A placeholder met a case mode that is neither upper nor lower.
    InvalidCase(u8),
}

/// A diagnostic as a value.
pub enum Note {
    UnresolvedPlaceholder(Seq<char>),
    InvalidCase(u8),
}

impl View for Diagnostic {
    type V = Note;

    open spec fn view(&self) -> Note {
        match self {
            Diagnostic::UnresolvedPlaceholder(name) => Note::UnresolvedPlaceholder(name@),
            Diagnostic::InvalidCase(mode) => Note::InvalidCase(*mode),
        }
    }
}

/// The case mode that folds to upper case.
pub const UPPER: u8 = 0;

/// The case mode that folds to lower case.
pub const LOWER: u8 = 1;

/// The text that a symbol table has for an upper-case name: nothing where the
/// name is unknown.
pub open spec fn symbol_text(symbols: Map<Seq<char>, Seq<char>>, upper_name: Seq<char>) -> Seq<
    char,
> {
    if symbols.contains_key(upper_name) {
        symbols[upper_name]
    } else {
        Seq::empty()
    }
}

/// What substitution writes for one token.
pub open spec fn replacement(token: Token, symbols: Map<Seq<char>, Seq<char>>) -> Seq<char> {
    match token {
        Token::Literal(text) => text,
        Token::Placeholder(name) => symbol_text(symbols, uppercase_of(name)),
    }
}

/// The text that substitution makes of a token list.
pub open spec fn substitute(tokens: Seq<Token>, symbols: Map<Seq<char>, Seq<char>>) -> Seq<char>
    decreases tokens.len(),
{
    if tokens.len() == 0 {
        Seq::empty()
    } else {
        substitute(tokens.drop_last(), symbols) + replacement(tokens.last(), symbols)
    }
}

/// What substitution reports for a token list: one note for each placeholder
/// without a symbol, in order.
pub open spec fn unresolved(tokens: Seq<Token>, symbols: Map<Seq<char>, Seq<char>>) -> Seq<Note>
    decreases tokens.len(),
{
    if tokens.len() == 0 {
        Seq::empty()
    } else {
        let before = unresolved(tokens.drop_last(), symbols);
        match tokens.last() {
            Token::Literal(_) => before,
            Token::Placeholder(name) => if symbols.contains_key(uppercase_of(name)) {
                before
            } else {
                before.push(Note::UnresolvedPlaceholder(name))
            },
        }
    }
}

/// The text of a name under a case mode: nothing where the mode is unknown.
pub open spec fn cased(name: Seq<char>, mode: u8) -> Seq<char> {
    if mode == UPPER {
        uppercase_of(name)
    } else if mode == LOWER {
        lowercase_of(name)
    } else {
        Seq::empty()
    }
}

/// What case folding writes for one token.
pub open spec fn folded(token: Token, mode: u8) -> Seq<char> {
    match token {
        Token::Literal(text) => text,
        Token::Placeholder(name) => cased(name, mode),
    }
}

/// The text that case folding makes of a token list.
pub open spec fn fold_case(tokens: Seq<Token>, mode: u8) -> Seq<char>
    decreases tokens.len(),
{
    if tokens.len() == 0 {
        Seq::empty()
    } else {
        fold_case(tokens.drop_last(), mode) + folded(tokens.last(), mode)
    }
}

/// What case folding reports for a token list: under an unknown mode, one
/// note for each placeholder.
pub open spec fn miscased(tokens: Seq<Token>, mode: u8) -> Seq<Note>
    decreases tokens.len(),
{
    if tokens.len() == 0 {
        Seq::empty()
    } else {
        let before = miscased(tokens.drop_last(), mode);
        match tokens.last() {
            Token::Literal(_) => before,
            Token::Placeholder(_) => if mode == UPPER || mode == LOWER {
                before
            } else {
                before.push(Note::InvalidCase(mode))
            },
        }
    }
}

/// The literal text of a token list: the placeholders left out.
pub open spec fn literal_text(tokens: Seq<Token>) -> Seq<char>
    decreases tokens.len(),
{
    if tokens.len() == 0 {
        Seq::empty()
    } else {
        literal_text(tokens.drop_last()) + (match tokens.last() {
            Token::Literal(text) => text,
            Token::Placeholder(_) => Seq::empty(),
        })
    }
}

/// Appends to `out` the text that `symbols` has for `upper_name`, and says
/// whether it has any.
pub fn push_symbol(out: &mut String, symbols: &SymbolTable, upper_name: &str) -> (known: bool)
    ensures
        final(out)@ == old(out)@ + symbol_text(symbols@, upper_name@),
        known == symbols@.contains_key(upper_name@),
{
    match symbols.get(upper_name) {
        Some(text) => {
            out.append(text.as_str());
            true
        },
        None => {
            assert(out@ + Seq::<char>::empty() == out@);
            false
        },
    }
}

/// Appends to `out` the text of a placeholder under a case mode, given the
/// name in upper and in lower case, and says whether the mode is known.
pub fn push_cased(out: &mut String, upper: &str, lower: &str, mode: u8) -> (known: bool)
    ensures
        final(out)@ == old(out)@ + (if mode == UPPER {
            upper@
        } else if mode == LOWER {
            lower@
        } else {
            Seq::empty()
        }),
        known == (mode == UPPER || mode == LOWER),
{
    if mode == UPPER {
        out.append(upper);
        true
    } else if mode == LOWER {
        out.append(lower);
        true
    } else {
        assert(out@ + Seq::<char>::empty() == out@);
        false
    }
}

/// A template that was lexed: its tokens, ready for any number of passes.
pub struct Creator {
    tokens: Vec<Type>,
}

impl Creator {
    /// The tokens of the template.
    pub closed spec fn tokens(&self) -> Seq<Token> {
        views(self.tokens@)
    }

    /// Lexes `text` with the markers `start` and `end`.
    pub fn init(text: &str, start: &str, end: &str) -> (c: Self)
        requires
            start@.len() > 0,
            end@.len() > 0,
        ensures
            c.tokens() == tokenize(text@, start@, end@),
    {
        let mut lexer = VariableIterator::new(text, start, end);
        Creator { tokens: lexer.collect() }
    }

    /// The tokens of the template.
    pub fn token_list(&self) -> (r: &Vec<Type>)
        ensures
            views(r@) == self.tokens(),
    {
        &self.tokens
    }

    /// Substitution: literals are copied; a placeholder gives way to the text
    /// that `var` has for its name in upper case, or to nothing.
    pub fn process_variables(&self, var: &SymbolTable) -> (r: Option<String>)
        ensures
            r matches Some(text) && text@ == substitute(self.tokens(), var@),
    {
        let mut result = String::new();
        let mut i: usize = 0;
        assert(self.tokens().take(0) == Seq::<Token>::empty());
        while i < self.tokens.len()
            invariant
                i <= self.tokens@.len(),
                result@ == substitute(self.tokens().take(i as int), var@),
            decreases self.tokens@.len() - i,
        {
            assert(self.tokens().take(i + 1).drop_last() == self.tokens().take(i as int));
            assert(self.tokens().take(i + 1).last() == self.tokens@[i as int]@);
            match &self.tokens[i] {
                Type::Default(text) => {
                    result.append(text.as_str());
                },
                Type::Variable(name) => {
                    let upper = to_uppercase(name.as_str());
                    push_symbol(&mut result, var, upper.as_str());
                },
            }
            i += 1;
        }
        assert(self.tokens().take(self.tokens@.len() as int) == self.tokens());
        Some(result)
    }

    /// What substitution has to report: the placeholders that `var` has no
    /// text for.
    pub fn variable_diagnostics(&self, var: &SymbolTable) -> (r: Vec<Diagnostic>)
        ensures
            views(r@) == unresolved(self.tokens(), var@),
    {
        let mut notes: Vec<Diagnostic> = Vec::new();
        let mut i: usize = 0;
        assert(self.tokens().take(0) == Seq::<Token>::empty());
        assert(views(notes@) == Seq::<Note>::empty());
        while i < self.tokens.len()
            invariant
                i <= self.tokens@.len(),
                views(notes@) == unresolved(self.tokens().take(i as int), var@),
            decreases self.tokens@.len() - i,
        {
            assert(self.tokens().take(i + 1).drop_last() == self.tokens().take(i as int));
            assert(self.tokens().take(i + 1).last() == self.tokens@[i as int]@);
            match &self.tokens[i] {
                Type::Default(_) => {},
                Type::Variable(name) => {
                    let upper = to_uppercase(name.as_str());
                    if !var.contains(upper.as_str()) {
                        let ghost before = views(notes@);
                        notes.push(Diagnostic::UnresolvedPlaceholder(name.clone()));
                        assert(views(notes@) == before.push(Note::UnresolvedPlaceholder(name@)));
                    }
                },
            }
            i += 1;
        }
        assert(self.tokens().take(self.tokens@.len() as int) == self.tokens());
        notes
    }

    /// Case folding: literals are copied; a placeholder gives way to its own
    /// name, in upper case under mode 0 and in lower case under mode 1, and
    /// to nothing under any other mode.
    pub fn process_case(&self, i: u8) -> (r: Option<String>)
        ensures
            r matches Some(text) && text@ == fold_case(self.tokens(), i),
    {
        let mut result = String::new();
        let mut k: usize = 0;
        assert(self.tokens().take(0) == Seq::<Token>::empty());
        while k < self.tokens.len()
            invariant
                k <= self.tokens@.len(),
                result@ == fold_case(self.tokens().take(k as int), i),
            decreases self.tokens@.len() - k,
        {
            assert(self.tokens().take(k + 1).drop_last() == self.tokens().take(k as int));
            assert(self.tokens().take(k + 1).last() == self.tokens@[k as int]@);
            match &self.tokens[k] {
                Type::Default(text) => {
                    result.append(text.as_str());
                },
                Type::Variable(name) => {
                    let upper = to_uppercase(name.as_str());
                    let lower = to_lowercase(name.as_str());
                    push_cased(&mut result, upper.as_str(), lower.as_str(), i);
                },
            }
            k += 1;
        }
        assert(self.tokens().take(self.tokens@.len() as int) == self.tokens());
        Some(result)
    }

    /// What case folding has to report: under a mode that is neither 0 nor 1,
    /// one note for each placeholder.
    pub fn case_diagnostics(&self, i: u8) -> (r: Vec<Diagnostic>)
        ensures
            views(r@) == miscased(self.tokens(), i),
    {
        let mut notes: Vec<Diagnostic> = Vec::new();
        let mut k: usize = 0;
        assert(self.tokens().take(0) == Seq::<Token>::empty());
        assert(views(notes@) == Seq::<Note>::empty());
        while k < self.tokens.len()
            invariant
                k <= self.tokens@.len(),
                views(notes@) == miscased(self.tokens().take(k as int), i),
            decreases self.tokens@.len() - k,
        {
            assert(self.tokens().take(k + 1).drop_last() == self.tokens().take(k as int));
            assert(self.tokens().take(k + 1).last() == self.tokens@[k as int]@);
            match &self.tokens[k] {
                Type::Default(_) => {},
                Type::Variable(_) => {
                    if i != UPPER && i != LOWER {
                        let ghost before = views(notes@);
                        notes.push(Diagnostic::InvalidCase(i));
                        assert(views(notes@) == before.push(Note::InvalidCase(i)));
                    }
                },
            }
            k += 1;
        }
        assert(self.tokens().take(self.tokens@.len() as int) == self.tokens());
        notes
    }
}

/// With no symbol known, substitution leaves the literal text and nothing
/// else.
pub proof fn lemma_substitute_without_symbols(tokens: Seq<Token>)
    ensures
        substitute(tokens, Map::empty()) == literal_text(tokens),
    decreases tokens.len(),
{
    if tokens.len() > 0 {
        lemma_substitute_without_symbols(tokens.drop_last());
    }
}

/// One note for each placeholder of a token list, in order.
pub open spec fn all_unresolved(tokens: Seq<Token>) -> Seq<Note>
    decreases tokens.len(),
{
    if tokens.len() == 0 {
        Seq::empty()
    } else {
        match tokens.last() {
            Token::Literal(_) => all_unresolved(tokens.drop_last()),
            Token::Placeholder(name) => all_unresolved(tokens.drop_last()).push(
                Note::UnresolvedPlaceholder(name),
            ),
        }
    }
}

/// With no symbol known, every placeholder is reported.
pub proof fn lemma_unresolved_without_symbols(tokens: Seq<Token>)
    ensures
        unresolved(tokens, Map::empty()) == all_unresolved(tokens),
    decreases tokens.len(),
{
    if tokens.len() > 0 {
        lemma_unresolved_without_symbols(tokens.drop_last());
    }
}

/// A token list without placeholders is rendered alike by both passes: as its
/// literal text.
pub proof fn lemma_literals_pass_through(
    tokens: Seq<Token>,
    symbols: Map<Seq<char>, Seq<char>>,
    mode: u8,
)
    requires
        forall|i: int| 0 <= i < tokens.len() ==> tokens[i] is Literal,
    ensures
        substitute(tokens, symbols) == literal_text(tokens),
        fold_case(tokens, mode) == literal_text(tokens),
        unresolved(tokens, symbols).len() == 0,
        miscased(tokens, mode).len() == 0,
    decreases tokens.len(),
{
    if tokens.len() > 0 {
        assert forall|i: int| 0 <= i < tokens.drop_last().len() implies tokens.drop_last()[i] is Literal by {
            assert(tokens.drop_last()[i] == tokens[i]);
        }
        lemma_literals_pass_through(tokens.drop_last(), symbols, mode);
        assert(tokens.last() == tokens[tokens.len() - 1]);
    }
}

/// The symbols of a system: the colour symbols, then what is known of the
/// system under its names, then the two marks that the layout reads, each
/// standing for itself.
pub open spec fn system_symbols(mds: FetchData) -> Map<Seq<char>, Seq<char>> {
    color_symbols().insert("USERNAME"@, mds.user.username@).insert(
        "HOSTNAME"@,
        mds.user.hostname@,
    ).insert("DISTRO_NAME"@, mds.distro.name@).insert(
        "DISTRO_PRETTY_NAME"@,
        mds.distro.pretty_name@,
    ).insert("DISTRO_BUILD"@, mds.distro.build@).insert("DISTRO_ID"@, mds.distro.id@).insert(
        "DISTRO_ARCH"@,
        mds.distro.architecture@,
    ).insert("KERNEL"@, mds.distro.kernel@).insert("SHELL"@, mds.shell.shell@).insert(
        "TERMINAL"@,
        mds.terminal.terminal@,
    ).insert("PACKAGES"@, mds.packages.pacman@).insert("UPTIME"@, mds.uptime.uptime_raw@).insert(
        "CPU_MODEL"@,
        mds.cpu.model_name@,
    ).insert("CPU_CORES"@, mds.cpu.cores@).insert("FILL"@, "{FILL}"@).insert(
        "IGNORE"@,
        "{IGNORE}"@,
    )
}

/// The symbol table of a system.
pub fn symbols_of(mds: &FetchData) -> (val: SymbolTable)
    ensures
        val@ == system_symbols(*mds),
{
    let mut val = colormap();
    val.insert("USERNAME", mds.user.username.as_str());
    val.insert("HOSTNAME", mds.user.hostname.as_str());
    val.insert("DISTRO_NAME", mds.distro.name.as_str());
    val.insert("DISTRO_PRETTY_NAME", mds.distro.pretty_name.as_str());
    val.insert("DISTRO_BUILD", mds.distro.build.as_str());
    val.insert("DISTRO_ID", mds.distro.id.as_str());
    val.insert("DISTRO_ARCH", mds.distro.architecture.as_str());
    val.insert("KERNEL", mds.distro.kernel.as_str());
    val.insert("SHELL", mds.shell.shell.as_str());
    val.insert("TERMINAL", mds.terminal.terminal.as_str());
    val.insert("PACKAGES", mds.packages.pacman.as_str());
    val.insert("UPTIME", mds.uptime.uptime_raw.as_str());
    val.insert("CPU_MODEL", mds.cpu.model_name.as_str());
    val.insert("CPU_CORES", mds.cpu.cores.as_str());
    val.insert("FILL", "{FILL}");
    val.insert("IGNORE", "{IGNORE}");
    val
}

/// Replaces the placeholders of `target` by what is known of the system.
pub fn variable_creator(target: String, mds: FetchData, prefix: String, suffix: String) -> (r:
    String)
    requires
        prefix@.len() > 0,
        suffix@.len() > 0,
    ensures
        r@ == substitute(tokenize(target@, prefix@, suffix@), system_symbols(mds)),
{
    let val = symbols_of(&mds);
    let creator = Creator::init(target.as_str(), prefix.as_str(), suffix.as_str());
    creator.process_variables(&val).unwrap()
}

} // verus!
