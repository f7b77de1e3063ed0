//! The placeholder lexer: a cursor over template text that hands out one
//! token at a time.
//!
//! The lexer is in one of two states. While scanning it looks for the next
//! start marker and hands out the text before it. Inside a placeholder it
//! looks for the end marker behind the start marker and hands out the name
//! between the two; where no end marker follows, the rest of the text, start
//! marker included, is handed out as it stands.

use vstd::prelude::*;
use crate::util::text::{
    find_sub, index_of_sub, lemma_find_sub_bounds, slice, string_of, strip_blanks, to_chars,
    to_string, trim_spaces, views,
};

verus! {

/// A token as a value.
pub enum Token {
    /// Text to be copied.
    Literal(Seq<char>),
    /// A named hole.
    Placeholder(Seq<char>),
}

/// A token of a template.
#[derive(Clone, PartialEq, Eq, Debug)]
pub enum Type {
    /// Text to be copied.
    Default(String),
    /// A named hole.
    Variable(String),
}

impl View for Type {
    type V = Token;

    open spec fn view(&self) -> Token {
        match self {
            Type::Default(text) => Token::Literal(text@),
            Type::Variable(name) => Token::Placeholder(name@),
        }
    }
}

/// The tokens of `text[pos..]`, for a lexer that is scanning or inside a
/// placeholder. With an empty marker there are no tokens.
pub open spec fn tokens_from(
    text: Seq<char>,
    start: Seq<char>,
    end: Seq<char>,
    pos: int,
    inside: bool,
) -> Seq<Token>
    decreases text.len() - pos, (if inside { 0int } else { 1int }),
{
    if pos < 0 || pos >= text.len() || start.len() == 0 || end.len() == 0 {
        Seq::empty()
    } else if !inside {
        let at = find_sub(text, start, pos);
        if at >= pos {
            proof {
                lemma_find_sub_bounds(text, start, pos);
            }
            seq![Token::Literal(text.subrange(pos, at))] + tokens_from(text, start, end, at, true)
        } else {
            seq![Token::Literal(text.subrange(pos, text.len() as int))]
        }
    } else {
        let from = pos + start.len();
        let at = find_sub(text, end, from);
        if at >= from {
            proof {
                lemma_find_sub_bounds(text, end, from);
            }
            seq![Token::Placeholder(trim_spaces(text.subrange(from, at)))] + tokens_from(
                text,
                start,
                end,
                at + end.len(),
                false,
            )
        } else {
            seq![Token::Literal(text.subrange(pos, text.len() as int))]
        }
    }
}

/// The tokens of a template.
pub open spec fn tokenize(text: Seq<char>, start: Seq<char>, end: Seq<char>) -> Seq<Token> {
    tokens_from(text, start, end, 0, false)
}

enum State {
    Default,
    Variable,
}

/// The lexer: the text, the cursor, the state, and the two markers.
pub struct VariableIterator {
    text: Vec<char>,
    pos: usize,
    state: State,
    start: Vec<char>,
    end: Vec<char>,
}

impl VariableIterator {
    /// The tokens that are still to come.
    pub closed spec fn remaining(&self) -> Seq<Token> {
        tokens_from(self.text@, self.start@, self.end@, self.pos as int, self.state is Variable)
    }

    /// The position of the cursor in the text.
    pub closed spec fn cursor(&self) -> nat {
        self.pos as nat
    }

    /// A lexer at the start of `text`, scanning.
    pub fn new(text: &str, start: &str, end: &str) -> (it: Self)
        requires
            start@.len() > 0,
            end@.len() > 0,
        ensures
            it.remaining() == tokenize(text@, start@, end@),
            it.cursor() == 0,
    {
        VariableIterator {
            text: to_chars(text),
            pos: 0,
            state: State::Default,
            start: to_chars(start),
            end: to_chars(end),
        }
    }

    /// The rest of the text as one literal; the cursor goes to the end.
    fn take_rest(&mut self) -> (t: Type)
        requires
            old(self).pos <= old(self).text@.len(),
        ensures
            t@ == Token::Literal(
                old(self).text@.subrange(old(self).pos as int, old(self).text@.len() as int),
            ),
            final(self).pos == old(self).text@.len(),
            final(self).text == old(self).text,
            final(self).start == old(self).start,
            final(self).end == old(self).end,
            final(self).state == old(self).state,
    {
        let n = self.text.len();
        let rest = to_string(&self.text, self.pos, n);
        self.pos = n;
        Type::Default(rest)
    }

    /// The literal before the next start marker.
    fn parse_text(&mut self) -> (t: Type)
        requires
            old(self).pos < old(self).text@.len(),
            old(self).start@.len() > 0,
            old(self).end@.len() > 0,
            old(self).state is Default,
        ensures
            old(self).remaining().len() > 0,
            t@ == old(self).remaining()[0],
            final(self).remaining() == old(self).remaining().drop_first(),
            final(self).cursor() >= old(self).cursor(),
    {
        let ghost before = self.remaining();
        match index_of_sub(&self.text, &self.start, self.pos) {
            Some(at) => {
                let token = Type::Default(to_string(&self.text, self.pos, at));
                self.pos = at;
                self.state = State::Variable;
                assert(before.drop_first() == self.remaining());
                token
            },
            None => {
                let token = self.take_rest();
                assert(before.drop_first() == self.remaining());
                token
            },
        }
    }

    /// The placeholder at the cursor, or the rest of the text where the
    /// placeholder never ends.
    fn parse_var(&mut self) -> (t: Type)
        requires
            old(self).pos < old(self).text@.len(),
            old(self).start@.len() > 0,
            old(self).end@.len() > 0,
            old(self).state is Variable,
        ensures
            old(self).remaining().len() > 0,
            t@ == old(self).remaining()[0],
            final(self).remaining() == old(self).remaining().drop_first(),
            final(self).cursor() > old(self).cursor(),
    {
        let ghost before = self.remaining();
        let n = self.text.len();
        if self.start.len() > n - self.pos {
            self.state = State::Default;
            let token = self.take_rest();
            assert(before.drop_first() == self.remaining());
            return token;
        }
        let from = self.pos + self.start.len();
        match index_of_sub(&self.text, &self.end, from) {
            Some(at) => {
                let inner = slice(&self.text, from, at);
                let name = string_of(&strip_blanks(&inner, false));
                self.pos = at + self.end.len();
                self.state = State::Default;
                assert(before.drop_first() == self.remaining());
                Type::Variable(name)
            },
            None => {
                self.state = State::Default;
                let token = self.take_rest();
                assert(before.drop_first() == self.remaining());
                token
            },
        }
    }

    /// The next token, or nothing once the text is used up. The cursor never
    /// goes back.
    pub fn next(&mut self) -> (r: Option<Type>)
        ensures
            match r {
                Some(t) => old(self).remaining().len() > 0 && t@ == old(self).remaining()[0]
                    && final(self).remaining() == old(self).remaining().drop_first(),
                None => old(self).remaining().len() == 0 && final(self).remaining().len() == 0,
            },
            final(self).cursor() >= old(self).cursor(),
    {
        if self.pos >= self.text.len() || self.start.len() == 0 || self.end.len() == 0 {
            return None;
        }
        match self.state {
            State::Default => Some(self.parse_text()),
            State::Variable => Some(self.parse_var()),
        }
    }

    /// All the tokens that are still to come; the lexer is used up.
    pub fn collect(&mut self) -> (tokens: Vec<Type>)
        ensures
            views(tokens@) == old(self).remaining(),
            final(self).remaining().len() == 0,
    {
        let mut tokens: Vec<Type> = Vec::new();
        assert(views(tokens@) + self.remaining() == old(self).remaining());
        loop
            invariant_except_break
                views(tokens@) + self.remaining() == old(self).remaining(),
            ensures
                views(tokens@) == old(self).remaining(),
                self.remaining().len() == 0,
            decreases self.remaining().len(),
        {
            let ghost done = views(tokens@);
            let ghost rest = self.remaining();
            match self.next() {
                Some(t) => {
                    tokens.push(t);
                    assert(views(tokens@) == done.push(rest[0]));
                    assert(done.push(rest[0]) + rest.drop_first() == done + rest);
                },
                None => {
                    assert(done + rest == done);
                    break ;
                },
            }
        }
        tokens
    }
}

/// Text without a start marker is one literal.
pub proof fn lemma_plain_text_is_one_literal(text: Seq<char>, start: Seq<char>, end: Seq<char>)
    requires
        text.len() > 0,
        start.len() > 0,
        end.len() > 0,
        find_sub(text, start, 0) == -1,
    ensures
        tokenize(text, start, end) == seq![Token::Literal(text)],
{
    assert(text.subrange(0, text.len() as int) == text);
}

/// A start marker that no end marker follows is no error: the text before it
/// is a literal, and the rest, marker included, is a literal too.
pub proof fn lemma_dangling_start_is_literal(
    text: Seq<char>,
    start: Seq<char>,
    end: Seq<char>,
    at: int,
)
    requires
        start.len() > 0,
        end.len() > 0,
        at == find_sub(text, start, 0),
        at >= 0,
        find_sub(text, end, at + start.len()) == -1,
    ensures
        tokenize(text, start, end) == seq![
            Token::Literal(text.subrange(0, at)),
            Token::Literal(text.subrange(at, text.len() as int)),
        ],
{
    lemma_find_sub_bounds(text, start, 0);
    let rest = tokens_from(text, start, end, at, true);
    assert(rest == seq![Token::Literal(text.subrange(at, text.len() as int))]);
    assert(seq![Token::Literal(text.subrange(0, at))] + rest == seq![
        Token::Literal(text.subrange(0, at)),
        Token::Literal(text.subrange(at, text.len() as int)),
    ]);
}

/// A placeholder that is closed gives one placeholder token, named by what
/// stands between the markers without the spaces around it, and the lexer
/// goes on behind the end marker.
pub proof fn lemma_closed_placeholder(
    text: Seq<char>,
    start: Seq<char>,
    end: Seq<char>,
    at: int,
    close: int,
)
    requires
        start.len() > 0,
        end.len() > 0,
        at == find_sub(text, start, 0),
        at >= 0,
        close == find_sub(text, end, at + start.len()),
        close >= 0,
    ensures
        tokenize(text, start, end) == seq![
            Token::Literal(text.subrange(0, at)),
            Token::Placeholder(trim_spaces(text.subrange(at + start.len(), close))),
        ] + tokens_from(text, start, end, close + end.len(), false),
{
    lemma_find_sub_bounds(text, start, 0);
    lemma_find_sub_bounds(text, end, at + start.len());
    let tail = tokens_from(text, start, end, close + end.len(), false);
    let name = Token::Placeholder(trim_spaces(text.subrange(at + start.len(), close)));
    assert(tokens_from(text, start, end, at, true) == seq![name] + tail);
    assert(seq![Token::Literal(text.subrange(0, at))] + (seq![name] + tail) == seq![
        Token::Literal(text.subrange(0, at)),
        name,
    ] + tail);
}

} // verus!
