//! The configuration store: reads configuration text into a document and
//! answers typed questions about it.

use vstd::prelude::*;
use crate::config::document::{
    has_slot, lookup, slot_view, with_slot, ConfigDocument, ConfigLookupError, DocumentView,
};
use crate::config::syntax::{
    before_comment, parse_text, run, start_state, step, ConfigSyntaxError, ReaderState, Syntax,
};
use crate::util::numeral::{parse_bool, parse_u32, read_bool, read_u32};
use crate::util::text::{
    char_is_whitespace, index_of, last_index_of, lemma_rfind_char_bounds,
    lemma_skip_blank_back_bounds, lemma_skip_blank_bounds, lines, push_chars, remove_char,
    same_text, slice, split_lines, string_of, strip_blanks, to_chars, views, without_char,
};

verus! {

/// Why a value could not be read as the type that was asked for.
#[derive(Clone, Copy, Debug, PartialEq, Eq, Structural)]
pub enum ConfigTypeError {
    NotABoolean,
    NotAnInteger,
    UnknownFilterName,
}

/// Why a typed read failed: the lookup found no text, or the text is not of
/// the type.
#[derive(Clone, Copy, Debug, PartialEq, Eq, Structural)]
pub enum ConfigError {
    Lookup(ConfigLookupError),
    Type(ConfigTypeError),
}

/// The resampling filters that a configuration can name.
#[derive(Clone, Copy, Debug, PartialEq, Eq, Structural)]
pub enum FilterType {
    Nearest,
    Gaussian,
    Triangle,
    CatmullRom,
    Lanczos3,
}

/// The text of `key` in `section`, without its double quotes.
pub open spec fn text_of(doc: DocumentView, section: Seq<char>, key: Seq<char>) -> Result<
    Seq<char>,
    ConfigLookupError,
> {
    match lookup(doc, section, key) {
        Ok(text) => Ok(without_char(text, '"')),
        Err(e) => Err(e),
    }
}

/// The boolean that `key` in `section` holds.
pub open spec fn bool_of(doc: DocumentView, section: Seq<char>, key: Seq<char>) -> Result<
    bool,
    ConfigError,
> {
    match text_of(doc, section, key) {
        Ok(text) => match parse_bool(text) {
            Some(b) => Ok(b),
            None => Err(ConfigError::Type(ConfigTypeError::NotABoolean)),
        },
        Err(e) => Err(ConfigError::Lookup(e)),
    }
}

/// The unsigned integer that `key` in `section` holds.
pub open spec fn int_of(doc: DocumentView, section: Seq<char>, key: Seq<char>) -> Result<
    u32,
    ConfigError,
> {
    match text_of(doc, section, key) {
        Ok(text) => match parse_u32(text) {
            Some(n) => Ok(n),
            None => Err(ConfigError::Type(ConfigTypeError::NotAnInteger)),
        },
        Err(e) => Err(ConfigError::Lookup(e)),
    }
}

/// The filter that a name stands for.
pub open spec fn filter_named(name: Seq<char>) -> Option<FilterType> {
    if name == "Nearest"@ {
        Some(FilterType::Nearest)
    } else if name == "Gaussian"@ {
        Some(FilterType::Gaussian)
    } else if name == "Triangle"@ {
        Some(FilterType::Triangle)
    } else if name == "Catmull"@ {
        Some(FilterType::CatmullRom)
    } else if name == "Lanczos"@ {
        Some(FilterType::Lanczos3)
    } else {
        None
    }
}

/// The names that stand for a filter.
pub open spec fn filter_names() -> Seq<Seq<char>> {
    seq!["Nearest"@, "Gaussian"@, "Triangle"@, "Catmull"@, "Lanczos"@]
}

/// A name stands for a filter if and only if it is one of the filter names.
pub proof fn lemma_filter_names_are_the_known(name: Seq<char>)
    ensures
        filter_named(name) is Some <==> filter_names().contains(name),
{
    let names = filter_names();
    if filter_named(name) is Some {
        if name == "Nearest"@ {
            assert(names[0] == name);
        } else if name == "Gaussian"@ {
            assert(names[1] == name);
        } else if name == "Triangle"@ {
            assert(names[2] == name);
        } else if name == "Catmull"@ {
            assert(names[3] == name);
        } else {
            assert(names[4] == name);
        }
    }
}

/// The names that stand for a filter, for a message to list.
pub fn valid_filter_names() -> (names: Vec<&'static str>)
    ensures
        views(names@) == filter_names(),
{
    let mut names: Vec<&'static str> = Vec::new();
    names.push("Nearest");
    names.push("Gaussian");
    names.push("Triangle");
    names.push("Catmull");
    names.push("Lanczos");
    assert(views(names@) =~= filter_names());
    names
}

/// The filter that `key` in `section` names.
pub open spec fn filter_of(doc: DocumentView, section: Seq<char>, key: Seq<char>) -> Result<
    FilterType,
    ConfigError,
> {
    match text_of(doc, section, key) {
        Ok(text) => match filter_named(text) {
            Some(f) => Ok(f),
            None => Err(ConfigError::Type(ConfigTypeError::UnknownFilterName)),
        },
        Err(e) => Err(ConfigError::Lookup(e)),
    }
}

/// The reader between two lines, in executable form.
struct Reader {
    doc: ConfigDocument,
    section: String,
    key: Option<String>,
}

impl Reader {
    spec fn state(&self) -> ReaderState {
        ReaderState { doc: self.doc@, section: self.section@, key: slot_view(self.key) }
    }
}

/// The store: a document and the grammar that its text is read by.
#[derive(Debug, Clone)]
pub struct Helio {
    map: ConfigDocument,
    default: String,
    comment: char,
    delimit: char,
    separator: String,
}

impl View for Helio {
    type V = DocumentView;

    closed spec fn view(&self) -> DocumentView {
        self.map@
    }
}

impl Helio {
    /// The grammar that this store reads by.
    pub closed spec fn syntax(&self) -> Syntax {
        Syntax { comment: self.comment, delimiter: self.delimit, separator: self.separator@ }
    }

    /// The section that keys belong to before the first header.
    pub closed spec fn default_section(&self) -> Seq<char> {
        self.default@
    }

    /// An empty store with the usual grammar: `#` starts a comment, `=` parts
    /// key and value, a line feed joins continued lines, and keys before the
    /// first header go to the section `default`.
    pub fn new() -> (h: Helio)
        ensures
            h@ == Map::<Seq<char>, Map<Seq<char>, Option<Seq<char>>>>::empty(),
            h.syntax() == (Syntax { comment: '#', delimiter: '=', separator: "\n"@ }),
            h.default_section() == "default"@,
    {
        Helio {
            map: ConfigDocument::new(),
            default: "default".to_owned(),
            comment: '#',
            delimit: '=',
            separator: "\n".to_owned(),
        }
    }

    /// An empty store with a grammar of the caller's choice.
    pub fn with_syntax(default: &str, comment: char, delimit: char, separator: &str) -> (h: Helio)
        ensures
            h@ == Map::<Seq<char>, Map<Seq<char>, Option<Seq<char>>>>::empty(),
            h.syntax() == (Syntax { comment, delimiter: delimit, separator: separator@ }),
            h.default_section() == default@,
    {
        Helio {
            map: ConfigDocument::new(),
            default: default.to_owned(),
            comment,
            delimit,
            separator: separator.to_owned(),
        }
    }

    /// Feeds one line to the reader.
    fn feed(&self, reader: &mut Reader, raw: &Vec<char>, number: usize) -> (r: Result<
        (),
        ConfigSyntaxError,
    >)
        ensures
            match step(old(reader).state(), raw@, number, self.syntax()) {
                Ok(next) => r is Ok && final(reader).state() == next,
                Err(e) => r == Err::<(), ConfigSyntaxError>(e),
            },
    {
        let ghost syn = self.syntax();
        let cut_at = match index_of(raw, self.comment, 0) {
            Some(k) => k,
            None => raw.len(),
        };
        let cut = slice(raw, 0, cut_at);
        assert(cut@ == before_comment(raw@, syn.comment));
        let line = strip_blanks(&cut, true);
        if line.len() == 0 {
            return Ok(());
        }
        if line[0] == '[' {
            return match last_index_of(&line, ']') {
                Some(end) => {
                    proof {
                        lemma_rfind_char_bounds(line@, ']', line@.len() as int);
                    }
                    let inner = slice(&line, 1, end);
                    let name = strip_blanks(&inner, true);
                    reader.section = string_of(&name);
                    Ok(())
                },
                None => Err(ConfigSyntaxError::MissingClosingBracket(number)),
            };
        }
        proof {
            lemma_skip_blank_bounds(cut@, 0, true);
            lemma_skip_blank_back_bounds(cut@, cut@.len() as int, true);
        }
        if char_is_whitespace(cut[0]) {
            return match &reader.key {
                None => Err(ConfigSyntaxError::MissingKeyForContinuation(number)),
                Some(key) => {
                    let mut value = match reader.doc.get(reader.section.as_str(), key.as_str()) {
                        Ok(text) => text.clone(),
                        Err(_) => String::new(),
                    };
                    let sep = to_chars(self.separator.as_str());
                    push_chars(&mut value, &sep);
                    push_chars(&mut value, &line);
                    reader.doc.set(reader.section.as_str(), key.as_str(), Some(value));
                    Ok(())
                },
            };
        }
        match index_of(&line, self.delimit, 0) {
            Some(at) => {
                let left = slice(&line, 0, at);
                let right = slice(&line, at + 1, line.len());
                let key = string_of(&strip_blanks(&left, true));
                let value = string_of(&strip_blanks(&right, true));
                if key.as_str().is_empty() {
                    return Err(ConfigSyntaxError::EmptyKey(number));
                }
                reader.doc.set(reader.section.as_str(), key.as_str(), Some(value));
                reader.key = Some(key);
                Ok(())
            },
            None => {
                let key = string_of(&line);
                reader.doc.set(reader.section.as_str(), key.as_str(), None);
                reader.key = Some(key);
                Ok(())
            },
        }
    }

    /// Reads configuration text into a document of its own. The text is read
    /// whole or not at all: the first line that breaks the grammar is the
    /// error.
    pub fn parse(&self, input: &str) -> (r: Result<ConfigDocument, ConfigSyntaxError>)
        ensures
            match parse_text(input@, self.syntax(), self.default_section()) {
                Ok(doc) => r matches Ok(d) && d@ == doc,
                Err(e) => r matches Err(x) && x == e,
            },
    {
        let chars = to_chars(input);
        let all = split_lines(&chars);
        let mut reader = Reader {
            doc: ConfigDocument::new(),
            section: self.default.clone(),
            key: None,
        };
        let ghost syn = self.syntax();
        let ghost goal = run(lines(input@), 0, start_state(self.default@), syn);
        let mut i: usize = 0;
        while i < all.len()
            invariant
                i <= all@.len(),
                views(all@) == lines(input@),
                syn == self.syntax(),
                goal == run(lines(input@), 0, start_state(self.default_section()), syn),
                goal == run(lines(input@), i as int, reader.state(), syn),
            decreases all@.len() - i,
        {
            assert(views(all@)[i as int] == all@[i as int]@);
            match self.feed(&mut reader, &all[i], i + 1) {
                Ok(()) => {},
                Err(e) => {
                    return Err(e);
                },
            }
            i += 1;
        }
        Ok(reader.doc)
    }

    /// Reads configuration text and makes its document this store's own.
    /// Where the text is refused the store keeps the document it had.
    pub fn load_text(&mut self, input: &str) -> (r: Result<(), ConfigSyntaxError>)
        ensures
            final(self).syntax() == old(self).syntax(),
            final(self).default_section() == old(self).default_section(),
            match parse_text(input@, old(self).syntax(), old(self).default_section()) {
                Ok(doc) => r is Ok && final(self)@ == doc,
                Err(e) => r == Err::<(), ConfigSyntaxError>(e) && final(self)@ == old(self)@,
            },
    {
        match self.parse(input) {
            Ok(doc) => {
                self.map = doc;
                Ok(())
            },
            Err(e) => Err(e),
        }
    }

    /// The text of `key` in `section`, without its double quotes.
    pub fn get_str(&self, section: &str, key: &str) -> (r: Result<String, ConfigLookupError>)
        ensures
            match r {
                Ok(text) => text_of(self@, section@, key@) == Ok::<Seq<char>, ConfigLookupError>(
                    text@,
                ),
                Err(e) => text_of(self@, section@, key@) == Err::<Seq<char>, ConfigLookupError>(e),
            },
    {
        match self.map.get(section, key) {
            Ok(text) => {
                let chars = to_chars(text.as_str());
                let bare = remove_char(&chars, '"');
                Ok(string_of(&bare))
            },
            Err(e) => Err(e),
        }
    }

    /// The boolean that `key` in `section` holds: `true` or `false`.
    pub fn get_bool(&self, section: &str, key: &str) -> (r: Result<bool, ConfigError>)
        ensures
            r == bool_of(self@, section@, key@),
    {
        match self.get_str(section, key) {
            Ok(text) => {
                let chars = to_chars(text.as_str());
                match read_bool(&chars) {
                    Some(b) => Ok(b),
                    None => Err(ConfigError::Type(ConfigTypeError::NotABoolean)),
                }
            },
            Err(e) => Err(ConfigError::Lookup(e)),
        }
    }

    /// The unsigned integer that `key` in `section` holds.
    pub fn get_int(&self, section: &str, key: &str) -> (r: Result<u32, ConfigError>)
        ensures
            r == int_of(self@, section@, key@),
    {
        match self.get_str(section, key) {
            Ok(text) => {
                let chars = to_chars(text.as_str());
                match read_u32(&chars) {
                    Some(n) => Ok(n),
                    None => Err(ConfigError::Type(ConfigTypeError::NotAnInteger)),
                }
            },
            Err(e) => Err(ConfigError::Lookup(e)),
        }
    }

    /// The filter that `key` in `section` names: one of `Nearest`,
    /// `Gaussian`, `Triangle`, `Catmull`, `Lanczos`.
    pub fn get_filter(&self, section: &str, key: &str) -> (r: Result<FilterType, ConfigError>)
        ensures
            r == filter_of(self@, section@, key@),
    {
        match self.get_str(section, key) {
            Ok(text) => {
                let chars = to_chars(text.as_str());
                if same_text(&chars, &to_chars("Nearest")) {
                    Ok(FilterType::Nearest)
                } else if same_text(&chars, &to_chars("Gaussian")) {
                    Ok(FilterType::Gaussian)
                } else if same_text(&chars, &to_chars("Triangle")) {
                    Ok(FilterType::Triangle)
                } else if same_text(&chars, &to_chars("Catmull")) {
                    Ok(FilterType::CatmullRom)
                } else if same_text(&chars, &to_chars("Lanczos")) {
                    Ok(FilterType::Lanczos3)
                } else {
                    Err(ConfigError::Type(ConfigTypeError::UnknownFilterName))
                }
            },
            Err(e) => Err(ConfigError::Lookup(e)),
        }
    }

    /// Gives `key` in `section` a slot, making the section if it is missing,
    /// and hands back the slot that the key had before. Nothing is checked.
    pub fn set(&mut self, section: &str, key: &str, value: Option<String>) -> (r: Option<
        Option<String>,
    >)
        ensures
            final(self)@ == with_slot(old(self)@, section@, key@, slot_view(value)),
            final(self).syntax() == old(self).syntax(),
            final(self).default_section() == old(self).default_section(),
            match r {
                Some(before) => has_slot(old(self)@, section@, key@) && slot_view(before) == old(
                    self,
                )@[section@][key@],
                None => !has_slot(old(self)@, section@, key@),
            },
    {
        self.map.set(section, key, value)
    }

    /// As `set`, for a value that is borrowed.
    pub fn set_str(&mut self, section: &str, key: &str, value: Option<&str>) -> (r: Option<
        Option<String>,
    >)
        ensures
            final(self)@ == with_slot(
                old(self)@,
                section@,
                key@,
                match value {
                    Some(text) => Some(text@),
                    None => None,
                },
            ),
            final(self).syntax() == old(self).syntax(),
            final(self).default_section() == old(self).default_section(),
            match r {
                Some(before) => has_slot(old(self)@, section@, key@) && slot_view(before) == old(
                    self,
                )@[section@][key@],
                None => !has_slot(old(self)@, section@, key@),
            },
    {
        let owned = match value {
            Some(text) => Some(text.to_owned()),
            None => None,
        };
        self.set(section, key, owned)
    }
}

} // verus!
