//! Whether the terminal shows Unicode, as far as the locale tells.

use vstd::prelude::*;
use crate::util::case::{lowercase_of, to_lowercase};
use crate::util::text::{contains_sub, has_sub, to_chars};

verus! {

/// The locale that counts: the first that is set among the locale for
/// everything, the locale for characters, and the language; nothing where
/// none is set.
pub open spec fn locale(
    lc_all: Option<Seq<char>>,
    lc_ctype: Option<Seq<char>>,
    lang: Option<Seq<char>>,
) -> Seq<char> {
    match lc_all {
        Some(l) => l,
        None => match lc_ctype {
            Some(l) => l,
            None => match lang {
                Some(l) => l,
                None => Seq::empty(),
            },
        },
    }
}

/// Whether a locale in lower case names UTF-8.
pub open spec fn names_utf8(lower: Seq<char>) -> bool {
    contains_sub(lower, "utf-8"@) || contains_sub(lower, "utf8"@)
}

/// A borrowed text as a value.
pub open spec fn text_of(s: Option<&str>) -> Option<Seq<char>> {
    match s {
        Some(text) => Some(text@),
        None => None,
    }
}

/// Whether a locale that is already in lower case names UTF-8.
pub fn lower_names_utf8(lower: &str) -> (r: bool)
    ensures
        r == names_utf8(lower@),
{
    let chars = to_chars(lower);
    has_sub(&chars, &to_chars("utf-8")) || has_sub(&chars, &to_chars("utf8"))
}

/// Whether the terminal shows Unicode: whether the locale that counts names
/// UTF-8, in whatever case.
#[allow(dead_code)]
pub fn supports_unicode(lc_all: Option<&str>, lc_ctype: Option<&str>, lang: Option<&str>) -> (r:
    bool)
    ensures
        r == names_utf8(lowercase_of(locale(text_of(lc_all), text_of(lc_ctype), text_of(lang)))),
{
    let chosen: &str = match lc_all {
        Some(l) => l,
        None => match lc_ctype {
            Some(l) => l,
            None => match lang {
                Some(l) => l,
                None => "",
            },
        },
    };
    proof {
        reveal_strlit("");
        assert(""@ =~= Seq::<char>::empty());
    }
    let lower = to_lowercase(chosen);
    lower_names_utf8(lower.as_str())
}

} // verus!
