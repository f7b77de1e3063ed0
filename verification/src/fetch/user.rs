//! What is known of the user.

use vstd::prelude::*;
use crate::data::UNKNOWN;
use crate::util::text::{remove_char, string_of, to_chars, without_char};

verus! {

/// The user and the host.
pub struct UserInfo<T> {
    pub username: T,
    pub hostname: T,
}

impl View for UserInfo<String> {
    type V = UserInfo<Seq<char>>;

    open spec fn view(&self) -> UserInfo<Seq<char>> {
        UserInfo {
            username: self.username@,
            hostname: self.hostname@,
        }
    }
}

impl UserInfo<String> {
    /// Whether every field holds `text`.
    pub open spec fn all_are(&self, text: Seq<char>) -> bool {
        &&& self.username@ == text
        &&& self.hostname@ == text
    }

    /// A record with `text` in every field.
    pub fn filled(text: &str) -> (r: Self)
        ensures
            r.all_are(text@),
    {
        UserInfo {
            username: text.to_owned(),
            hostname: text.to_owned(),
        }
    }
}

/// Records the user: the name that the environment gives, or `UNKNOWN`
/// where it gives none, and the host name without its line feeds.
pub fn user(data: &mut UserInfo<String>, username: Option<String>, hostname: &str)
    ensures
        final(data)@ == (UserInfo {
            username: match username {
                Some(name) => name@,
                None => UNKNOWN@,
            },
            hostname: without_char(hostname@, '\n'),
        }),
{
    data.username = match username {
        Some(name) => name,
        None => UNKNOWN.to_owned(),
    };
    data.hostname = string_of(&remove_char(&to_chars(hostname), '\n'));
}

} // verus!
