//! What is known of the shell.

use vstd::prelude::*;
use crate::data::UNKNOWN;

verus! {

/// The shell and its version.
pub struct ShellInfo<T> {
    pub shell: T,
    pub shell_version: T,
}

impl View for ShellInfo<String> {
    type V = ShellInfo<Seq<char>>;

    open spec fn view(&self) -> ShellInfo<Seq<char>> {
        ShellInfo {
            shell: self.shell@,
            shell_version: self.shell_version@,
        }
    }
}

impl ShellInfo<String> {
    /// Whether every field holds `text`.
    pub open spec fn all_are(&self, text: Seq<char>) -> bool {
        &&& self.shell@ == text
        &&& self.shell_version@ == text
    }

    /// A record with `text` in every field.
    pub fn filled(text: &str) -> (r: Self)
        ensures
            r.all_are(text@),
    {
        ShellInfo {
            shell: text.to_owned(),
            shell_version: text.to_owned(),
        }
    }
}

/// Records the shell that the environment names, or `UNKNOWN` where it
/// names none.
pub fn shell(data: &mut ShellInfo<String>, shell: Option<String>)
    ensures
        final(data)@ == (ShellInfo {
            shell: match shell {
                Some(name) => name@,
                None => UNKNOWN@,
            },
            ..old(data)@
        }),
{
    data.shell = match shell {
        Some(name) => name,
        None => UNKNOWN.to_owned(),
    };
}

} // verus!
