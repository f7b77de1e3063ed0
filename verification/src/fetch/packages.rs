//! What is known of the installed packages.

use vstd::prelude::*;
use crate::util::numeral::{signed_decimal, signed_decimal_of};
use crate::util::text::string_of;

verus! {

/// The package managers, each with the number of its packages.
pub struct PackageInfo<T> {
    pub pacman: T,
    pub pacman_version: T,
    pub cargo: T,
    pub cargo_version: T,
}

impl View for PackageInfo<String> {
    type V = PackageInfo<Seq<char>>;

    open spec fn view(&self) -> PackageInfo<Seq<char>> {
        PackageInfo {
            pacman: self.pacman@,
            pacman_version: self.pacman_version@,
            cargo: self.cargo@,
            cargo_version: self.cargo_version@,
        }
    }
}

impl PackageInfo<String> {
    /// Whether every field holds `text`.
    pub open spec fn all_are(&self, text: Seq<char>) -> bool {
        &&& self.pacman@ == text
        &&& self.pacman_version@ == text
        &&& self.cargo@ == text
        &&& self.cargo_version@ == text
    }

    /// A record with `text` in every field.
    pub fn filled(text: &str) -> (r: Self)
        ensures
            r.all_are(text@),
    {
        PackageInfo {
            pacman: text.to_owned(),
            pacman_version: text.to_owned(),
            cargo: text.to_owned(),
            cargo_version: text.to_owned(),
        }
    }
}

/// Records the numbers of packages that were counted.
pub fn packages(data: &mut PackageInfo<String>, cargo: i32, pacman: i32)
    ensures
        final(data)@ == (PackageInfo {
            cargo: signed_decimal(cargo as int),
            pacman: signed_decimal(pacman as int),
            ..old(data)@
        }),
{
    data.cargo = string_of(&signed_decimal_of(cargo as i64));
    data.pacman = string_of(&signed_decimal_of(pacman as i64));
}

} // verus!
