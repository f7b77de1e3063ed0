//! The symbol table: replacement text by upper-case name.

use vstd::prelude::*;
use crate::util::table::Table;

verus! {

/// Replacement texts by name.
pub struct SymbolTable {
    table: Table<String>,
}

impl View for SymbolTable {
    type V = Map<Seq<char>, Seq<char>>;

    closed spec fn view(&self) -> Map<Seq<char>, Seq<char>> {
        Map::new(|name: Seq<char>| self.table@.contains_key(name), |name: Seq<char>| self.table@[name]@)
    }
}

impl SymbolTable {
    /// A table without symbols.
    pub fn new() -> (t: Self)
        ensures
            t@ == Map::<Seq<char>, Seq<char>>::empty(),
    {
        let t = SymbolTable { table: Table::new() };
        assert(t@ =~= Map::<Seq<char>, Seq<char>>::empty());
        t
    }

    /// Gives `name` the replacement `text`; a name that is already known gets
    /// the new text.
    pub fn insert(&mut self, name: &str, text: &str)
        ensures
            final(self)@ == old(self)@.insert(name@, text@),
    {
        self.table.insert(name, text.to_owned());
        assert(self@ =~= old(self)@.insert(name@, text@));
    }

    /// The replacement for `name`.
    pub fn get(&self, name: &str) -> (r: Option<&String>)
        ensures
            match r {
                Some(text) => self@.contains_key(name@) && text@ == self@[name@],
                None => !self@.contains_key(name@),
            },
    {
        self.table.get(name)
    }

    /// Whether `name` has a replacement.
    pub fn contains(&self, name: &str) -> (r: bool)
        ensures
            r == self@.contains_key(name@),
    {
        self.table.contains_key(name)
    }
}

} // verus!
