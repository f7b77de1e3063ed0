//! One line of the fetch text.

use vstd::prelude::*;

verus! {

/// A module: one line of the fetch text.
#[derive(PartialEq, Eq)]
pub struct FetchModule {
    pub string: String,
}

impl FetchModule {
    /// A module with this text.
    #[inline]
    pub fn new(string: String) -> (m: FetchModule)
        ensures
            m.string == string,
    {
        FetchModule { string }
    }

    /// The text of the module.
    #[inline]
    pub fn get_string(&self) -> (s: &String)
        ensures
            *s == self.string,
    {
        &self.string
    }
}

} // verus!
