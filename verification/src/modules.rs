//! The lines of the fetch text, in order.

use vstd::prelude::*;
use crate::modules::module::FetchModule;

pub mod module;

verus! {

/// The modules of the fetch text, in order.
pub struct FetchModules {
    pub modules: Vec<FetchModule>,
}

impl FetchModules {
    /// No modules.
    #[inline]
    pub fn new() -> (m: FetchModules)
        ensures
            m.modules@ == Seq::<FetchModule>::empty(),
    {
        FetchModules { modules: Vec::new() }
    }

    /// Adds a module behind the others.
    #[inline]
    pub fn add_module(&mut self, module: FetchModule)
        ensures
            final(self).modules@ == old(self).modules@.push(module),
    {
        self.modules.push(module);
    }

    /// The modules, in the order in which they were added.
    #[inline]
    pub fn get_modules(&self) -> (r: &Vec<FetchModule>)
        ensures
            r@ == self.modules@,
    {
        &self.modules
    }

    /// The number of modules.
    #[inline]
    pub fn get_module_count(&self) -> (n: usize)
        ensures
            n == self.modules@.len(),
    {
        self.modules.len()
    }
}

} // verus!
