//! A loaded module, as the code registry keeps it.

use crate::term::Term;
use std::sync::Arc;
use vstd::prelude::*;

verus! {

/// A module that has been loaded. It is known by its name, an atom.
#[derive(Debug, PartialEq, Eq)]
pub struct Module {
    pub name: Term,
}

/// A shared handle on a module.
pub type Ptr = Arc<Module>;

impl Module {
    /// A module of the given name, behind a shared handle.
    pub fn new(name: Term) -> (m: Ptr)
        ensures
            m.name == name,
    {
        Arc::new(Module { name })
    }

    /// The module's name.
    pub fn name(&self) -> (t: Term)
        ensures
            t == self.name,
    {
        self.name
    }
}

} // verus!
