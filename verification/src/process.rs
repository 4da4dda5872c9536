//! A process, as far as the instructions touch it.

use crate::heap::{Cell, Heap};
use crate::term::Term;
use vstd::prelude::*;

verus! {

/// A process: the owner of a heap and a stack.
pub struct Process {
    pub heap: Heap,
}

impl Process {
    /// A process with an empty heap and an empty stack.
    pub fn new() -> (p: Process)
        ensures
            p.heap.cells_view() == Seq::<Cell>::empty(),
            p.heap.stack@ == Seq::<Term>::empty(),
    {
        Process { heap: Heap::new() }
    }
}

} // verus!
