//! Positions in loaded code.

use vstd::prelude::*;

verus! {

/// A position in the instruction stream, counted in words from its start.
#[derive(Clone, Copy, Debug, PartialEq, Eq, Structural)]
pub struct CodePtr {
    pub offset: usize,
}

impl CodePtr {
    /// The position `offset` words into the stream.
    pub fn new(offset: usize) -> (p: CodePtr)
        ensures
            p.offset == offset,
    {
        CodePtr { offset }
    }
}

} // verus!
