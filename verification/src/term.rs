//! The values that registers, the stack and the instruction stream hold.

use crate::code::CodePtr;
use vstd::prelude::*;

verus! {

/// A value of the machine. What lives on a heap is reached through
/// `Boxed`, which names a heap cell.
#[derive(Clone, Copy, Debug, PartialEq, Eq, Structural)]
pub enum Term {
    /// The mark of a slot that holds nothing.
    NonValue,
    /// The empty list.
    Nil,
    /// A small integer.
    Small(i64),
    /// An atom, by its index in the atom table.
    Atom(usize),
    /// A reference to a register.
    XReg(usize),
    /// A reference to a stack slot, counted from the top.
    YReg(usize),
    /// A position in code.
    CP(CodePtr),
    /// A reference to a heap cell.
    Boxed(usize),
}

impl Term {
    /// The mark of a slot that holds nothing.
    pub fn non_value() -> (t: Term)
        ensures
            t == Term::NonValue,
    {
        Term::NonValue
    }

    /// Whether this is anything but the empty mark.
    pub fn is_value(&self) -> (b: bool)
        ensures
            b == (*self != Term::NonValue),
    {
        match self {
            Term::NonValue => false,
            _ => true,
        }
    }

    /// The count that a small integer stands for: what a small integer
    /// that is not negative and fits the machine word holds.
    pub open spec fn small_count(self) -> Option<usize> {
        match self {
            Term::Small(v) => if 0 <= v <= usize::MAX {
                Some(v as usize)
            } else {
                None
            },
            _ => None,
        }
    }

    /// The count that a small integer stands for, if this is one.
    pub fn small_get_u(&self) -> (r: Option<usize>)
        ensures
            r == self.small_count(),
    {
        match self {
            Term::Small(v) => {
                if *v >= 0 && *v as u64 <= usize::MAX as u64 {
                    Some(*v as usize)
                } else {
                    None
                }
            },
            _ => None,
        }
    }

    /// The code position that a term refers to.
    pub open spec fn code_ref(self) -> Option<CodePtr> {
        match self {
            Term::CP(p) => Some(p),
            _ => None,
        }
    }

    /// The code position that this term refers to, if it is such a
    /// reference.
    pub fn cp_get(&self) -> (r: Option<CodePtr>)
        ensures
            r == self.code_ref(),
    {
        match self {
            Term::CP(p) => Some(*p),
            _ => None,
        }
    }
}

/// The closure side of a value.
pub trait FunAspect {
    /// Whether the value has the shape of a boxed closure.
    spec fn fun_shape(&self) -> bool;

    /// Check whether a value is a boxed fun (a closure).
    fn is_fun(&self) -> (b: bool)
        ensures
            b == self.fun_shape(),
    ;
}

impl FunAspect for Term {
    /// No shape of this machine's values is a closure.
    open spec fn fun_shape(&self) -> bool {
        false
    }

    fn is_fun(&self) -> (b: bool) {
        false
    }
}

} // verus!
