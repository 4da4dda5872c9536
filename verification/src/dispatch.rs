//! What an instruction hands back to the loop that runs it.

use crate::term::Term;
use vstd::prelude::*;

verus! {

/// The class of an exception.
#[derive(Clone, Copy, Debug, PartialEq, Eq, Structural)]
pub enum ExceptionType {
    Throw,
    Error,
    Exit,
}

/// A failure of the engine itself, as opposed to an exception of the
/// program that it runs. A fault stops the process that met it.
#[derive(Clone, Copy, Debug, PartialEq, Eq, Structural)]
pub enum Fault {
    /// The code ends inside the instruction's operands.
    TruncatedInstruction,
    /// An operand has not the shape that the instruction asks for.
    BadOperand,
    /// `return` found no continuation although the stack holds frames.
    BadContinuation,
    /// No clause of a function matched: the module, the function and the
    /// arity, as the instruction names them.
    FunctionClause(Term, Term, Term),
}

/// How an instruction ended.
#[derive(Clone, Copy, Debug, PartialEq, Eq, Structural)]
pub enum DispatchResult {
    /// Go on at the instruction pointer.
    Normal,
    /// An exception of the given class was raised with the given value.
    Error(ExceptionType, Term),
    /// The process returned from its last frame; the value is its result.
    Finished(Term),
    /// The engine cannot go on with this process.
    Fault(Fault),
}

/// The instructions that transfer control.
#[derive(Clone, Copy, Debug, PartialEq, Eq, Structural)]
pub enum Opcode {
    Call,
    CallOnly,
    CallExt,
    CallExtOnly,
    Return,
    FuncInfo,
    Badmatch,
}

/// The number of operands that follow an instruction in the code.
pub open spec fn arity_of(op: Opcode) -> usize {
    match op {
        Opcode::Call => 2,
        Opcode::CallOnly => 2,
        Opcode::CallExt => 2,
        Opcode::CallExtOnly => 2,
        Opcode::Return => 0,
        Opcode::FuncInfo => 3,
        Opcode::Badmatch => 1,
    }
}

/// The number of operands that follow an instruction in the code.
#[verifier::when_used_as_spec(arity_of)]
pub fn opcode_arity(op: Opcode) -> (n: usize)
    ensures
        n == arity_of(op),
{
    match op {
        Opcode::Call => 2,
        Opcode::CallOnly => 2,
        Opcode::CallExt => 2,
        Opcode::CallExtOnly => 2,
        Opcode::Return => 0,
        Opcode::FuncInfo => 3,
        Opcode::Badmatch => 1,
    }
}

} // verus!
