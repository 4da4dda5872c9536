//! The built-in functions that stand for native code which is not there.

use crate::dispatch::ExceptionType;
use crate::heap::{badfun_tuple, make_badfun_n, BifId, Cell};
use crate::process::Process;
use crate::term::Term;
use vstd::prelude::*;

verus! {

/// What a built-in function hands back: a value, or an exception of some
/// class with its value.
#[derive(Clone, Copy, Debug, PartialEq, Eq, Structural)]
pub enum BifResult {
    Value(Term),
    Exception(ExceptionType, Term),
}

/// The heap cells after a built-in ran on `args`, and what it handed
/// back. Both built-ins of this module raise `error` with a `badfun` tuple
/// of their arguments, which they put into a new cell.
pub open spec fn bif_spec(bif: BifId, cells: Seq<Cell>, args: Seq<Term>) -> (Seq<Cell>, BifResult) {
    (
        cells.push(Cell::Tuple(badfun_tuple(args))),
        BifResult::Exception(ExceptionType::Error, Term::Boxed(cells.len() as usize)),
    )
}

/// Create an error for a NIF not loaded/not implemented.
pub fn bif_nif_error_1(cur_proc: &mut Process, args: &[Term]) -> (r: BifResult)
    ensures
        final(cur_proc).heap.cells_view() == bif_spec(
            BifId::NifError1,
            old(cur_proc).heap.cells_view(),
            args@,
        ).0,
        r == bif_spec(BifId::NifError1, old(cur_proc).heap.cells_view(), args@).1,
        final(cur_proc).heap.stack == old(cur_proc).heap.stack,
{
    BifResult::Exception(ExceptionType::Error, make_badfun_n(args, &mut cur_proc.heap))
}

/// Create an error for a NIF not loaded/not implemented.
pub fn bif_nif_error_2(cur_proc: &mut Process, args: &[Term]) -> (r: BifResult)
    ensures
        final(cur_proc).heap.cells_view() == bif_spec(
            BifId::NifError2,
            old(cur_proc).heap.cells_view(),
            args@,
        ).0,
        r == bif_spec(BifId::NifError2, old(cur_proc).heap.cells_view(), args@).1,
        final(cur_proc).heap.stack == old(cur_proc).heap.stack,
{
    BifResult::Exception(ExceptionType::Error, make_badfun_n(args, &mut cur_proc.heap))
}

/// Runs the built-in of the given name on the given arguments.
pub fn apply_bif(bif: BifId, cur_proc: &mut Process, args: &[Term]) -> (r: BifResult)
    ensures
        final(cur_proc).heap.cells_view() == bif_spec(
            bif,
            old(cur_proc).heap.cells_view(),
            args@,
        ).0,
        r == bif_spec(bif, old(cur_proc).heap.cells_view(), args@).1,
        final(cur_proc).heap.stack == old(cur_proc).heap.stack,
{
    match bif {
        BifId::NifError1 => bif_nif_error_1(cur_proc, args),
        BifId::NifError2 => bif_nif_error_2(cur_proc, args),
    }
}

} // verus!
