//! Module implements opcodes related to execution control: calls, returns
//! and the failures that end a function.
//!
//! Every instruction takes the context and the process and hands back a
//! `DispatchResult`. It reads its operands behind the instruction pointer.
//! Where it ends with a fault, it has changed nothing.

use crate::bif_sys::bif_spec;
use crate::code::CodePtr;
use crate::dispatch::{arity_of, opcode_arity, DispatchResult, ExceptionType, Fault, Opcode};
use crate::heap::{
    badfun_tuple, badmatch_tuple, make_badfun, make_badmatch, resolve_import, Callable, Cell,
};
use crate::process::Process;
use crate::runtime_ctx::{
    advance, bif_outcome, call_bif, load_value, operand_at, Context, MAX_XREGS,
};
use crate::term::Term;
use vstd::prelude::*;

verus! {

/// The operands of `call` and `call_only`: the arity, a small integer,
/// and the place to go to, a reference into code.
pub open spec fn call_operands(ctx: Context) -> Result<(usize, CodePtr), Fault> {
    match (operand_at(ctx.code@, ctx.ip, 0), operand_at(ctx.code@, ctx.ip, 1)) {
        (Some(arity), Some(location)) => match (arity.small_count(), location.code_ref()) {
            (Some(n), Some(target)) => Ok((n, target)),
            _ => Err(Fault::BadOperand),
        },
        _ => Err(Fault::TruncatedInstruction),
    }
}

/// The context after a call into local code, and how the instruction
/// ends. The call sets the count of live registers and goes to its
/// target; where `save_cp` holds, the continuation becomes the
/// instruction after the call, else it stays.
pub open spec fn call_step(ctx: Context, save_cp: bool) -> (Context, DispatchResult) {
    match call_operands(ctx) {
        Ok((arity, target)) => (
            Context {
                live: arity,
                ip: target,
                cp: if save_cp {
                    Some(advance(ctx.ip, arity_of(Opcode::Call) as int))
                } else {
                    ctx.cp
                },
                ..ctx
            },
            DispatchResult::Normal,
        ),
        Err(fault) => (ctx, DispatchResult::Fault(fault)),
    }
}

/// The operands of `call_ext` and `call_ext_only`: the arity, a small
/// integer, and the import, which may be any value.
pub open spec fn ext_operands(ctx: Context) -> Result<(usize, Term), Fault> {
    match (operand_at(ctx.code@, ctx.ip, 0), operand_at(ctx.code@, ctx.ip, 1)) {
        (Some(arity), Some(import)) => match arity.small_count() {
            Some(n) => Ok((n, import)),
            None => Err(Fault::BadOperand),
        },
        _ => Err(Fault::TruncatedInstruction),
    }
}

/// What a call through an import does, from the context `pre` and the
/// heap cells `pre_cells` to `post`, `post_cells` and the result `r`.
///
/// An operand that is no import, or an import that is bound to nothing,
/// raises `error` with `{badfun, Operand}`; the count of live registers is
/// set, the two code pointers stay. An import bound to code is gone to,
/// and on the way the continuation is set where `save_cp` holds. An import
/// bound to a built-in runs it on the first registers: what the built-in
/// hands back is the result, and execution stands behind the instruction.
pub open spec fn call_ext_effect(
    pre: Context,
    pre_cells: Seq<Cell>,
    save_cp: bool,
    post: Context,
    post_cells: Seq<Cell>,
    r: DispatchResult,
) -> bool {
    match ext_operands(pre) {
        Err(fault) => r == DispatchResult::Fault(fault) && post == pre && post_cells == pre_cells,
        Ok((arity, import)) => match resolve_import(pre_cells, import) {
            None => {
                &&& r == DispatchResult::Error(
                    ExceptionType::Error,
                    Term::Boxed(pre_cells.len() as usize),
                )
                &&& post_cells == pre_cells.push(Cell::Tuple(badfun_tuple(seq![import])))
                &&& post == Context { live: arity, ..pre }
            },
            Some(Callable::Code(target)) => {
                &&& r == DispatchResult::Normal
                &&& post_cells == pre_cells
                &&& post == Context {
                    live: arity,
                    ip: target,
                    cp: if save_cp {
                        Some(advance(pre.ip, arity_of(Opcode::CallExt) as int))
                    } else {
                        pre.cp
                    },
                    ..pre
                }
            },
            Some(Callable::Bif(bif)) => if arity > MAX_XREGS {
                r == DispatchResult::Fault(Fault::BadOperand) && post == pre && post_cells
                    == pre_cells
            } else {
                let ran = bif_spec(bif, pre_cells, pre.regs@.subrange(0, arity as int));
                &&& post_cells == ran.0
                &&& r == bif_outcome(pre.regs@, ran.1).1
                &&& post.regs@ == bif_outcome(pre.regs@, ran.1).0
                &&& post.live == arity
                &&& post.ip == advance(pre.ip, arity_of(Opcode::CallExt) as int)
                &&& post.cp == pre.cp
                &&& post.code == pre.code
            },
        },
    }
}

/// The context after `return`, and how the instruction ends. With a
/// continuation, execution goes on there and the continuation is spent.
/// Without one, the process has finished where its stack is empty, and its
/// result is the first register; where the stack holds frames, the
/// continuation was lost, which is a fault.
pub open spec fn return_step(ctx: Context, stack_depth: nat) -> (Context, DispatchResult) {
    match ctx.cp {
        Some(target) => (Context { ip: target, cp: None, ..ctx }, DispatchResult::Normal),
        None => if stack_depth == 0 {
            (ctx, DispatchResult::Finished(ctx.regs@[0]))
        } else {
            (ctx, DispatchResult::Fault(Fault::BadContinuation))
        },
    }
}

/// The fault that `func_info` ends with: the function that found no
/// clause, by module, name and arity.
pub open spec fn func_info_fault(ctx: Context) -> Fault {
    match (
        operand_at(ctx.code@, ctx.ip, 0),
        operand_at(ctx.code@, ctx.ip, 1),
        operand_at(ctx.code@, ctx.ip, 2),
    ) {
        (Some(m), Some(f), Some(arity)) => Fault::FunctionClause(m, f, arity),
        _ => Fault::TruncatedInstruction,
    }
}

/// The value that `badmatch` reports, or the fault that keeps it from
/// reporting.
pub open spec fn badmatch_value(ctx: Context, stack: Seq<Term>) -> Result<Term, Fault> {
    match operand_at(ctx.code@, ctx.ip, 0) {
        Some(src) => match load_value(ctx.regs@, stack, src) {
            Some(value) => Ok(value),
            None => Err(Fault::BadOperand),
        },
        None => Err(Fault::TruncatedInstruction),
    }
}

/// Perform a call to a `location` in code, storing address of the next
/// opcode in `ctx.cp`.
pub fn opcode_call(ctx: &mut Context, curr_p: &mut Process) -> (r: DispatchResult)
    ensures
        *final(ctx) == call_step(*old(ctx), true).0,
        r == call_step(*old(ctx), true).1,
        *final(curr_p) == *old(curr_p),
{
    // Structure: call(arity:int, loc:CP)
    let n = opcode_arity(Opcode::Call);
    let (arity, location) = match (ctx.operand(0), ctx.operand(n - 1)) {
        (Some(arity), Some(location)) => (arity, location),
        _ => {
            return DispatchResult::Fault(Fault::TruncatedInstruction);
        },
    };
    let (live, target) = match (arity.small_get_u(), location.cp_get()) {
        (Some(live), Some(target)) => (live, target),
        _ => {
            return DispatchResult::Fault(Fault::BadOperand);
        },
    };
    ctx.live = live;
    ctx.cp = Some(CodePtr::new(ctx.ip.offset + n));  // Points at the next opcode after this
    ctx.ip = target;
    DispatchResult::Normal
}

/// Perform a call to a `location` in code, the `ctx.cp` is not updated.
pub fn opcode_call_only(ctx: &mut Context, curr_p: &mut Process) -> (r: DispatchResult)
    ensures
        *final(ctx) == call_step(*old(ctx), false).0,
        r == call_step(*old(ctx), false).1,
        *final(curr_p) == *old(curr_p),
{
    // Structure: call_only(arity:int, loc:cp)
    let n = opcode_arity(Opcode::CallOnly);
    let (arity, location) = match (ctx.operand(0), ctx.operand(n - 1)) {
        (Some(arity), Some(location)) => (arity, location),
        _ => {
            return DispatchResult::Fault(Fault::TruncatedInstruction);
        },
    };
    let (live, target) = match (arity.small_get_u(), location.cp_get()) {
        (Some(live), Some(target)) => (live, target),
        _ => {
            return DispatchResult::Fault(Fault::BadOperand);
        },
    };
    ctx.live = live;
    ctx.ip = target;
    DispatchResult::Normal
}

/// Performs a tail recursive call to a destination (an import on the
/// heap) which can point to an external function or a BIF. Does not
/// update the `ctx.cp`.
pub fn opcode_call_ext_only(ctx: &mut Context, curr_p: &mut Process) -> (r: DispatchResult)
    ensures
        call_ext_effect(
            *old(ctx),
            old(curr_p).heap.cells_view(),
            false,
            *final(ctx),
            final(curr_p).heap.cells_view(),
            r,
        ),
        final(curr_p).heap.stack == old(curr_p).heap.stack,
{
    // Structure: call_ext_only(arity:int, import:boxed)
    shared_call_ext(ctx, curr_p, false)
}

/// Performs a call to a destination (an import on the heap) which can
/// point to an external function or a BIF. Updates the `ctx.cp` with
/// return IP.
pub fn opcode_call_ext(ctx: &mut Context, curr_p: &mut Process) -> (r: DispatchResult)
    ensures
        call_ext_effect(
            *old(ctx),
            old(curr_p).heap.cells_view(),
            true,
            *final(ctx),
            final(curr_p).heap.cells_view(),
            r,
        ),
        final(curr_p).heap.stack == old(curr_p).heap.stack,
{
    // Structure: call_ext(arity:int, destination:boxed)
    shared_call_ext(ctx, curr_p, true)
}

fn shared_call_ext(ctx: &mut Context, curr_p: &mut Process, save_cp: bool) -> (r: DispatchResult)
    ensures
        call_ext_effect(
            *old(ctx),
            old(curr_p).heap.cells_view(),
            save_cp,
            *final(ctx),
            final(curr_p).heap.cells_view(),
            r,
        ),
        final(curr_p).heap.stack == old(curr_p).heap.stack,
{
    let n = opcode_arity(Opcode::CallExt);
    let (arity, imp0) = match (ctx.operand(0), ctx.operand(n - 1)) {
        (Some(arity), Some(imp0)) => (arity, imp0),
        _ => {
            return DispatchResult::Fault(Fault::TruncatedInstruction);
        },
    };
    let arity = match arity.small_get_u() {
        Some(arity) => arity,
        None => {
            return DispatchResult::Fault(Fault::BadOperand);
        },
    };
    let next = CodePtr::new(ctx.ip.offset + n);
    // The import on the heap which contains m:f/arity
    let target = match curr_p.heap.import_at(imp0) {
        Some(import) => import.resolve(),
        None => None,
    };
    match target {
        Some(Callable::Bif(bif)) => {
            // Perform a BIF application
            let r = call_bif(ctx, curr_p, bif, arity, !save_cp);
            if arity <= MAX_XREGS {
                ctx.live = arity;
                ctx.ip = next;
            } else {
                assert(*ctx =~= *old(ctx));
            }
            r
        },
        Some(Callable::Code(location)) => {
            // Perform a regular call to BEAM code, save CP and jump
            ctx.live = arity;
            if save_cp {
                ctx.cp = Some(next);  // Points at the next opcode after this
            }
            ctx.ip = location;
            DispatchResult::Normal
        },
        None => {
            // Create a `{badfun, _}` error
            let badfun = make_badfun(imp0, &mut curr_p.heap);
            ctx.live = arity;
            DispatchResult::Error(ExceptionType::Error, badfun)
        },
    }
}

/// Jump to the value in `ctx.cp`, set `ctx.cp` to NULL. Empty stack means
/// that the process has no more code to execute and ends normally.
pub fn opcode_return(ctx: &mut Context, curr_p: &mut Process) -> (r: DispatchResult)
    ensures
        *final(ctx) == return_step(*old(ctx), old(curr_p).heap.stack@.len()).0,
        r == return_step(*old(ctx), old(curr_p).heap.stack@.len()).1,
        *final(curr_p) == *old(curr_p),
{
    // Structure: return()
    match ctx.cp {
        Some(target) => {
            ctx.ip = target;
            ctx.cp = None;
            DispatchResult::Normal
        },
        None => {
            if curr_p.heap.stack_depth() == 0 {
                // Process end of life: return on empty stack
                DispatchResult::Finished(ctx.regs[0])
            } else {
                DispatchResult::Fault(Fault::BadContinuation)
            }
        },
    }
}

/// Reports that no clause of the function matched.
pub fn opcode_func_info(ctx: &mut Context, curr_p: &mut Process) -> (r: DispatchResult)
    ensures
        r == DispatchResult::Fault(func_info_fault(*old(ctx))),
        *final(ctx) == *old(ctx),
        *final(curr_p) == *old(curr_p),
{
    // Structure: func_info(module:atom, function:atom, arity:int)
    let n = opcode_arity(Opcode::FuncInfo);
    match (ctx.operand(0), ctx.operand(1), ctx.operand(n - 1)) {
        (Some(m), Some(f), Some(arity)) => DispatchResult::Fault(Fault::FunctionClause(m, f, arity)),
        _ => DispatchResult::Fault(Fault::TruncatedInstruction),
    }
}

/// Create an error:badmatch exception
pub fn opcode_badmatch(ctx: &mut Context, curr_p: &mut Process) -> (r: DispatchResult)
    ensures
        *final(ctx) == *old(ctx),
        final(curr_p).heap.stack == old(curr_p).heap.stack,
        match badmatch_value(*old(ctx), old(curr_p).heap.stack@) {
            Ok(value) => r == DispatchResult::Error(
                ExceptionType::Error,
                Term::Boxed(old(curr_p).heap.cells_view().len() as usize),
            ) && final(curr_p).heap.cells_view() == old(curr_p).heap.cells_view().push(
                Cell::Tuple(badmatch_tuple(value)),
            ),
            Err(fault) => r == DispatchResult::Fault(fault) && final(curr_p).heap.cells_view()
                == old(curr_p).heap.cells_view(),
        },
{
    // Structure: badmatch(value)
    let src = match ctx.operand(opcode_arity(Opcode::Badmatch) - 1) {
        Some(src) => src,
        None => {
            return DispatchResult::Fault(Fault::TruncatedInstruction);
        },
    };
    let val = match ctx.load(src, &curr_p.heap) {
        Some(val) => val,
        None => {
            return DispatchResult::Fault(Fault::BadOperand);
        },
    };
    let badmatch = make_badmatch(val, &mut curr_p.heap);
    DispatchResult::Error(ExceptionType::Error, badmatch)
}

/// A call followed by a return stands behind the call, with the
/// continuation spent: `call` keeps the place of the next instruction, and
/// `return` goes there.
pub proof fn lemma_call_then_return(ctx: Context, stack_depth: nat)
    requires
        call_operands(ctx) is Ok,
    ensures
        call_step(ctx, true).1 == DispatchResult::Normal,
        return_step(call_step(ctx, true).0, stack_depth).1 == DispatchResult::Normal,
        return_step(call_step(ctx, true).0, stack_depth).0 == (Context {
            ip: advance(ctx.ip, arity_of(Opcode::Call) as int),
            cp: None,
            live: call_operands(ctx)->Ok_0.0,
            ..ctx
        }),
{
}

/// A call goes to its target and keeps the place of the next instruction
/// as the continuation; a tail call goes to the same target and leaves the
/// continuation alone.
pub proof fn lemma_call_transfers(ctx: Context)
    requires
        call_operands(ctx) is Ok,
    ensures
        call_step(ctx, true).0.ip == call_operands(ctx)->Ok_0.1,
        call_step(ctx, true).0.cp == Some(advance(ctx.ip, 2)),
        call_step(ctx, false).0.ip == call_operands(ctx)->Ok_0.1,
        call_step(ctx, false).0.cp == ctx.cp,
{
}

/// A call through what resolves to nothing raises `badfun` with the
/// operand and moves neither code pointer, whichever the form of the call.
pub proof fn lemma_call_ext_unresolved(
    pre: Context,
    pre_cells: Seq<Cell>,
    save_cp: bool,
    post: Context,
    post_cells: Seq<Cell>,
    r: DispatchResult,
)
    requires
        call_ext_effect(pre, pre_cells, save_cp, post, post_cells, r),
        ext_operands(pre) is Ok,
        resolve_import(pre_cells, ext_operands(pre)->Ok_0.1) is None,
    ensures
        post.ip == pre.ip,
        post.cp == pre.cp,
        r == DispatchResult::Error(ExceptionType::Error, Term::Boxed(pre_cells.len() as usize)),
        post_cells.last() == Cell::Tuple(badfun_tuple(seq![ext_operands(pre)->Ok_0.1])),
{
}

/// A call through an import that is bound to a built-in ends with what
/// the built-in hands back, the built-ins of this crate with their
/// exception: the registers stay, and the heap grows by the one cell that
/// the built-in made.
pub proof fn lemma_call_ext_bif(
    pre: Context,
    pre_cells: Seq<Cell>,
    save_cp: bool,
    post: Context,
    post_cells: Seq<Cell>,
    r: DispatchResult,
)
    requires
        call_ext_effect(pre, pre_cells, save_cp, post, post_cells, r),
        ext_operands(pre) is Ok,
        ext_operands(pre)->Ok_0.0 <= MAX_XREGS,
        resolve_import(pre_cells, ext_operands(pre)->Ok_0.1) matches Some(Callable::Bif(_)),
    ensures
        r == DispatchResult::Error(ExceptionType::Error, Term::Boxed(pre_cells.len() as usize)),
        post_cells == pre_cells.push(
            Cell::Tuple(
                badfun_tuple(pre.regs@.subrange(0, ext_operands(pre)->Ok_0.0 as int)),
            ),
        ),
        post.regs@ == pre.regs@,
        post.cp == pre.cp,
{
}

} // verus!
