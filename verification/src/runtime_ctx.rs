//! The state in which one process runs its code, and the hand-over to the
//! built-in functions.

use crate::bif_sys::{apply_bif, bif_spec, BifResult};
use crate::code::CodePtr;
use crate::dispatch::{DispatchResult, Fault};
use crate::heap::{stack_slot, BifId, Heap};
use crate::process::Process;
use crate::term::Term;
use vstd::prelude::*;

verus! {

/// The number of registers.
pub const MAX_XREGS: usize = 256;

/// The running state of a process.
///
/// While an instruction runs, `ip` stands at its first operand; the
/// instruction that follows starts behind its last operand.
pub struct Context<'a> {
    /// The code that the process runs.
    pub code: &'a [Term],
    /// Where execution stands.
    pub ip: CodePtr,
    /// Where the current function returns to, if anywhere.
    pub cp: Option<CodePtr>,
    /// How many registers hold arguments of the current call.
    pub live: usize,
    /// The registers.
    pub regs: [Term; 256],
}

/// The operand `k` places behind `ip`.
pub open spec fn operand_at(code: Seq<Term>, ip: CodePtr, k: int) -> Option<Term> {
    if 0 <= k && ip.offset + k < code.len() {
        Some(code[ip.offset + k])
    } else {
        None
    }
}

/// The position `n` words behind `ip`.
pub open spec fn advance(ip: CodePtr, n: int) -> CodePtr {
    CodePtr { offset: (ip.offset + n) as usize }
}

/// The value that an operand stands for: what a register or a stack slot
/// holds where the operand names one, else the operand itself.
pub open spec fn load_value(regs: Seq<Term>, stack: Seq<Term>, src: Term) -> Option<Term> {
    match src {
        Term::XReg(x) => if x < regs.len() {
            Some(regs[x as int])
        } else {
            None
        },
        Term::YReg(y) => stack_slot(stack, y as int),
        _ => Some(src),
    }
}

/// The registers after a built-in handed back `result`, and what the
/// instruction that called it ends with: a value goes to the first
/// register, an exception is passed on as it is.
pub open spec fn bif_outcome(regs: Seq<Term>, result: BifResult) -> (Seq<Term>, DispatchResult) {
    match result {
        BifResult::Value(v) => (regs.update(0, v), DispatchResult::Normal),
        BifResult::Exception(class, v) => (regs, DispatchResult::Error(class, v)),
    }
}

impl<'a> Context<'a> {
    /// A context that stands at `ip` in `code`, with no continuation and
    /// empty registers.
    pub fn new(code: &'a [Term], ip: CodePtr) -> (ctx: Self)
        ensures
            ctx.code == code,
            ctx.ip == ip,
            ctx.cp == None::<CodePtr>,
            ctx.live == 0,
            forall|i: int| 0 <= i < 256 ==> ctx.regs@[i] == Term::NonValue,
    {
        Context { code, ip, cp: None, live: 0, regs: [Term::NonValue;256] }
    }

    /// The operand `k` places behind the instruction pointer, which stays
    /// where it is.
    pub fn operand(&self, k: usize) -> (r: Option<Term>)
        ensures
            r == operand_at(self.code@, self.ip, k as int),
            r is Some ==> self.ip.offset + k < usize::MAX,
    {
        let n = self.code.len();
        if self.ip.offset < n && k < n - self.ip.offset {
            Some(self.code[self.ip.offset + k])
        } else {
            None
        }
    }

    /// The value that an operand stands for.
    pub fn load(&self, src: Term, heap: &Heap) -> (r: Option<Term>)
        ensures
            r == load_value(self.regs@, heap.stack@, src),
    {
        match src {
            Term::XReg(x) => {
                if x < MAX_XREGS {
                    Some(self.regs[x])
                } else {
                    None
                }
            },
            Term::YReg(y) => heap.stack_get_y(y),
            _ => Some(src),
        }
    }

    /// Takes what a built-in handed back: a value goes to the first
    /// register, an exception is passed on as it is.
    pub fn finish_bif(&mut self, result: BifResult) -> (r: DispatchResult)
        ensures
            final(self).regs@ == bif_outcome(old(self).regs@, result).0,
            r == bif_outcome(old(self).regs@, result).1,
            final(self).code == old(self).code,
            final(self).ip == old(self).ip,
            final(self).cp == old(self).cp,
            final(self).live == old(self).live,
    {
        match result {
            BifResult::Value(v) => {
                self.regs[0] = v;
                DispatchResult::Normal
            },
            BifResult::Exception(class, v) => DispatchResult::Error(class, v),
        }
    }
}

/// Calls a built-in on the first `arity` registers and takes what it
/// hands back. More arguments than there are registers are a fault, and
/// then nothing changes. A call in tail position ends like any other.
#[allow(unused_variables)]
pub fn call_bif(
    ctx: &mut Context,
    curr_p: &mut Process,
    bif: BifId,
    arity: usize,
    is_tail: bool,
) -> (r: DispatchResult)
    ensures
        final(ctx).code == old(ctx).code,
        final(ctx).ip == old(ctx).ip,
        final(ctx).cp == old(ctx).cp,
        final(ctx).live == old(ctx).live,
        final(curr_p).heap.stack == old(curr_p).heap.stack,
        arity > MAX_XREGS ==> r == DispatchResult::Fault(Fault::BadOperand) && final(ctx).regs
            == old(ctx).regs && final(curr_p).heap.cells_view() == old(curr_p).heap.cells_view(),
        arity <= MAX_XREGS ==> ({
            let ran = bif_spec(
                bif,
                old(curr_p).heap.cells_view(),
                old(ctx).regs@.subrange(0, arity as int),
            );
            &&& final(curr_p).heap.cells_view() == ran.0
            &&& final(ctx).regs@ == bif_outcome(old(ctx).regs@, ran.1).0
            &&& r == bif_outcome(old(ctx).regs@, ran.1).1
        }),
{
    if arity > MAX_XREGS {
        return DispatchResult::Fault(Fault::BadOperand);
    }
    let mut args: Vec<Term> = Vec::new();
    let mut i: usize = 0;
    while i < arity
        invariant
            i <= arity <= MAX_XREGS,
            *ctx == *old(ctx),
            args@ == ctx.regs@.subrange(0, i as int),
        decreases arity - i,
    {
        args.push(ctx.regs[i]);
        assert(args@ =~= ctx.regs@.subrange(0, i + 1));
        i = i + 1;
    }
    let result = apply_bif(bif, curr_p, args.as_slice());
    ctx.finish_bif(result)
}

} // verus!
