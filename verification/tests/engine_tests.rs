use erlang_rt::bif_sys::{apply_bif, bif_nif_error_1, bif_nif_error_2, BifResult};
use erlang_rt::code::CodePtr;
use erlang_rt::dispatch::{opcode_arity, DispatchResult, ExceptionType, Fault, Opcode};
use erlang_rt::heap::{
    make_badfun, make_badfun_n, make_badmatch, BifId, Callable, HOImport, Heap, HeapObject,
};
use erlang_rt::op_execution::{
    opcode_badmatch, opcode_call, opcode_call_ext, opcode_call_ext_only, opcode_call_only,
    opcode_func_info, opcode_return,
};
use erlang_rt::process::Process;
use erlang_rt::runtime_ctx::{call_bif, Context, MAX_XREGS};
use erlang_rt::term::{FunAspect, Term};
use erlang_rt::vm::{ATOM_BADFUN, ATOM_BADMATCH, VM};

fn cp(offset: usize) -> Term {
    Term::CP(CodePtr::new(offset))
}

fn import(target: Option<Callable>) -> HeapObject {
    HeapObject::Import(HOImport {
        module: Term::Atom(10),
        function: Term::Atom(11),
        arity: 2,
        target,
    })
}

#[test]
fn builtin_atoms_stand_at_their_indices() {
    let vm = VM::new();
    assert_eq!(vm.atom_count(), 2);
    assert_eq!(vm.atom_name(Term::Atom(ATOM_BADFUN)).unwrap(), "badfun");
    assert_eq!(vm.atom_name(Term::Atom(ATOM_BADMATCH)).unwrap(), "badmatch");
    assert_eq!(vm.atom_name(Term::Atom(2)), None);
    assert_eq!(vm.atom_name(Term::Small(0)), None);
}

#[test]
fn interning_gives_one_index_per_name() {
    let mut vm = VM::new();
    let a = vm.atom(&"hello".to_string());
    let b = vm.atom(&"world".to_string());
    let a2 = vm.atom(&"hello".to_string());
    let known = vm.atom(&"badfun".to_string());
    assert_eq!(a, Term::Atom(2));
    assert_eq!(b, Term::Atom(3));
    assert_eq!(a2, a);
    assert_eq!(known, Term::Atom(ATOM_BADFUN));
    assert_eq!(vm.atom_count(), 4);
    assert_eq!(vm.atom_name(b).unwrap(), "world");
}

#[test]
fn terms_tell_their_shape() {
    assert_eq!(Term::non_value(), Term::NonValue);
    assert!(!Term::NonValue.is_value());
    assert!(Term::Nil.is_value());
    assert_eq!(Term::Small(7).small_get_u(), Some(7));
    assert_eq!(Term::Small(0).small_get_u(), Some(0));
    assert_eq!(Term::Small(-1).small_get_u(), None);
    assert_eq!(Term::Atom(7).small_get_u(), None);
    assert_eq!(cp(9).cp_get(), Some(CodePtr::new(9)));
    assert_eq!(Term::Boxed(9).cp_get(), None);
    assert!(!Term::Boxed(0).is_fun());
    assert!(!cp(0).is_fun());
}

#[test]
fn opcodes_declare_their_operands() {
    assert_eq!(opcode_arity(Opcode::Call), 2);
    assert_eq!(opcode_arity(Opcode::CallOnly), 2);
    assert_eq!(opcode_arity(Opcode::CallExt), 2);
    assert_eq!(opcode_arity(Opcode::CallExtOnly), 2);
    assert_eq!(opcode_arity(Opcode::Return), 0);
    assert_eq!(opcode_arity(Opcode::FuncInfo), 3);
    assert_eq!(opcode_arity(Opcode::Badmatch), 1);
}

#[test]
fn call_saves_the_next_instruction_and_jumps() {
    let code = vec![Term::Nil, Term::Small(3), cp(40), Term::Nil];
    let mut ctx = Context::new(&code, CodePtr::new(1));
    let mut p = Process::new();
    assert_eq!(opcode_call(&mut ctx, &mut p), DispatchResult::Normal);
    assert_eq!(ctx.ip, CodePtr::new(40));
    assert_eq!(ctx.cp, Some(CodePtr::new(3)));
    assert_eq!(ctx.live, 3);
}

#[test]
fn call_only_jumps_and_leaves_the_continuation() {
    let code = vec![Term::Small(1), cp(40)];
    let mut ctx = Context::new(&code, CodePtr::new(0));
    ctx.cp = Some(CodePtr::new(77));
    let mut p = Process::new();
    assert_eq!(opcode_call_only(&mut ctx, &mut p), DispatchResult::Normal);
    assert_eq!(ctx.ip, CodePtr::new(40));
    assert_eq!(ctx.cp, Some(CodePtr::new(77)));
    assert_eq!(ctx.live, 1);
    let mut ctx = Context::new(&code, CodePtr::new(0));
    assert_eq!(opcode_call_only(&mut ctx, &mut p), DispatchResult::Normal);
    assert_eq!(ctx.cp, None);
}

#[test]
fn call_faults_change_nothing() {
    let mut p = Process::new();
    let code = vec![Term::Small(1)];
    let mut ctx = Context::new(&code, CodePtr::new(0));
    ctx.live = 9;
    assert_eq!(
        opcode_call(&mut ctx, &mut p),
        DispatchResult::Fault(Fault::TruncatedInstruction)
    );
    assert_eq!((ctx.ip, ctx.cp, ctx.live), (CodePtr::new(0), None, 9));
    let code = vec![Term::Atom(1), cp(4)];
    let mut ctx = Context::new(&code, CodePtr::new(0));
    assert_eq!(opcode_call(&mut ctx, &mut p), DispatchResult::Fault(Fault::BadOperand));
    assert_eq!(opcode_call_only(&mut ctx, &mut p), DispatchResult::Fault(Fault::BadOperand));
    let code = vec![Term::Small(-2), cp(4)];
    let mut ctx = Context::new(&code, CodePtr::new(0));
    assert_eq!(opcode_call(&mut ctx, &mut p), DispatchResult::Fault(Fault::BadOperand));
    let code = vec![Term::Small(2), Term::Boxed(4)];
    let mut ctx = Context::new(&code, CodePtr::new(0));
    assert_eq!(opcode_call(&mut ctx, &mut p), DispatchResult::Fault(Fault::BadOperand));
    assert_eq!((ctx.ip, ctx.cp, ctx.live), (CodePtr::new(0), None, 0));
    let mut ctx = Context::new(&code, CodePtr::new(usize::MAX));
    assert_eq!(
        opcode_call(&mut ctx, &mut p),
        DispatchResult::Fault(Fault::TruncatedInstruction)
    );
}

#[test]
fn return_goes_to_the_continuation_and_spends_it() {
    let code = vec![Term::Nil];
    let mut ctx = Context::new(&code, CodePtr::new(0));
    ctx.cp = Some(CodePtr::new(12));
    let mut p = Process::new();
    assert_eq!(opcode_return(&mut ctx, &mut p), DispatchResult::Normal);
    assert_eq!(ctx.ip, CodePtr::new(12));
    assert_eq!(ctx.cp, None);
}

#[test]
fn return_without_continuation_ends_or_faults() {
    let code = vec![Term::Nil];
    let mut ctx = Context::new(&code, CodePtr::new(0));
    ctx.regs[0] = Term::Small(42);
    let mut p = Process::new();
    assert_eq!(opcode_return(&mut ctx, &mut p), DispatchResult::Finished(Term::Small(42)));
    assert_eq!(ctx.ip, CodePtr::new(0));
    p.heap.stack.push(Term::Nil);
    assert_eq!(
        opcode_return(&mut ctx, &mut p),
        DispatchResult::Fault(Fault::BadContinuation)
    );
    assert_eq!(ctx.ip, CodePtr::new(0));
    assert_eq!(ctx.cp, None);
}

#[test]
fn two_call_return_pairs_come_back_behind_each_call() {
    // word 0: call; words 1, 2: its operands; word 3: call; words 4, 5: its operands
    let code = vec![
        Term::Nil,
        Term::Small(0),
        cp(20),
        Term::Nil,
        Term::Small(1),
        cp(30),
        Term::Nil,
    ];
    let mut ctx = Context::new(&code, CodePtr::new(1));
    let mut p = Process::new();
    assert_eq!(opcode_call(&mut ctx, &mut p), DispatchResult::Normal);
    assert_eq!(ctx.ip, CodePtr::new(20));
    assert_eq!(opcode_return(&mut ctx, &mut p), DispatchResult::Normal);
    assert_eq!(ctx.ip, CodePtr::new(3));
    assert_eq!(ctx.cp, None);
    // the loop takes the next instruction word
    ctx.ip = CodePtr::new(ctx.ip.offset + 1);
    assert_eq!(opcode_call(&mut ctx, &mut p), DispatchResult::Normal);
    assert_eq!(ctx.ip, CodePtr::new(30));
    assert_eq!(ctx.cp, Some(CodePtr::new(6)));
    assert_eq!(opcode_return(&mut ctx, &mut p), DispatchResult::Normal);
    assert_eq!(ctx.ip, CodePtr::new(6));
    assert_eq!(ctx.cp, None);
}

#[test]
fn call_ext_to_code_jumps_and_saves() {
    let mut p = Process::new();
    let imp = p.heap.allocate(import(Some(Callable::Code(CodePtr::new(90)))));
    let code = vec![Term::Small(2), imp, Term::Nil];
    let mut ctx = Context::new(&code, CodePtr::new(0));
    assert_eq!(opcode_call_ext(&mut ctx, &mut p), DispatchResult::Normal);
    assert_eq!(ctx.ip, CodePtr::new(90));
    assert_eq!(ctx.cp, Some(CodePtr::new(2)));
    assert_eq!(ctx.live, 2);
    assert_eq!(p.heap.cells.len(), 1);
}

#[test]
fn call_ext_only_to_code_jumps_and_keeps_the_continuation() {
    let mut p = Process::new();
    let imp = p.heap.allocate(import(Some(Callable::Code(CodePtr::new(90)))));
    let code = vec![Term::Small(2), imp, Term::Nil];
    let mut ctx = Context::new(&code, CodePtr::new(0));
    ctx.cp = Some(CodePtr::new(5));
    assert_eq!(opcode_call_ext_only(&mut ctx, &mut p), DispatchResult::Normal);
    assert_eq!(ctx.ip, CodePtr::new(90));
    assert_eq!(ctx.cp, Some(CodePtr::new(5)));
    assert_eq!(ctx.live, 2);
}

#[test]
fn call_ext_to_a_builtin_hands_on_its_exception() {
    for tail in [false, true] {
        let mut p = Process::new();
        let imp = p.heap.allocate(import(Some(Callable::Bif(BifId::NifError2))));
        let code = vec![Term::Small(2), imp, Term::Nil];
        let mut ctx = Context::new(&code, CodePtr::new(0));
        ctx.cp = Some(CodePtr::new(5));
        ctx.regs[0] = Term::Small(7);
        ctx.regs[1] = Term::Atom(3);
        ctx.regs[2] = Term::Small(8);
        let r = if tail {
            opcode_call_ext_only(&mut ctx, &mut p)
        } else {
            opcode_call_ext(&mut ctx, &mut p)
        };
        assert_eq!(r, DispatchResult::Error(ExceptionType::Error, Term::Boxed(1)));
        assert_eq!(p.heap.cells.len(), 2);
        assert_eq!(
            p.heap.cells[1],
            HeapObject::Tuple(vec![Term::Atom(ATOM_BADFUN), Term::Small(7), Term::Atom(3)])
        );
        assert_eq!(ctx.cp, Some(CodePtr::new(5)));
        assert_eq!(ctx.ip, CodePtr::new(2));
        assert_eq!(ctx.live, 2);
        assert_eq!(ctx.regs[0], Term::Small(7));
    }
}

#[test]
fn call_ext_on_what_is_no_import_raises_badfun() {
    for tail in [false, true] {
        for operand in [Term::Small(5), Term::Boxed(0), Term::Boxed(1), Term::Boxed(9)] {
            let mut p = Process::new();
            p.heap.allocate(HeapObject::Tuple(vec![Term::Nil]));
            p.heap.allocate(import(None));
            let code = vec![Term::Small(4), operand, Term::Nil];
            let mut ctx = Context::new(&code, CodePtr::new(0));
            ctx.cp = Some(CodePtr::new(5));
            let r = if tail {
                opcode_call_ext_only(&mut ctx, &mut p)
            } else {
                opcode_call_ext(&mut ctx, &mut p)
            };
            assert_eq!(r, DispatchResult::Error(ExceptionType::Error, Term::Boxed(2)));
            assert_eq!(
                p.heap.cells[2],
                HeapObject::Tuple(vec![Term::Atom(ATOM_BADFUN), operand])
            );
            assert_eq!(ctx.ip, CodePtr::new(0));
            assert_eq!(ctx.cp, Some(CodePtr::new(5)));
            assert_eq!(ctx.live, 4);
        }
    }
}

#[test]
fn call_ext_faults_change_nothing() {
    let mut p = Process::new();
    let imp = p.heap.allocate(import(Some(Callable::Bif(BifId::NifError1))));
    let code = vec![Term::Small(1)];
    let mut ctx = Context::new(&code, CodePtr::new(0));
    assert_eq!(
        opcode_call_ext(&mut ctx, &mut p),
        DispatchResult::Fault(Fault::TruncatedInstruction)
    );
    let code = vec![Term::Nil, imp];
    let mut ctx = Context::new(&code, CodePtr::new(0));
    assert_eq!(opcode_call_ext_only(&mut ctx, &mut p), DispatchResult::Fault(Fault::BadOperand));
    let code = vec![Term::Small(MAX_XREGS as i64 + 1), imp];
    let mut ctx = Context::new(&code, CodePtr::new(0));
    assert_eq!(opcode_call_ext(&mut ctx, &mut p), DispatchResult::Fault(Fault::BadOperand));
    assert_eq!((ctx.ip, ctx.cp, ctx.live), (CodePtr::new(0), None, 0));
    assert_eq!(p.heap.cells.len(), 1);
}

#[test]
fn func_info_names_the_function() {
    let code = vec![Term::Atom(4), Term::Atom(5), Term::Small(2)];
    let mut ctx = Context::new(&code, CodePtr::new(0));
    let mut p = Process::new();
    assert_eq!(
        opcode_func_info(&mut ctx, &mut p),
        DispatchResult::Fault(Fault::FunctionClause(Term::Atom(4), Term::Atom(5), Term::Small(2)))
    );
    assert_eq!(ctx.ip, CodePtr::new(0));
    let mut ctx = Context::new(&code, CodePtr::new(1));
    assert_eq!(
        opcode_func_info(&mut ctx, &mut p),
        DispatchResult::Fault(Fault::TruncatedInstruction)
    );
}

#[test]
fn badmatch_carries_the_value() {
    let code = vec![Term::Small(9), Term::XReg(3), Term::YReg(0), Term::YReg(1), Term::XReg(256)];
    let mut p = Process::new();
    p.heap.stack.push(Term::Atom(20));
    p.heap.stack.push(Term::Atom(21));
    let mut ctx = Context::new(&code, CodePtr::new(0));
    ctx.regs[3] = Term::Nil;
    assert_eq!(
        opcode_badmatch(&mut ctx, &mut p),
        DispatchResult::Error(ExceptionType::Error, Term::Boxed(0))
    );
    assert_eq!(
        p.heap.cells[0],
        HeapObject::Tuple(vec![Term::Atom(ATOM_BADMATCH), Term::Small(9)])
    );
    ctx.ip = CodePtr::new(1);
    assert_eq!(
        opcode_badmatch(&mut ctx, &mut p),
        DispatchResult::Error(ExceptionType::Error, Term::Boxed(1))
    );
    assert_eq!(p.heap.cells[1], HeapObject::Tuple(vec![Term::Atom(ATOM_BADMATCH), Term::Nil]));
    ctx.ip = CodePtr::new(2);
    opcode_badmatch(&mut ctx, &mut p);
    assert_eq!(
        p.heap.cells[2],
        HeapObject::Tuple(vec![Term::Atom(ATOM_BADMATCH), Term::Atom(21)])
    );
    ctx.ip = CodePtr::new(3);
    opcode_badmatch(&mut ctx, &mut p);
    assert_eq!(
        p.heap.cells[3],
        HeapObject::Tuple(vec![Term::Atom(ATOM_BADMATCH), Term::Atom(20)])
    );
    assert_eq!(ctx.ip, CodePtr::new(3));
}

#[test]
fn badmatch_faults() {
    let code = vec![Term::XReg(256), Term::YReg(0)];
    let mut p = Process::new();
    let mut ctx = Context::new(&code, CodePtr::new(0));
    assert_eq!(opcode_badmatch(&mut ctx, &mut p), DispatchResult::Fault(Fault::BadOperand));
    ctx.ip = CodePtr::new(1);
    assert_eq!(opcode_badmatch(&mut ctx, &mut p), DispatchResult::Fault(Fault::BadOperand));
    ctx.ip = CodePtr::new(2);
    assert_eq!(
        opcode_badmatch(&mut ctx, &mut p),
        DispatchResult::Fault(Fault::TruncatedInstruction)
    );
    assert!(p.heap.cells.is_empty());
}

#[test]
fn nif_error_builtins_raise_badfun_of_their_arguments() {
    let mut p = Process::new();
    let r = bif_nif_error_1(&mut p, &[Term::Atom(5)]);
    assert_eq!(r, BifResult::Exception(ExceptionType::Error, Term::Boxed(0)));
    assert_eq!(p.heap.cells[0], HeapObject::Tuple(vec![Term::Atom(ATOM_BADFUN), Term::Atom(5)]));
    let r = bif_nif_error_2(&mut p, &[Term::Atom(5), Term::Nil]);
    assert_eq!(r, BifResult::Exception(ExceptionType::Error, Term::Boxed(1)));
    assert_eq!(
        p.heap.cells[1],
        HeapObject::Tuple(vec![Term::Atom(ATOM_BADFUN), Term::Atom(5), Term::Nil])
    );
    let r = apply_bif(BifId::NifError1, &mut p, &[]);
    assert_eq!(r, BifResult::Exception(ExceptionType::Error, Term::Boxed(2)));
    assert_eq!(p.heap.cells[2], HeapObject::Tuple(vec![Term::Atom(ATOM_BADFUN)]));
}

#[test]
fn call_bif_runs_on_the_first_registers() {
    let code = vec![Term::Nil];
    let mut ctx = Context::new(&code, CodePtr::new(0));
    ctx.regs[0] = Term::Small(1);
    ctx.regs[1] = Term::Small(2);
    let mut p = Process::new();
    let r = call_bif(&mut ctx, &mut p, BifId::NifError1, 1, false);
    assert_eq!(r, DispatchResult::Error(ExceptionType::Error, Term::Boxed(0)));
    assert_eq!(p.heap.cells[0], HeapObject::Tuple(vec![Term::Atom(ATOM_BADFUN), Term::Small(1)]));
    let r = call_bif(&mut ctx, &mut p, BifId::NifError1, MAX_XREGS + 1, true);
    assert_eq!(r, DispatchResult::Fault(Fault::BadOperand));
    assert_eq!(p.heap.cells.len(), 1);
    let r = call_bif(&mut ctx, &mut p, BifId::NifError2, MAX_XREGS, true);
    assert_eq!(r, DispatchResult::Error(ExceptionType::Error, Term::Boxed(1)));
    match &p.heap.cells[1] {
        HeapObject::Tuple(v) => assert_eq!(v.len(), MAX_XREGS + 1),
        _ => panic!("not a tuple"),
    }
}

#[test]
fn finish_bif_takes_values_and_exceptions() {
    let code = vec![Term::Nil];
    let mut ctx = Context::new(&code, CodePtr::new(0));
    ctx.regs[1] = Term::Small(2);
    assert_eq!(ctx.finish_bif(BifResult::Value(Term::Atom(9))), DispatchResult::Normal);
    assert_eq!(ctx.regs[0], Term::Atom(9));
    assert_eq!(ctx.regs[1], Term::Small(2));
    assert_eq!(
        ctx.finish_bif(BifResult::Exception(ExceptionType::Throw, Term::Nil)),
        DispatchResult::Error(ExceptionType::Throw, Term::Nil)
    );
    assert_eq!(ctx.regs[0], Term::Atom(9));
}

#[test]
fn operands_and_loads() {
    let code = vec![Term::Small(1), Term::Atom(2)];
    let mut ctx = Context::new(&code, CodePtr::new(1));
    ctx.regs[255] = Term::Small(5);
    assert_eq!(ctx.operand(0), Some(Term::Atom(2)));
    assert_eq!(ctx.operand(1), None);
    assert_eq!(ctx.operand(usize::MAX), None);
    let mut heap = Heap::new();
    heap.stack.push(Term::Small(1));
    heap.stack.push(Term::Small(2));
    assert_eq!(heap.stack_depth(), 2);
    assert_eq!(ctx.load(Term::XReg(255), &heap), Some(Term::Small(5)));
    assert_eq!(ctx.load(Term::XReg(0), &heap), Some(Term::NonValue));
    assert_eq!(ctx.load(Term::XReg(256), &heap), None);
    assert_eq!(ctx.load(Term::YReg(0), &heap), Some(Term::Small(2)));
    assert_eq!(ctx.load(Term::YReg(1), &heap), Some(Term::Small(1)));
    assert_eq!(ctx.load(Term::YReg(2), &heap), None);
    assert_eq!(ctx.load(Term::Atom(3), &heap), Some(Term::Atom(3)));
}

#[test]
fn heap_values_are_built_in_new_cells() {
    let mut heap = Heap::new();
    assert_eq!(make_badfun(Term::Small(1), &mut heap), Term::Boxed(0));
    assert_eq!(make_badmatch(Term::Small(2), &mut heap), Term::Boxed(1));
    assert_eq!(make_badfun_n(&[], &mut heap), Term::Boxed(2));
    assert_eq!(heap.cells[0], HeapObject::Tuple(vec![Term::Atom(ATOM_BADFUN), Term::Small(1)]));
    assert_eq!(heap.cells[1], HeapObject::Tuple(vec![Term::Atom(ATOM_BADMATCH), Term::Small(2)]));
    assert_eq!(heap.cells[2], HeapObject::Tuple(vec![Term::Atom(ATOM_BADFUN)]));
    let imp = HOImport {
        module: Term::Atom(1),
        function: Term::Atom(2),
        arity: 0,
        target: Some(Callable::Bif(BifId::NifError1)),
    };
    let t = heap.allocate(HeapObject::Import(imp));
    assert_eq!(heap.import_at(t), Some(imp));
    assert_eq!(heap.import_at(Term::Boxed(0)), None);
    assert_eq!(heap.import_at(Term::Boxed(4)), None);
    assert_eq!(heap.import_at(Term::Atom(3)), None);
    assert_eq!(imp.resolve(), Some(Callable::Bif(BifId::NifError1)));
}
