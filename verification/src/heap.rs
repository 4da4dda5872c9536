//! A process's heap and stack, and the values that are built on the heap.

use crate::code::CodePtr;
use crate::loader::Arity;
use crate::term::Term;
use crate::vm::{ATOM_BADFUN, ATOM_BADMATCH};
use vstd::prelude::*;

verus! {

/// A built-in function, by name.
#[derive(Clone, Copy, Debug, PartialEq, Eq, Structural)]
pub enum BifId {
    NifError1,
    NifError2,
}

/// What a call to an import runs.
#[derive(Clone, Copy, Debug, PartialEq, Eq, Structural)]
pub enum Callable {
    Bif(BifId),
    Code(CodePtr),
}

/// A reference to a function of another module: its module, name and
/// arity, and what it is bound to, if it is bound.
#[derive(Clone, Copy, Debug, PartialEq, Eq, Structural)]
pub struct HOImport {
    pub module: Term,
    pub function: Term,
    pub arity: Arity,
    pub target: Option<Callable>,
}

impl HOImport {
    /// What a call to this import runs: `None` where it is bound to
    /// nothing.
    pub fn resolve(&self) -> (r: Option<Callable>)
        ensures
            r == self.target,
    {
        self.target
    }
}

/// What a heap cell holds.
#[derive(Debug, PartialEq, Eq)]
pub enum HeapObject {
    Tuple(Vec<Term>),
    Import(HOImport),
}

/// What a heap cell holds, as a plain value.
pub enum Cell {
    Tuple(Seq<Term>),
    Import(HOImport),
}

impl View for HeapObject {
    type V = Cell;

    open spec fn view(&self) -> Cell {
        match self {
            HeapObject::Tuple(elements) => Cell::Tuple(elements@),
            HeapObject::Import(import) => Cell::Import(*import),
        }
    }
}

/// The elements of the tuple that reports a bad function: the atom
/// `badfun`, then the values that were to be called.
pub open spec fn badfun_tuple(args: Seq<Term>) -> Seq<Term> {
    seq![Term::Atom(ATOM_BADFUN)] + args
}

/// The elements of the tuple that reports a failed match: the atom
/// `badmatch`, then the value that did not match.
pub open spec fn badmatch_tuple(value: Term) -> Seq<Term> {
    seq![Term::Atom(ATOM_BADMATCH), value]
}

/// The import that a term refers to, if it refers to one.
pub open spec fn import_of(cells: Seq<Cell>, t: Term) -> Option<HOImport> {
    match t {
        Term::Boxed(at) => if at < cells.len() {
            match cells[at as int] {
                Cell::Import(import) => Some(import),
                _ => None,
            }
        } else {
            None
        },
        _ => None,
    }
}

/// What a call through a term runs: `None` where the term is no import,
/// or the import is bound to nothing.
pub open spec fn resolve_import(cells: Seq<Cell>, t: Term) -> Option<Callable> {
    match import_of(cells, t) {
        Some(import) => import.target,
        None => None,
    }
}

/// The stack slot `y` places below the top.
pub open spec fn stack_slot(stack: Seq<Term>, y: int) -> Option<Term> {
    if 0 <= y < stack.len() {
        Some(stack[stack.len() - 1 - y])
    } else {
        None
    }
}

/// A process's memory: cells that hold values, and the stack.
pub struct Heap {
    pub cells: Vec<HeapObject>,
    pub stack: Vec<Term>,
}

impl Heap {
    /// What the cells hold, by index.
    pub open spec fn cells_view(&self) -> Seq<Cell> {
        Seq::new(self.cells@.len(), |i: int| self.cells@[i]@)
    }

    /// A heap with no cell and an empty stack.
    pub fn new() -> (h: Heap)
        ensures
            h.cells_view() == Seq::<Cell>::empty(),
            h.stack@ == Seq::<Term>::empty(),
    {
        let h = Heap { cells: Vec::new(), stack: Vec::new() };
        assert(h.cells_view() =~= Seq::<Cell>::empty());
        h
    }

    /// Puts a value into a new cell and gives the reference to it.
    pub fn allocate(&mut self, object: HeapObject) -> (t: Term)
        ensures
            t == Term::Boxed(old(self).cells_view().len() as usize),
            final(self).cells_view() == old(self).cells_view().push(object@),
            final(self).stack == old(self).stack,
    {
        let at = self.cells.len();
        self.cells.push(object);
        assert(self.cells_view() =~= old(self).cells_view().push(object@));
        Term::Boxed(at)
    }

    /// How many slots the stack holds.
    pub fn stack_depth(&self) -> (n: usize)
        ensures
            n == self.stack@.len(),
    {
        self.stack.len()
    }

    /// The stack slot `y` places below the top.
    pub fn stack_get_y(&self, y: usize) -> (r: Option<Term>)
        ensures
            r == stack_slot(self.stack@, y as int),
    {
        if y < self.stack.len() {
            Some(self.stack[self.stack.len() - 1 - y])
        } else {
            None
        }
    }

    /// The import that a term refers to, if it refers to one.
    pub fn import_at(&self, t: Term) -> (r: Option<HOImport>)
        ensures
            r == import_of(self.cells_view(), t),
    {
        match t {
            Term::Boxed(at) => {
                if at < self.cells.len() {
                    match &self.cells[at] {
                        HeapObject::Import(import) => Some(*import),
                        _ => None,
                    }
                } else {
                    None
                }
            },
            _ => None,
        }
    }
}

/// Create a `{badfun, Arg1, ..}` tuple on the heap.
pub fn make_badfun_n(args: &[Term], heap: &mut Heap) -> (t: Term)
    ensures
        t == Term::Boxed(old(heap).cells_view().len() as usize),
        final(heap).cells_view() == old(heap).cells_view().push(Cell::Tuple(badfun_tuple(args@))),
        final(heap).stack == old(heap).stack,
{
    let mut elements: Vec<Term> = Vec::new();
    elements.push(Term::Atom(ATOM_BADFUN));
    let mut i: usize = 0;
    while i < args.len()
        invariant
            i <= args@.len(),
            elements@ == badfun_tuple(args@.subrange(0, i as int)),
        decreases args@.len() - i,
    {
        elements.push(args[i]);
        assert(elements@ =~= badfun_tuple(args@.subrange(0, i + 1)));
        i = i + 1;
    }
    assert(args@.subrange(0, i as int) =~= args@);
    heap.allocate(HeapObject::Tuple(elements))
}

/// Create a `{badfun, Arg}` tuple on the heap.
pub fn make_badfun(arg: Term, heap: &mut Heap) -> (t: Term)
    ensures
        t == Term::Boxed(old(heap).cells_view().len() as usize),
        final(heap).cells_view() == old(heap).cells_view().push(
            Cell::Tuple(badfun_tuple(seq![arg])),
        ),
        final(heap).stack == old(heap).stack,
{
    let mut elements: Vec<Term> = Vec::new();
    elements.push(Term::Atom(ATOM_BADFUN));
    elements.push(arg);
    assert(elements@ =~= badfun_tuple(seq![arg]));
    heap.allocate(HeapObject::Tuple(elements))
}

/// Create a `{badmatch, Value}` tuple on the heap.
pub fn make_badmatch(value: Term, heap: &mut Heap) -> (t: Term)
    ensures
        t == Term::Boxed(old(heap).cells_view().len() as usize),
        final(heap).cells_view() == old(heap).cells_view().push(
            Cell::Tuple(badmatch_tuple(value)),
        ),
        final(heap).stack == old(heap).stack,
{
    let mut elements: Vec<Term> = Vec::new();
    elements.push(Term::Atom(ATOM_BADMATCH));
    elements.push(value);
    assert(elements@ =~= badmatch_tuple(value));
    heap.allocate(HeapObject::Tuple(elements))
}

} // verus!
