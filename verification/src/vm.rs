//! The atom table: the names of all atoms, each at a place that never
//! changes. An atom is the index of its name.

use crate::term::Term;
use vstd::prelude::*;
use vstd::string::*;

verus! {

/// The index of the atom `badfun`, which every table holds.
pub const ATOM_BADFUN: usize = 0;

/// The index of the atom `badmatch`, which every table holds.
pub const ATOM_BADMATCH: usize = 1;

/// The names that every table starts with.
pub open spec fn builtin_atoms() -> Seq<Seq<char>> {
    seq!["badfun"@, "badmatch"@]
}

/// No name occurs twice.
pub open spec fn distinct(table: Seq<Seq<char>>) -> bool {
    forall|i: int, j: int| 0 <= i < j < table.len() ==> table[i] != table[j]
}

/// The first place at which the table holds `name`; the table's length
/// where it holds it nowhere.
pub open spec fn first_index(table: Seq<Seq<char>>, name: Seq<char>) -> int
    decreases table.len(),
{
    if table.len() == 0 || table[0] == name {
        0
    } else {
        1 + first_index(table.drop_first(), name)
    }
}

/// The table after `name` was asked for, and the index that `name` has in
/// it: a name that the table holds keeps its index, a new one goes to the
/// end.
pub open spec fn intern(table: Seq<Seq<char>>, name: Seq<char>) -> (Seq<Seq<char>>, int) {
    if first_index(table, name) < table.len() {
        (table, first_index(table, name))
    } else {
        (table.push(name), table.len() as int)
    }
}

/// The table after each of `names` was asked for in turn, and the atoms
/// that they became.
pub open spec fn intern_all(table: Seq<Seq<char>>, names: Seq<Seq<char>>) -> (
    Seq<Seq<char>>,
    Seq<Term>,
)
    decreases names.len(),
{
    if names.len() == 0 {
        (table, Seq::empty())
    } else {
        let (before, atoms) = intern_all(table, names.drop_last());
        let (after, index) = intern(before, names.last());
        (after, atoms.push(Term::Atom(index as usize)))
    }
}

/// The texts of a list of strings.
pub open spec fn texts(v: Seq<String>) -> Seq<Seq<char>> {
    Seq::new(v.len(), |i: int| v[i]@)
}

/// The first place of a name is the place before which the table does not
/// hold it and at which it does, or the table's end.
pub proof fn lemma_first_index(table: Seq<Seq<char>>, name: Seq<char>, i: int)
    requires
        0 <= i <= table.len(),
        forall|k: int| 0 <= k < i ==> table[k] != name,
        i < table.len() ==> table[i] == name,
    ensures
        first_index(table, name) == i,
    decreases table.len(),
{
    if table.len() > 0 && i > 0 {
        let rest = table.drop_first();
        assert forall|k: int| 0 <= k < i - 1 implies rest[k] != name by {
            assert(rest[k] == table[k + 1]);
        }
        lemma_first_index(rest, name, i - 1);
    }
}

/// The first place of a name lies in the table or at its end, and holds
/// the name where it lies in the table.
pub proof fn lemma_first_index_holds(table: Seq<Seq<char>>, name: Seq<char>)
    ensures
        0 <= first_index(table, name) <= table.len(),
        first_index(table, name) < table.len() ==> table[first_index(table, name)] == name,
    decreases table.len(),
{
    if table.len() > 0 && table[0] != name {
        lemma_first_index_holds(table.drop_first(), name);
    }
}

/// The machine's shared state: the table of atoms.
pub struct VM {
    atoms: Vec<String>,
}

impl View for VM {
    type V = Seq<Seq<char>>;

    /// The names in the table, by index.
    closed spec fn view(&self) -> Seq<Seq<char>> {
        texts(self.atoms@)
    }
}

impl VM {
    /// A machine whose table holds the built-in atoms.
    pub fn new() -> (vm: VM)
        ensures
            vm@ == builtin_atoms(),
            distinct(vm@),
    {
        let mut atoms: Vec<String> = Vec::new();
        atoms.push(String::from_str("badfun"));
        atoms.push(String::from_str("badmatch"));
        proof {
            reveal_strlit("badfun");
            reveal_strlit("badmatch");
            assert("badfun"@.len() != "badmatch"@.len());
            assert(texts(atoms@) =~= builtin_atoms());
        }
        VM { atoms }
    }

    /// How many atoms the table holds.
    pub fn atom_count(&self) -> (n: usize)
        ensures
            n == self@.len(),
    {
        self.atoms.len()
    }

    /// The atom of the given name. The table grows by the name where it
    /// did not hold it.
    pub fn atom(&mut self, name: &String) -> (t: Term)
        ensures
            final(self)@ == intern(old(self)@, name@).0,
            t == Term::Atom(intern(old(self)@, name@).1 as usize),
            t matches Term::Atom(i) && i < final(self)@.len() && final(self)@[i as int] == name@,
    {
        let ghost table = texts(self.atoms@);
        let mut i: usize = 0;
        while i < self.atoms.len()
            invariant
                i <= self.atoms@.len(),
                self.atoms == old(self).atoms,
                table == texts(self.atoms@),
                forall|k: int| 0 <= k < i ==> table[k] != name@,
            decreases self.atoms@.len() - i,
        {
            if self.atoms[i] == *name {
                proof {
                    lemma_first_index(table, name@, i as int);
                }
                return Term::Atom(i);
            }
            i = i + 1;
        }
        proof {
            lemma_first_index(table, name@, i as int);
        }
        let index = self.atoms.len();
        self.atoms.push(name.clone());
        assert(texts(self.atoms@) =~= table.push(name@));
        Term::Atom(index)
    }

    /// The name of an atom: `None` for what is no atom of this table.
    pub fn atom_name(&self, t: Term) -> (r: Option<&String>)
        ensures
            r is Some <==> (t matches Term::Atom(i) && i < self@.len()),
            r matches Some(s) ==> t matches Term::Atom(i) && s@ == self@[i as int],
    {
        match t {
            Term::Atom(i) => {
                if i < self.atoms.len() {
                    Some(&self.atoms[i])
                } else {
                    None
                }
            },
            _ => None,
        }
    }
}

/// Asking for a name moves no atom and gives an index at which the table
/// holds the name. Two askings for one name give one index. A table
/// without a name twice stays so.
pub proof fn lemma_intern(table: Seq<Seq<char>>, name: Seq<char>)
    ensures
        table.is_prefix_of(intern(table, name).0),
        intern(table, name).0.len() <= table.len() + 1,
        0 <= intern(table, name).1 < intern(table, name).0.len(),
        intern(table, name).0[intern(table, name).1] == name,
        intern(intern(table, name).0, name) == intern(table, name),
        distinct(table) ==> distinct(intern(table, name).0),
{
    let (after, index) = intern(table, name);
    lemma_first_index_holds(table, name);
    if first_index(table, name) < table.len() {
    } else {
        assert forall|k: int| 0 <= k < table.len() implies after[k] != name by {
            if table[k] == name {
                lemma_first_index_below(table, name, k);
            }
        }
        lemma_first_index(after, name, table.len() as int);
        if distinct(table) {
            assert forall|a: int, b: int| 0 <= a < b < after.len() implies after[a] != after[b] by {
                if b < table.len() {
                    assert(table[a] != table[b]);
                } else if table[a] == name {
                    lemma_first_index_below(table, name, a);
                }
            }
        }
    }
}

/// The first place of a name is no later than any place that holds it.
proof fn lemma_first_index_below(table: Seq<Seq<char>>, name: Seq<char>, k: int)
    requires
        0 <= k < table.len(),
        table[k] == name,
    ensures
        first_index(table, name) <= k,
    decreases table.len(),
{
    if table[0] != name {
        assert(table.drop_first()[k - 1] == table[k]);
        lemma_first_index_below(table.drop_first(), name, k - 1);
    }
}

/// Committing a list of names moves no atom; it gives one atom for each
/// name, in the order of the names, and the table holds each name at its
/// atom's index. A table without a name twice stays so.
pub proof fn lemma_intern_all(table: Seq<Seq<char>>, names: Seq<Seq<char>>)
    requires
        table.len() + names.len() <= usize::MAX,
    ensures
        table.is_prefix_of(intern_all(table, names).0),
        intern_all(table, names).0.len() <= table.len() + names.len(),
        intern_all(table, names).1.len() == names.len(),
        forall|k: int|
            0 <= k < names.len() ==> (#[trigger] intern_all(table, names).1[k] matches Term::Atom(
                i,
            ) && i < intern_all(table, names).0.len() && intern_all(table, names).0[i as int]
                == names[k]),
        distinct(table) ==> distinct(intern_all(table, names).0),
    decreases names.len(),
{
    if names.len() > 0 {
        let (before, atoms) = intern_all(table, names.drop_last());
        lemma_intern_all(table, names.drop_last());
        lemma_intern(before, names.last());
        let (after, index) = intern(before, names.last());
        assert forall|k: int| 0 <= k < names.len() implies (#[trigger] intern_all(
            table,
            names,
        ).1[k] matches Term::Atom(i) && i < after.len() && after[i as int] == names[k]) by {
            if k < names.len() - 1 {
                assert(atoms[k] == intern_all(table, names).1[k]);
                assert(names.drop_last()[k] == names[k]);
            }
        }
    }
}

} // verus!
