//! The loader for module files. It works in three stages: `load` reads the
//! file's chunks into the loader's own tables; `load_stage2` commits the
//! atom names to the machine's atom table; `load_finalize` hands out the
//! module.
//!
//! A file is the signature `FOR1`, a 32-bit size, the signature `BEAM`,
//! and then chunks up to the end of the file. A chunk is a tag of four
//! bytes, a 32-bit length, a body of that length, and padding up to the
//! next multiple of four. All numbers are big-endian. A table is read from
//! the body of its chunk and from nowhere else; what a table leaves of its
//! body is not looked at.

use crate::compact_term::{decode, CompactTerm};
use crate::foreign::{bytes_content, bytes_from_slice};
use crate::module::{Module, Ptr};
use crate::reader::{be16, be32, latin1, BinaryReader};
use crate::rterror::{module_prefix, tag_text, Error};
use crate::term::Term;
use crate::vm::{intern_all, lemma_intern_all, texts, VM};
use vstd::arithmetic::div_mod::lemma_fundamental_div_mod_converse;
use vstd::prelude::*;
use vstd::slice::slice_subrange;
use vstd::utf8::{decode_utf8, valid_utf8};

verus! {

/// The prefix under which the loader reports.
pub fn module() -> (s: &'static str)
    ensures
        s@ == module_prefix(),
{
    "BEAM loader: "
}

/// The number of arguments of a function.
pub type Arity = usize;

/// An entry of the import table, as the file has it.
#[derive(Clone, Copy, Debug, PartialEq, Eq, Structural)]
pub struct LImport {
    pub mod_atom: u32,
    pub fun_atom: u32,
    pub arity: Arity,
}

/// An entry of the export table or of the table of local functions, as the
/// file has it.
#[derive(Clone, Copy, Debug, PartialEq, Eq, Structural)]
pub struct LExport {
    pub fun_atom: u32,
    pub arity: Arity,
    pub label: u32,
}

/// An entry of the table of closures, as the file has it.
#[derive(Clone, Copy, Debug, PartialEq, Eq, Structural)]
pub struct LFun {
    pub fun_atom: u32,
    pub arity: u32,
    pub code_pos: u32,
    pub index: u32,
    pub nfree: u32,
    pub ouniq: u32,
}

/// The head of the code chunk. The loader records it and checks nothing
/// of it.
#[derive(Clone, Copy, Debug, PartialEq, Eq, Structural)]
pub struct LCodeInfo {
    pub version: u32,
    pub min_opcode: u32,
    pub max_opcode: u32,
    pub n_labels: u32,
    pub n_funs: u32,
}

/// A line reference: a line number and the file name index that was
/// current when it was read.
#[derive(Clone, Copy, Debug, PartialEq, Eq, Structural)]
pub struct LLine {
    pub file: u64,
    pub line: u64,
}

/// What the loader does with a chunk, by its tag.
#[derive(Clone, Copy, Debug, PartialEq, Eq, Structural)]
pub enum ChunkKind {
    AtomsLatin1,
    AtomsUtf8,
    Code,
    Exports,
    Imports,
    Locals,
    Funs,
    Lines,
    Skipped,
}

/// `Atom`
pub const TAG_ATOM: u32 = 0x4174_6F6D;

/// `AtU8`
pub const TAG_ATU8: u32 = 0x4174_5538;

/// `Attr`
pub const TAG_ATTR: u32 = 0x4174_7472;

/// `CInf`
pub const TAG_CINF: u32 = 0x4349_6E66;

/// `Code`
pub const TAG_CODE: u32 = 0x436F_6465;

/// `Dbgi`
pub const TAG_DBGI: u32 = 0x4462_6769;

/// `ExpT`
pub const TAG_EXPT: u32 = 0x4578_7054;

/// `FunT`
pub const TAG_FUNT: u32 = 0x4675_6E54;

/// `ImpT`
pub const TAG_IMPT: u32 = 0x496D_7054;

/// `Line`
pub const TAG_LINE: u32 = 0x4C69_6E65;

/// `LocT`
pub const TAG_LOCT: u32 = 0x4C6F_6354;

/// `StrT`
pub const TAG_STRT: u32 = 0x5374_7254;

/// The signature `FOR1`.
pub open spec fn signature_for1() -> Seq<u8> {
    seq![0x46u8, 0x4Fu8, 0x52u8, 0x31u8]
}

/// The signature `BEAM`.
pub open spec fn signature_beam() -> Seq<u8> {
    seq![0x42u8, 0x45u8, 0x41u8, 0x4Du8]
}

/// What the loader does with a chunk of the given tag: `None` for a tag
/// that it does not know.
pub open spec fn chunk_kind(tag: u32) -> Option<ChunkKind> {
    if tag == TAG_ATOM {
        Some(ChunkKind::AtomsLatin1)
    } else if tag == TAG_ATU8 {
        Some(ChunkKind::AtomsUtf8)
    } else if tag == TAG_CODE {
        Some(ChunkKind::Code)
    } else if tag == TAG_EXPT {
        Some(ChunkKind::Exports)
    } else if tag == TAG_IMPT {
        Some(ChunkKind::Imports)
    } else if tag == TAG_LOCT {
        Some(ChunkKind::Locals)
    } else if tag == TAG_FUNT {
        Some(ChunkKind::Funs)
    } else if tag == TAG_LINE {
        Some(ChunkKind::Lines)
    } else if tag == TAG_ATTR || tag == TAG_CINF || tag == TAG_DBGI || tag == TAG_STRT {
        Some(ChunkKind::Skipped)
    } else {
        None
    }
}

/// The bytes that follow a body of `len` bytes up to the next multiple of
/// four.
pub open spec fn padding(len: int) -> int {
    (4 - len % 4) % 4
}

/// The `i`-th entry of an import table.
pub open spec fn import_at(body: Seq<u8>, i: int) -> LImport {
    LImport {
        mod_atom: be32(body, 4 + 12 * i) as u32,
        fun_atom: be32(body, 8 + 12 * i) as u32,
        arity: be32(body, 12 + 12 * i) as usize,
    }
}

/// The import table in a chunk body: a count, then so many entries of
/// three numbers each.
pub open spec fn imports_of(body: Seq<u8>) -> Result<Seq<LImport>, Error> {
    if body.len() < 4 || body.len() - 4 < 12 * be32(body, 0) {
        Err(Error::CodeLoadingPrematureEOF)
    } else {
        Ok(Seq::new(be32(body, 0) as nat, |i: int| import_at(body, i)))
    }
}

/// The `i`-th entry of an export table.
pub open spec fn export_at(body: Seq<u8>, i: int) -> LExport {
    LExport {
        fun_atom: be32(body, 4 + 12 * i) as u32,
        arity: be32(body, 8 + 12 * i) as usize,
        label: be32(body, 12 + 12 * i) as u32,
    }
}

/// The export table in a chunk body: a count, then so many entries of
/// three numbers each. The table of local functions has the same form.
pub open spec fn exports_of(body: Seq<u8>) -> Result<Seq<LExport>, Error> {
    if body.len() < 4 || body.len() - 4 < 12 * be32(body, 0) {
        Err(Error::CodeLoadingPrematureEOF)
    } else {
        Ok(Seq::new(be32(body, 0) as nat, |i: int| export_at(body, i)))
    }
}

/// The `i`-th entry of a table of closures.
pub open spec fn fun_at(body: Seq<u8>, i: int) -> LFun {
    LFun {
        fun_atom: be32(body, 4 + 24 * i) as u32,
        arity: be32(body, 8 + 24 * i) as u32,
        code_pos: be32(body, 12 + 24 * i) as u32,
        index: be32(body, 16 + 24 * i) as u32,
        nfree: be32(body, 20 + 24 * i) as u32,
        ouniq: be32(body, 24 + 24 * i) as u32,
    }
}

/// The table of closures in a chunk body: a count, then so many entries
/// of six numbers each.
pub open spec fn funs_of(body: Seq<u8>) -> Result<Seq<LFun>, Error> {
    if body.len() < 4 || body.len() - 4 < 24 * be32(body, 0) {
        Err(Error::CodeLoadingPrematureEOF)
    } else {
        Ok(Seq::new(be32(body, 0) as nat, |i: int| fun_at(body, i)))
    }
}

/// The code chunk: five numbers, then the code itself, which is every
/// byte that follows.
pub open spec fn code_of(body: Seq<u8>) -> Result<(LCodeInfo, Seq<u8>), Error> {
    if body.len() < 20 {
        Err(Error::CodeLoadingPrematureEOF)
    } else {
        Ok(
            (
                LCodeInfo {
                    version: be32(body, 0) as u32,
                    min_opcode: be32(body, 4) as u32,
                    max_opcode: be32(body, 8) as u32,
                    n_labels: be32(body, 12) as u32,
                    n_funs: be32(body, 16) as u32,
                },
                body.subrange(20, body.len() as int),
            ),
        )
    }
}

/// The text of an atom's bytes in one of the two encodings.
pub open spec fn atom_text(raw: Seq<u8>, utf8: bool) -> Seq<char> {
    if utf8 {
        decode_utf8(raw)
    } else {
        latin1(raw)
    }
}

/// The names after `n` more atoms were read from `pos` on, given the names
/// `acc` read so far. An atom is a length byte and so many bytes of text.
pub open spec fn atoms_from(body: Seq<u8>, pos: int, n: nat, utf8: bool, acc: Seq<Seq<char>>)
    -> Result<Seq<Seq<char>>, Error>
    decreases n,
{
    if n == 0 {
        Ok(acc)
    } else if pos < 0 || pos >= body.len() || body.len() - (pos + 1) < body[pos] {
        Err(Error::CodeLoadingPrematureEOF)
    } else {
        let raw = body.subrange(pos + 1, pos + 1 + body[pos]);
        if utf8 && !valid_utf8(raw) {
            Err(Error::CodeLoadingBadString)
        } else {
            atoms_from(
                body,
                pos + 1 + body[pos],
                (n - 1) as nat,
                utf8,
                acc.push(atom_text(raw, utf8)),
            )
        }
    }
}

/// The atom names in a chunk body: a count, then so many atoms.
pub open spec fn atoms_of(body: Seq<u8>, utf8: bool) -> Result<Seq<Seq<char>>, Error> {
    if body.len() < 4 {
        Err(Error::CodeLoadingPrematureEOF)
    } else {
        atoms_from(body, 4, be32(body, 0) as nat, utf8, Seq::empty())
    }
}

/// The line references after `n` more operands were read from `pos` on,
/// and the place where the last one ends; `file` is the file name index
/// that is current, `acc` holds the references read so far. An integer
/// that is not negative is a line number; an atom changes the current
/// index; anything else is an error.
pub open spec fn line_refs_from(body: Seq<u8>, pos: int, n: nat, file: u64, acc: Seq<LLine>)
    -> Result<(Seq<LLine>, int), Error>
    decreases n,
{
    if n == 0 {
        Ok((acc, pos))
    } else if pos < 0 || pos > body.len() {
        Err(Error::CodeLoadingPrematureEOF)
    } else {
        match decode(body.subrange(pos, body.len() as int)) {
            Err(e) => Err(e),
            Ok((CompactTerm::Integer(line), used)) => if line < 0 {
                Err(Error::CodeLoadingBadLineInfo)
            } else {
                line_refs_from(
                    body,
                    pos + used,
                    (n - 1) as nat,
                    file,
                    acc.push(LLine { file, line: line as u64 }),
                )
            },
            Ok((CompactTerm::Atom(index), used)) => line_refs_from(
                body,
                pos + used,
                (n - 1) as nat,
                index,
                acc,
            ),
            Ok(_) => Err(Error::CodeLoadingBadLineInfo),
        }
    }
}

/// The file names after `n` more were read from `pos` on, given the names
/// `acc` read so far. A name is a 16-bit length and so many bytes of UTF-8.
pub open spec fn file_names_from(body: Seq<u8>, pos: int, n: nat, acc: Seq<Seq<char>>) -> Result<
    Seq<Seq<char>>,
    Error,
>
    decreases n,
{
    if n == 0 {
        Ok(acc)
    } else if pos < 0 || body.len() - pos < 2 || body.len() - (pos + 2) < be16(body, pos) {
        Err(Error::CodeLoadingPrematureEOF)
    } else {
        let raw = body.subrange(pos + 2, pos + 2 + be16(body, pos));
        if !valid_utf8(raw) {
            Err(Error::CodeLoadingBadString)
        } else {
            file_names_from(
                body,
                pos + 2 + be16(body, pos),
                (n - 1) as nat,
                acc.push(decode_utf8(raw)),
            )
        }
    }
}

/// The line table in a chunk body: five numbers, of which the fourth
/// counts the operands and the fifth the file names; then the operands;
/// then the file names.
pub open spec fn line_info_of(body: Seq<u8>) -> Result<(Seq<LLine>, Seq<Seq<char>>), Error> {
    if body.len() < 20 {
        Err(Error::CodeLoadingPrematureEOF)
    } else {
        match line_refs_from(body, 20, be32(body, 12) as nat, 0, Seq::empty()) {
            Err(e) => Err(e),
            Ok((refs, pos)) => match file_names_from(
                body,
                pos,
                be32(body, 16) as nat,
                Seq::empty(),
            ) {
                Err(e) => Err(e),
                Ok(names) => Ok((refs, names)),
            },
        }
    }
}

/// What the loader does with a chunk of the given tag.
pub fn classify(tag: u32) -> (k: Option<ChunkKind>)
    ensures
        k == chunk_kind(tag),
{
    if tag == TAG_ATOM {
        Some(ChunkKind::AtomsLatin1)
    } else if tag == TAG_ATU8 {
        Some(ChunkKind::AtomsUtf8)
    } else if tag == TAG_CODE {
        Some(ChunkKind::Code)
    } else if tag == TAG_EXPT {
        Some(ChunkKind::Exports)
    } else if tag == TAG_IMPT {
        Some(ChunkKind::Imports)
    } else if tag == TAG_LOCT {
        Some(ChunkKind::Locals)
    } else if tag == TAG_FUNT {
        Some(ChunkKind::Funs)
    } else if tag == TAG_LINE {
        Some(ChunkKind::Lines)
    } else if tag == TAG_ATTR || tag == TAG_CINF || tag == TAG_DBGI || tag == TAG_STRT {
        Some(ChunkKind::Skipped)
    } else {
        None
    }
}

/// Reads the import table from the body of its chunk.
pub fn load_imports(body: &[u8]) -> (res: Result<Vec<LImport>, Error>)
    ensures
        res matches Ok(v) ==> imports_of(body@) == Ok::<Seq<LImport>, Error>(v@),
        res matches Err(e) ==> imports_of(body@) == Err::<Seq<LImport>, Error>(e),
{
    let mut r = BinaryReader::new(body);
    let n = match r.read_u32be() {
        Ok(n) => n,
        Err(e) => {
            return Err(e);
        },
    };
    if (r.remaining() as u64) < 12 * (n as u64) {
        return Err(Error::CodeLoadingPrematureEOF);
    }
    let mut imports: Vec<LImport> = Vec::new();
    let mut i: u32 = 0;
    while i < n
        invariant
            i <= n,
            n == be32(body@, 0),
            body@.len() - 4 >= 12 * n,
            r.data() == body@,
            r.pos() == 4 + 12 * i,
            imports@ == Seq::new(i as nat, |k: int| import_at(body@, k)),
        decreases n - i,
    {
        let mod_atom = match r.read_u32be() {
            Ok(v) => v,
            Err(e) => {
                return Err(e);
            },
        };
        let fun_atom = match r.read_u32be() {
            Ok(v) => v,
            Err(e) => {
                return Err(e);
            },
        };
        let arity = match r.read_u32be() {
            Ok(v) => v,
            Err(e) => {
                return Err(e);
            },
        };
        imports.push(LImport { mod_atom, fun_atom, arity: arity as Arity });
        assert(imports@ =~= Seq::new((i + 1) as nat, |k: int| import_at(body@, k)));
        i = i + 1;
    }
    Ok(imports)
}

/// Reads the export table, or the table of local functions, from the
/// body of its chunk.
pub fn load_exports(body: &[u8]) -> (res: Result<Vec<LExport>, Error>)
    ensures
        res matches Ok(v) ==> exports_of(body@) == Ok::<Seq<LExport>, Error>(v@),
        res matches Err(e) ==> exports_of(body@) == Err::<Seq<LExport>, Error>(e),
{
    let mut r = BinaryReader::new(body);
    let n = match r.read_u32be() {
        Ok(n) => n,
        Err(e) => {
            return Err(e);
        },
    };
    if (r.remaining() as u64) < 12 * (n as u64) {
        return Err(Error::CodeLoadingPrematureEOF);
    }
    let mut exports: Vec<LExport> = Vec::new();
    let mut i: u32 = 0;
    while i < n
        invariant
            i <= n,
            n == be32(body@, 0),
            body@.len() - 4 >= 12 * n,
            r.data() == body@,
            r.pos() == 4 + 12 * i,
            exports@ == Seq::new(i as nat, |k: int| export_at(body@, k)),
        decreases n - i,
    {
        let fun_atom = match r.read_u32be() {
            Ok(v) => v,
            Err(e) => {
                return Err(e);
            },
        };
        let arity = match r.read_u32be() {
            Ok(v) => v,
            Err(e) => {
                return Err(e);
            },
        };
        let label = match r.read_u32be() {
            Ok(v) => v,
            Err(e) => {
                return Err(e);
            },
        };
        exports.push(LExport { fun_atom, arity: arity as Arity, label });
        assert(exports@ =~= Seq::new((i + 1) as nat, |k: int| export_at(body@, k)));
        i = i + 1;
    }
    Ok(exports)
}

/// Reads the table of closures from the body of its chunk.
pub fn load_fun_table(body: &[u8]) -> (res: Result<Vec<LFun>, Error>)
    ensures
        res matches Ok(v) ==> funs_of(body@) == Ok::<Seq<LFun>, Error>(v@),
        res matches Err(e) ==> funs_of(body@) == Err::<Seq<LFun>, Error>(e),
{
    let mut r = BinaryReader::new(body);
    let n = match r.read_u32be() {
        Ok(n) => n,
        Err(e) => {
            return Err(e);
        },
    };
    if (r.remaining() as u64) < 24 * (n as u64) {
        return Err(Error::CodeLoadingPrematureEOF);
    }
    let mut funs: Vec<LFun> = Vec::new();
    let mut i: u32 = 0;
    while i < n
        invariant
            i <= n,
            n == be32(body@, 0),
            body@.len() - 4 >= 24 * n,
            r.data() == body@,
            r.pos() == 4 + 24 * i,
            funs@ == Seq::new(i as nat, |k: int| fun_at(body@, k)),
        decreases n - i,
    {
        let fun_atom = match r.read_u32be() {
            Ok(v) => v,
            Err(e) => {
                return Err(e);
            },
        };
        let arity = match r.read_u32be() {
            Ok(v) => v,
            Err(e) => {
                return Err(e);
            },
        };
        let code_pos = match r.read_u32be() {
            Ok(v) => v,
            Err(e) => {
                return Err(e);
            },
        };
        let index = match r.read_u32be() {
            Ok(v) => v,
            Err(e) => {
                return Err(e);
            },
        };
        let nfree = match r.read_u32be() {
            Ok(v) => v,
            Err(e) => {
                return Err(e);
            },
        };
        let ouniq = match r.read_u32be() {
            Ok(v) => v,
            Err(e) => {
                return Err(e);
            },
        };
        funs.push(LFun { fun_atom, arity, code_pos, index, nfree, ouniq });
        assert(funs@ =~= Seq::new((i + 1) as nat, |k: int| fun_at(body@, k)));
        i = i + 1;
    }
    Ok(funs)
}

/// Reads the code chunk: its head, and the code as it stands.
pub fn load_code(body: &[u8]) -> (res: Result<(LCodeInfo, Vec<u8>), Error>)
    ensures
        res matches Ok(c) ==> code_of(body@) == Ok::<(LCodeInfo, Seq<u8>), Error>((c.0, c.1@)),
        res matches Err(e) ==> code_of(body@) == Err::<(LCodeInfo, Seq<u8>), Error>(e),
{
    let mut r = BinaryReader::new(body);
    if r.remaining() < 20 {
        return Err(Error::CodeLoadingPrematureEOF);
    }
    let version = match r.read_u32be() {
        Ok(v) => v,
        Err(e) => {
            return Err(e);
        },
    };
    let min_opcode = match r.read_u32be() {
        Ok(v) => v,
        Err(e) => {
            return Err(e);
        },
    };
    let max_opcode = match r.read_u32be() {
        Ok(v) => v,
        Err(e) => {
            return Err(e);
        },
    };
    let n_labels = match r.read_u32be() {
        Ok(v) => v,
        Err(e) => {
            return Err(e);
        },
    };
    let n_funs = match r.read_u32be() {
        Ok(v) => v,
        Err(e) => {
            return Err(e);
        },
    };
    let rest = r.remaining();
    let code = match r.read_bytes(rest) {
        Ok(v) => v,
        Err(e) => {
            return Err(e);
        },
    };
    assert(code@ =~= body@.subrange(20, body@.len() as int));
    Ok((LCodeInfo { version, min_opcode, max_opcode, n_labels, n_funs }, code))
}

/// Reads a table of atom names in one of its two encodings.
fn load_atoms(body: &[u8], utf8: bool) -> (res: Result<Vec<String>, Error>)
    ensures
        res matches Ok(v) ==> atoms_of(body@, utf8) == Ok::<Seq<Seq<char>>, Error>(texts(v@)),
        res matches Err(e) ==> atoms_of(body@, utf8) == Err::<Seq<Seq<char>>, Error>(e),
{
    let mut r = BinaryReader::new(body);
    let n = match r.read_u32be() {
        Ok(n) => n,
        Err(e) => {
            return Err(e);
        },
    };
    let mut atoms: Vec<String> = Vec::new();
    let mut i: u32 = 0;
    assert(texts(atoms@) =~= Seq::<Seq<char>>::empty());
    while i < n
        invariant
            i <= n,
            r.data() == body@,
            r.in_bounds(),
            atoms_of(body@, utf8) == atoms_from(
                body@,
                r.pos(),
                (n - i) as nat,
                utf8,
                texts(atoms@),
            ),
        decreases n - i,
    {
        let ghost pos = r.pos();
        let len = match r.read_u8() {
            Ok(v) => v,
            Err(e) => {
                return Err(e);
            },
        };
        let ghost before = r.rest();
        let name = if utf8 {
            match r.read_str_utf8(len as usize) {
                Ok(s) => s,
                Err(e) => {
                    proof {
                        if before.len() >= len {
                            assert(before.subrange(0, len as int) =~= body@.subrange(
                                pos + 1,
                                pos + 1 + len,
                            ));
                        }
                    }
                    return Err(e);
                },
            }
        } else {
            match r.read_str_latin1(len as usize) {
                Ok(s) => s,
                Err(e) => {
                    return Err(e);
                },
            }
        };
        proof {
            assert(before.subrange(0, len as int) =~= body@.subrange(pos + 1, pos + 1 + len));
            assert(texts(atoms@.push(name)) =~= texts(atoms@).push(name@));
        }
        atoms.push(name);
        i = i + 1;
    }
    Ok(atoms)
}

/// Reads the table of atom names whose text is UTF-8.
pub fn load_atoms_utf8(body: &[u8]) -> (res: Result<Vec<String>, Error>)
    ensures
        res matches Ok(v) ==> atoms_of(body@, true) == Ok::<Seq<Seq<char>>, Error>(texts(v@)),
        res matches Err(e) ==> atoms_of(body@, true) == Err::<Seq<Seq<char>>, Error>(e),
{
    load_atoms(body, true)
}

/// Reads the table of atom names whose text has one character per byte.
pub fn load_atoms_latin1(body: &[u8]) -> (res: Result<Vec<String>, Error>)
    ensures
        res matches Ok(v) ==> atoms_of(body@, false) == Ok::<Seq<Seq<char>>, Error>(texts(v@)),
        res matches Err(e) ==> atoms_of(body@, false) == Err::<Seq<Seq<char>>, Error>(e),
{
    load_atoms(body, false)
}

/// Reads the line table from the body of its chunk: the line references
/// and the file names.
pub fn load_line_info(body: &[u8]) -> (res: Result<(Vec<LLine>, Vec<String>), Error>)
    ensures
        res matches Ok(t) ==> line_info_of(body@) == Ok::<(Seq<LLine>, Seq<Seq<char>>), Error>(
            (t.0@, texts(t.1@)),
        ),
        res matches Err(e) ==> line_info_of(body@) == Err::<(Seq<LLine>, Seq<Seq<char>>), Error>(
            e,
        ),
{
    let mut r = BinaryReader::new(body);
    if r.remaining() < 20 {
        return Err(Error::CodeLoadingPrematureEOF);
    }
    r.skip(12);
    let n_line_refs = match r.read_u32be() {
        Ok(v) => v,
        Err(e) => {
            return Err(e);
        },
    };
    let n_filenames = match r.read_u32be() {
        Ok(v) => v,
        Err(e) => {
            return Err(e);
        },
    };
    let mut fname_index: u64 = 0;
    let mut refs: Vec<LLine> = Vec::new();
    let mut i: u32 = 0;
    while i < n_line_refs
        invariant
            i <= n_line_refs,
            body@.len() >= 20,
            n_line_refs == be32(body@, 12),
            r.data() == body@,
            r.in_bounds(),
            line_refs_from(body@, 20, n_line_refs as nat, 0, Seq::empty()) == line_refs_from(
                body@,
                r.pos(),
                (n_line_refs - i) as nat,
                fname_index,
                refs@,
            ),
        decreases n_line_refs - i,
    {
        match crate::compact_term::read(&mut r) {
            Ok(CompactTerm::Integer(line)) => {
                if line < 0 {
                    return Err(Error::CodeLoadingBadLineInfo);
                }
                refs.push(LLine { file: fname_index, line: line as u64 });
            },
            Ok(CompactTerm::Atom(index)) => {
                fname_index = index;
            },
            Ok(_) => {
                return Err(Error::CodeLoadingBadLineInfo);
            },
            Err(e) => {
                return Err(e);
            },
        }
        i = i + 1;
    }
    let ghost names_at = r.pos();
    let mut names: Vec<String> = Vec::new();
    let mut k: u32 = 0;
    assert(texts(names@) =~= Seq::<Seq<char>>::empty());
    while k < n_filenames
        invariant
            k <= n_filenames,
            body@.len() >= 20,
            n_line_refs == be32(body@, 12),
            n_filenames == be32(body@, 16),
            line_refs_from(body@, 20, n_line_refs as nat, 0, Seq::empty()) == Ok::<
                (Seq<LLine>, int),
                Error,
            >((refs@, names_at)),
            r.data() == body@,
            r.in_bounds(),
            file_names_from(body@, names_at, n_filenames as nat, Seq::empty()) == file_names_from(
                body@,
                r.pos(),
                (n_filenames - k) as nat,
                texts(names@),
            ),
        decreases n_filenames - k,
    {
        let ghost pos = r.pos();
        let size = match r.read_u16be() {
            Ok(v) => v,
            Err(e) => {
                return Err(e);
            },
        };
        let ghost before = r.rest();
        let name = match r.read_str_utf8(size as usize) {
            Ok(s) => s,
            Err(e) => {
                proof {
                    if before.len() >= size {
                        assert(before.subrange(0, size as int) =~= body@.subrange(
                            pos + 2,
                            pos + 2 + size,
                        ));
                    }
                }
                return Err(e);
            },
        };
        proof {
            assert(before.subrange(0, size as int) =~= body@.subrange(pos + 2, pos + 2 + size));
            assert(texts(names@.push(name)) =~= texts(names@).push(name@));
        }
        names.push(name);
        k = k + 1;
    }
    Ok((refs, names))
}

/// What a loader holds of a file: the tables as the file gives them.
pub struct RawTables {
    pub atoms: Seq<Seq<char>>,
    pub imports: Seq<LImport>,
    pub exports: Seq<LExport>,
    pub locals: Seq<LExport>,
    pub funs: Seq<LFun>,
    pub code_info: Option<LCodeInfo>,
    pub code: Seq<u8>,
    pub line_refs: Seq<LLine>,
    pub file_names: Seq<Seq<char>>,
}

/// The tables of a loader that has read nothing.
pub open spec fn empty_tables() -> RawTables {
    RawTables {
        atoms: Seq::empty(),
        imports: Seq::empty(),
        exports: Seq::empty(),
        locals: Seq::empty(),
        funs: Seq::empty(),
        code_info: None,
        code: Seq::empty(),
        line_refs: Seq::empty(),
        file_names: Seq::empty(),
    }
}

/// The tables after a chunk of the given kind was read. Atoms, imports,
/// closures and line data add to what is there; exports, local functions
/// and code take its place; a skipped chunk changes nothing.
pub open spec fn apply_chunk(st: RawTables, kind: ChunkKind, body: Seq<u8>) -> Result<
    RawTables,
    Error,
> {
    match kind {
        ChunkKind::AtomsLatin1 => match atoms_of(body, false) {
            Ok(atoms) => Ok(RawTables { atoms: st.atoms + atoms, ..st }),
            Err(e) => Err(e),
        },
        ChunkKind::AtomsUtf8 => match atoms_of(body, true) {
            Ok(atoms) => Ok(RawTables { atoms: st.atoms + atoms, ..st }),
            Err(e) => Err(e),
        },
        ChunkKind::Code => match code_of(body) {
            Ok((info, code)) => Ok(RawTables { code_info: Some(info), code, ..st }),
            Err(e) => Err(e),
        },
        ChunkKind::Exports => match exports_of(body) {
            Ok(exports) => Ok(RawTables { exports, ..st }),
            Err(e) => Err(e),
        },
        ChunkKind::Imports => match imports_of(body) {
            Ok(imports) => Ok(RawTables { imports: st.imports + imports, ..st }),
            Err(e) => Err(e),
        },
        ChunkKind::Locals => match exports_of(body) {
            Ok(locals) => Ok(RawTables { locals, ..st }),
            Err(e) => Err(e),
        },
        ChunkKind::Funs => match funs_of(body) {
            Ok(funs) => Ok(RawTables { funs: st.funs + funs, ..st }),
            Err(e) => Err(e),
        },
        ChunkKind::Lines => match line_info_of(body) {
            Ok((refs, names)) => Ok(
                RawTables {
                    line_refs: st.line_refs + refs,
                    file_names: st.file_names + names,
                    ..st
                },
            ),
            Err(e) => Err(e),
        },
        ChunkKind::Skipped => Ok(st),
    }
}

/// Where the chunk after the one at `pos` starts, in a file of `total`
/// bytes: behind the header of eight bytes, the body of `len` bytes and
/// the padding. Where the file ends inside the padding, at the file's end.
pub open spec fn chunk_end(total: int, pos: int, len: int) -> int {
    if pos + 8 + len + padding(len) > total {
        total
    } else {
        pos + 8 + len + padding(len)
    }
}

/// The tables after the chunks from `pos` on were read into `st`, and the
/// error that stopped the reading, if one did. The file may end before a
/// chunk, and nowhere else. A chunk that fails leaves the tables as they
/// were before it.
pub open spec fn load_from(data: Seq<u8>, pos: int, st: RawTables) -> (RawTables, Option<Error>)
    decreases data.len() - pos,
{
    if pos < 0 || pos >= data.len() {
        (st, None)
    } else if data.len() - pos < 8 {
        (st, Some(Error::CodeLoadingPrematureEOF))
    } else {
        let tag = be32(data, pos) as u32;
        let len = be32(data, pos + 4);
        match chunk_kind(tag) {
            None => (st, Some(Error::CodeLoadingUnexpectedChunk(tag))),
            Some(kind) => if data.len() - (pos + 8) < len {
                (st, Some(Error::CodeLoadingPrematureEOF))
            } else {
                match apply_chunk(st, kind, data.subrange(pos + 8, pos + 8 + len)) {
                    Err(e) => (st, Some(e)),
                    Ok(next) => load_from(data, chunk_end(data.len() as int, pos, len), next),
                }
            },
        }
    }
}

/// What a signature check says of the bytes in its place.
pub open spec fn signature_error(found: Seq<u8>, wanted: Seq<u8>) -> Option<Error> {
    if wanted.is_prefix_of(found) {
        None
    } else if found.len() < wanted.len() {
        Some(Error::CodeLoadingPrematureEOF)
    } else {
        Some(Error::CodeLoadingBadSignature)
    }
}

/// What is wrong with a file's header, if anything is: the header is the
/// signature `FOR1`, four bytes of a size that is not looked at, and the
/// signature `BEAM`.
pub open spec fn header_error(data: Seq<u8>) -> Option<Error> {
    if signature_error(data, signature_for1()) is Some {
        signature_error(data, signature_for1())
    } else if data.len() < 8 {
        Some(Error::CodeLoadingPrematureEOF)
    } else {
        signature_error(data.subrange(8, data.len() as int), signature_beam())
    }
}

/// The tables after a whole file was read into `st`, and the error that
/// stopped the reading, if one did.
pub open spec fn load_spec(data: Seq<u8>, st: RawTables) -> (RawTables, Option<Error>) {
    match header_error(data) {
        Some(e) => (st, Some(e)),
        None => load_from(data, 12, st),
    }
}

/// The name that stands committed after atoms were committed: the first
/// of them, or what stood before where there are none.
pub open spec fn committed_name(before: Term, atoms: Seq<Term>) -> Term {
    if atoms.len() > 0 {
        atoms[0]
    } else {
        before
    }
}

/// The state of one load.
pub struct Loader {
    /// Atoms as the file spells them.
    pub atom_tab: Vec<String>,
    /// The same atoms as values of the machine, once committed.
    pub vm_atoms: Vec<Term>,
    pub imports: Vec<LImport>,
    pub exports: Vec<LExport>,
    pub locals: Vec<LExport>,
    pub funs: Vec<LFun>,
    pub code_info: Option<LCodeInfo>,
    pub code: Vec<u8>,
    pub line_refs: Vec<LLine>,
    pub file_names: Vec<String>,
    /// The module's name, once committed.
    pub mod_name: Term,
}

impl View for Loader {
    type V = RawTables;

    open spec fn view(&self) -> RawTables {
        RawTables {
            atoms: texts(self.atom_tab@),
            imports: self.imports@,
            exports: self.exports@,
            locals: self.locals@,
            funs: self.funs@,
            code_info: self.code_info,
            code: self.code@,
            line_refs: self.line_refs@,
            file_names: texts(self.file_names@),
        }
    }
}

/// The texts of two lists, one after the other, are the texts of the
/// joined list.
proof fn lemma_texts_add(a: Seq<String>, b: Seq<String>)
    ensures
        texts(a + b) == texts(a) + texts(b),
{
    assert(texts(a + b) =~= texts(a) + texts(b));
}

impl Loader {
    /// Construct a new loader state.
    pub fn new() -> (l: Loader)
        ensures
            l@ == empty_tables(),
            l.vm_atoms@.len() == 0,
            l.mod_name == Term::NonValue,
    {
        let l = Loader {
            atom_tab: Vec::new(),
            vm_atoms: Vec::new(),
            imports: Vec::new(),
            exports: Vec::new(),
            locals: Vec::new(),
            funs: Vec::new(),
            code_info: None,
            code: Vec::new(),
            line_refs: Vec::new(),
            file_names: Vec::new(),
            mod_name: Term::non_value(),
        };
        assert(l@.atoms =~= Seq::<Seq<char>>::empty());
        assert(l@.file_names =~= Seq::<Seq<char>>::empty());
        l
    }

    /// Reads one chunk body into the tables.
    fn load_chunk(&mut self, kind: ChunkKind, body: &[u8]) -> (res: Result<(), Error>)
        ensures
            final(self).vm_atoms == old(self).vm_atoms,
            final(self).mod_name == old(self).mod_name,
            res is Ok ==> apply_chunk(old(self)@, kind, body@) == Ok::<RawTables, Error>(
                final(self)@,
            ),
            res matches Err(e) ==> apply_chunk(old(self)@, kind, body@) == Err::<RawTables, Error>(
                e,
            ) && final(self)@ == old(self)@,
    {
        match kind {
            ChunkKind::AtomsLatin1 => {
                let mut atoms = load_atoms_latin1(body)?;
                proof {
                    lemma_texts_add(self.atom_tab@, atoms@);
                }
                self.atom_tab.append(&mut atoms);
            },
            ChunkKind::AtomsUtf8 => {
                let mut atoms = load_atoms_utf8(body)?;
                proof {
                    lemma_texts_add(self.atom_tab@, atoms@);
                }
                self.atom_tab.append(&mut atoms);
            },
            ChunkKind::Code => {
                let (info, code) = load_code(body)?;
                self.code_info = Some(info);
                self.code = code;
            },
            ChunkKind::Exports => {
                self.exports = load_exports(body)?;
            },
            ChunkKind::Imports => {
                let mut imports = load_imports(body)?;
                self.imports.append(&mut imports);
            },
            ChunkKind::Locals => {
                self.locals = load_exports(body)?;
            },
            ChunkKind::Funs => {
                let mut funs = load_fun_table(body)?;
                self.funs.append(&mut funs);
            },
            ChunkKind::Lines => {
                let (mut refs, mut names) = load_line_info(body)?;
                proof {
                    lemma_texts_add(self.file_names@, names@);
                }
                self.line_refs.append(&mut refs);
                self.file_names.append(&mut names);
            },
            ChunkKind::Skipped => {},
        }
        Ok(())
    }

    /// Reads a module file, of which `data` holds every byte, into the
    /// tables. The header is checked, then the chunks are read one after
    /// the other until the file ends before a chunk. After an error the
    /// tables hold what the chunks before the failing one gave.
    ///
    /// Then call `load_stage2()` to apply changes to the VM, and finalize
    /// by calling `load_finalize()`, which returns the module.
    pub fn load(&mut self, data: &[u8]) -> (res: Result<(), Error>)
        ensures
            final(self)@ == load_spec(data@, old(self)@).0,
            res is Ok <==> load_spec(data@, old(self)@).1 is None,
            res matches Err(e) ==> load_spec(data@, old(self)@).1 == Some(e),
            final(self).vm_atoms == old(self).vm_atoms,
            final(self).mod_name == old(self).mod_name,
    {
        let mut r = BinaryReader::new(data);
        let for1: Vec<u8> = vec![0x46u8, 0x4Fu8, 0x52u8, 0x31u8];
        let hdr1 = bytes_from_slice(for1.as_slice());
        assert(bytes_content(hdr1) =~= signature_for1());
        assert(r.rest() =~= data@);
        match r.ensure_bytes(&hdr1) {
            Ok(()) => {},
            Err(e) => {
                return Err(e);
            },
        }
        match r.read_u32be() {
            Ok(_) => {},
            Err(e) => {
                return Err(e);
            },
        }
        let beam: Vec<u8> = vec![0x42u8, 0x45u8, 0x41u8, 0x4Du8];
        let hdr2 = bytes_from_slice(beam.as_slice());
        assert(bytes_content(hdr2) =~= signature_beam());
        match r.ensure_bytes(&hdr2) {
            Ok(()) => {},
            Err(e) => {
                return Err(e);
            },
        }
        loop
            invariant
                r.data() == data@,
                r.in_bounds(),
                load_from(data@, r.pos(), self@) == load_spec(data@, old(self)@),
                self.vm_atoms == old(self).vm_atoms,
                self.mod_name == old(self).mod_name,
            decreases data@.len() - r.pos(),
        {
            let ghost pos = r.pos();
            let left = r.remaining();
            // The end of the file before a chunk is the end of the load.
            if left == 0 {
                return Ok(());
            }
            if left < 8 {
                return Err(Error::CodeLoadingPrematureEOF);
            }
            let tag = match r.read_u32be() {
                Ok(v) => v,
                Err(e) => {
                    return Err(e);
                },
            };
            let chunk_sz = match r.read_u32be() {
                Ok(v) => v,
                Err(e) => {
                    return Err(e);
                },
            };
            let kind = match classify(tag) {
                Some(kind) => kind,
                None => {
                    return Err(Error::CodeLoadingUnexpectedChunk(tag));
                },
            };
            if r.remaining() < chunk_sz as usize {
                return Err(Error::CodeLoadingPrematureEOF);
            }
            let start = r.position();
            let body = slice_subrange(data, start, start + chunk_sz as usize);
            match self.load_chunk(kind, body) {
                Ok(()) => {},
                Err(e) => {
                    return Err(e);
                },
            }
            r.skip(chunk_sz as usize);
            // The next chunk is aligned at 4 bytes
            let align = (4 - chunk_sz % 4) % 4;
            r.skip(align as usize);
            assert(r.pos() == chunk_end(data@.len() as int, pos, chunk_sz as int));
        }
    }

    /// Call this to apply changes to the VM after module loading
    /// succeeded. The module object is not created yet, but the atoms are
    /// committed: each name of the atom table becomes an atom of the
    /// machine, in the table's order, and the first of them is the
    /// module's name.
    pub fn load_stage2(&mut self, vm: &mut VM)
        ensures
            final(vm)@ == intern_all(old(vm)@, old(self)@.atoms).0,
            final(self).vm_atoms@ == intern_all(old(vm)@, old(self)@.atoms).1,
            final(self).mod_name == committed_name(old(self).mod_name, final(self).vm_atoms@),
            final(self)@ == old(self)@,
    {
        let ghost names = texts(self.atom_tab@);
        let mut atoms: Vec<Term> = Vec::new();
        let mut i: usize = 0;
        assert(names.subrange(0, 0) =~= Seq::<Seq<char>>::empty());
        while i < self.atom_tab.len()
            invariant
                i <= self.atom_tab@.len(),
                *self == *old(self),
                names == texts(self.atom_tab@),
                vm@ == intern_all(old(vm)@, names.subrange(0, i as int)).0,
                atoms@ == intern_all(old(vm)@, names.subrange(0, i as int)).1,
            decreases self.atom_tab@.len() - i,
        {
            let t = vm.atom(&self.atom_tab[i]);
            proof {
                let next = names.subrange(0, i + 1);
                assert(next.drop_last() =~= names.subrange(0, i as int));
                assert(next.last() == self.atom_tab@[i as int]@);
            }
            atoms.push(t);
            i = i + 1;
        }
        assert(names.subrange(0, i as int) =~= names);
        self.vm_atoms = atoms;
        if self.vm_atoms.len() > 0 {
            self.mod_name = self.vm_atoms[0];
        }
    }

    /// At this point loading is finished, and we create the module and
    /// return a shared handle on it. The caller is responsible for adding
    /// the module to its code registry. Without a committed name there is
    /// no module.
    pub fn load_finalize(&mut self) -> (res: Result<Ptr, Error>)
        ensures
            *final(self) == *old(self),
            res is Ok <==> old(self).mod_name != Term::NonValue,
            res matches Ok(m) ==> m.name == old(self).mod_name,
            res matches Err(e) ==> e == Error::CodeLoadingNoModuleName,
    {
        if self.mod_name.is_value() {
            Ok(Module::new(self.mod_name))
        } else {
            Err(Error::CodeLoadingNoModuleName)
        }
    }
}

/// A file that loads and holds an atom gives, once its atoms are
/// committed to any table in order, a module name under which the table
/// holds the text of the file's first atom, letter for letter.
pub proof fn lemma_module_named_by_first_atom(data: Seq<u8>, table: Seq<Seq<char>>)
    requires
        load_spec(data, empty_tables()).1 is None,
        load_spec(data, empty_tables()).0.atoms.len() > 0,
        table.len() + load_spec(data, empty_tables()).0.atoms.len() <= usize::MAX,
    ensures
        ({
            let atoms = load_spec(data, empty_tables()).0.atoms;
            let committed = intern_all(table, atoms);
            let name = committed_name(Term::NonValue, committed.1);
            &&& name != Term::NonValue
            &&& name matches Term::Atom(i) && i < committed.0.len() && committed.0[i as int]
                == atoms[0]
        }),
{
    let atoms = load_spec(data, empty_tables()).0.atoms;
    lemma_intern_all(table, atoms);
    assert(intern_all(table, atoms).1[0] is Atom);
}

/// Whether a chunk starts at `to`, going from the chunk start `from` by
/// the lengths that the chunk headers give.
pub open spec fn chunk_starts(data: Seq<u8>, from: int, to: int) -> bool
    decreases data.len() - from,
{
    if from == to {
        true
    } else if from < 0 || from > to || data.len() - from < 8 || data.len() - (from + 8) < be32(
        data,
        from + 4,
    ) {
        false
    } else {
        chunk_starts(data, chunk_end(data.len() as int, from, be32(data, from + 4)), to)
    }
}

/// Whether a load that stands at `from` with the tables `st` comes to
/// stand at `to` with the tables `st_to`: every chunk between the two is
/// known, is whole and is read without error.
pub open spec fn reaches(data: Seq<u8>, from: int, st: RawTables, to: int, st_to: RawTables) -> bool
    decreases data.len() - from,
{
    if from == to {
        st == st_to
    } else if from < 0 || from > to || data.len() - from < 8 || data.len() - (from + 8) < be32(
        data,
        from + 4,
    ) {
        false
    } else {
        match chunk_kind(be32(data, from) as u32) {
            None => false,
            Some(kind) => match apply_chunk(
                st,
                kind,
                data.subrange(from + 8, from + 8 + be32(data, from + 4)),
            ) {
                Err(_) => false,
                Ok(next) => reaches(
                    data,
                    chunk_end(data.len() as int, from, be32(data, from + 4)),
                    next,
                    to,
                    st_to,
                ),
            },
        }
    }
}

/// A load ends as the load from any place that it comes to.
pub proof fn lemma_reaches(data: Seq<u8>, from: int, st: RawTables, to: int, st_to: RawTables)
    requires
        0 <= from,
        to < data.len(),
        reaches(data, from, st, to, st_to),
    ensures
        load_from(data, from, st) == load_from(data, to, st_to),
    decreases data.len() - from,
{
    if from != to {
        let len = be32(data, from + 4);
        let kind = chunk_kind(be32(data, from) as u32)->Some_0;
        let next = apply_chunk(st, kind, data.subrange(from + 8, from + 8 + len))->Ok_0;
        lemma_reaches(data, chunk_end(data.len() as int, from, len), next, to, st_to);
    }
}

/// A file in which a chunk's length says more bytes than the file has left
/// does not load, whatever else it holds.
pub proof fn lemma_truncated_chunk_fails(data: Seq<u8>, st: RawTables, from: int, pos: int)
    requires
        0 <= from,
        chunk_starts(data, from, pos),
        pos + 8 <= data.len(),
        be32(data, pos + 4) > data.len() - (pos + 8),
    ensures
        load_from(data, from, st).1 is Some,
    decreases data.len() - from,
{
    if from != pos {
        let len = be32(data, from + 4);
        let body = data.subrange(from + 8, from + 8 + len);
        match chunk_kind(be32(data, from) as u32) {
            None => {},
            Some(kind) => match apply_chunk(st, kind, body) {
                Err(_) => {},
                Ok(next) => {
                    lemma_truncated_chunk_fails(
                        data,
                        next,
                        chunk_end(data.len() as int, from, len),
                        pos,
                    );
                },
            },
        }
    }
}

/// The same of a whole file: a truncated chunk anywhere behind the header
/// makes the load fail.
pub proof fn lemma_truncated_file_fails(data: Seq<u8>, st: RawTables, pos: int)
    requires
        chunk_starts(data, 12, pos),
        pos + 8 <= data.len(),
        be32(data, pos + 4) > data.len() - (pos + 8),
    ensures
        load_spec(data, st).1 is Some,
{
    lemma_truncated_chunk_fails(data, st, 12, pos);
}

/// Four bytes can be read back from the number that they spell.
proof fn lemma_split_be32(b0: int, b1: int, b2: int, b3: int)
    requires
        0 <= b0 < 0x100,
        0 <= b1 < 0x100,
        0 <= b2 < 0x100,
        0 <= b3 < 0x100,
    ensures
        ({
            let v = b0 * 0x100_0000 + b1 * 0x1_0000 + b2 * 0x100 + b3;
            &&& v / 0x100_0000 == b0
            &&& v / 0x1_0000 % 0x100 == b1
            &&& v / 0x100 % 0x100 == b2
            &&& v % 0x100 == b3
        }),
{
    let v = b0 * 0x100_0000 + b1 * 0x1_0000 + b2 * 0x100 + b3;
    lemma_fundamental_div_mod_converse(v, 0x100_0000, b0, b1 * 0x1_0000 + b2 * 0x100 + b3);
    lemma_fundamental_div_mod_converse(v, 0x1_0000, b0 * 0x100 + b1, b2 * 0x100 + b3);
    lemma_fundamental_div_mod_converse(b0 * 0x100 + b1, 0x100, b0, b1);
    lemma_fundamental_div_mod_converse(v, 0x100, b0 * 0x1_0000 + b1 * 0x100 + b2, b3);
    lemma_fundamental_div_mod_converse(b0 * 0x1_0000 + b1 * 0x100 + b2, 0x100, b0 * 0x100 + b1, b2);
}

/// A tag's number, read back as text, is the tag's four bytes.
pub proof fn lemma_tag_text(data: Seq<u8>, pos: int)
    requires
        0 <= pos,
        pos + 4 <= data.len(),
    ensures
        tag_text(be32(data, pos) as u32) == latin1(data.subrange(pos, pos + 4)),
{
    lemma_split_be32(
        data[pos] as int,
        data[pos + 1] as int,
        data[pos + 2] as int,
        data[pos + 3] as int,
    );
    assert(tag_text(be32(data, pos) as u32) =~= latin1(data.subrange(pos, pos + 4)));
}

/// A load that comes to a chunk with a tag that the loader does not know
/// ends there, in the error that carries this tag.
pub proof fn lemma_unknown_tag_fails(data: Seq<u8>, st0: RawTables, pos: int, st: RawTables)
    requires
        header_error(data) is None,
        reaches(data, 12, st0, pos, st),
        pos + 8 <= data.len(),
        chunk_kind(be32(data, pos) as u32) is None,
    ensures
        load_spec(data, st0) == (
            st,
            Some(Error::CodeLoadingUnexpectedChunk(be32(data, pos) as u32)),
        ),
{
    lemma_reaches(data, 12, st0, pos, st);
}

/// The padding behind a body is from zero to three bytes and brings the
/// length of body and padding to a multiple of four.
pub proof fn lemma_padding(len: int)
    requires
        0 <= len,
    ensures
        0 <= padding(len) < 4,
        (len + padding(len)) % 4 == 0,
        len % 4 == 0 ==> padding(len) == 0,
{
}

/// After a chunk that was read into the tables, the load goes on behind
/// the chunk's padding, which is not looked at; where the file ends inside
/// the padding, the load ends there, and well.
pub proof fn lemma_next_chunk_is_aligned(
    data: Seq<u8>,
    pos: int,
    st: RawTables,
    kind: ChunkKind,
    next: RawTables,
)
    requires
        0 <= pos,
        pos + 8 <= data.len(),
        chunk_kind(be32(data, pos) as u32) == Some(kind),
        pos + 8 + be32(data, pos + 4) <= data.len(),
        apply_chunk(st, kind, data.subrange(pos + 8, pos + 8 + be32(data, pos + 4))) == Ok::<
            RawTables,
            Error,
        >(next),
    ensures
        ({
            let after = pos + 8 + be32(data, pos + 4) + padding(be32(data, pos + 4));
            &&& after <= data.len() ==> load_from(data, pos, st) == load_from(data, after, next)
            &&& after > data.len() ==> load_from(data, pos, st) == (next, None::<Error>)
        }),
{
    let len = be32(data, pos + 4);
    let total = data.len() as int;
    assert(load_from(data, pos, st) == load_from(data, chunk_end(total, pos, len), next));
    assert(load_from(data, total, next) == (next, None::<Error>));
}

} // verus!
