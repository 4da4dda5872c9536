//! The errors that loading a module can end with.

use vstd::prelude::*;
use crate::foreign::string_push;
use crate::loader::module;
use vstd::string::*;

verus! {

/// Why a load attempt stopped.
#[derive(Clone, Copy, Debug, PartialEq, Eq, Structural)]
pub enum Error {
    /// The input ended inside a header, a chunk header or a chunk body.
    CodeLoadingPrematureEOF,
    /// The bytes at a fixed place are not the signature expected there.
    CodeLoadingBadSignature,
    /// A chunk carries a tag that the loader does not know. The tag's four
    /// bytes are kept as one number, the first byte the most significant.
    CodeLoadingUnexpectedChunk(u32),
    /// An atom name or a file name is not valid UTF-8.
    CodeLoadingBadString,
    /// An operand uses a form that the compact decoder does not take.
    CodeLoadingCompactTerm,
    /// The line table holds an operand that is neither a line number nor
    /// an atom.
    CodeLoadingBadLineInfo,
    /// No module name was committed before the module was asked for.
    CodeLoadingNoModuleName,
}

/// The words that open every message of the loader.
pub open spec fn module_prefix() -> Seq<char> {
    "BEAM loader: "@
}

/// A tag's four bytes as text, one character per byte.
pub open spec fn tag_text(tag: u32) -> Seq<char> {
    seq![
        (tag / 0x100_0000) as u8 as char,
        (tag / 0x1_0000 % 0x100) as u8 as char,
        (tag / 0x100 % 0x100) as u8 as char,
        (tag % 0x100) as u8 as char,
    ]
}

/// The text of a message, after the prefix.
pub open spec fn message_body(e: Error) -> Seq<char> {
    match e {
        Error::CodeLoadingPrematureEOF => "Premature end of file"@,
        Error::CodeLoadingBadSignature => "Bad signature"@,
        Error::CodeLoadingUnexpectedChunk(tag) => "Unexpected chunk: "@ + tag_text(tag),
        Error::CodeLoadingBadString => "Bad string"@,
        Error::CodeLoadingCompactTerm => "Bad compact term"@,
        Error::CodeLoadingBadLineInfo => "Unexpected data in line info section"@,
        Error::CodeLoadingNoModuleName => "No module name"@,
    }
}

impl Error {
    /// The message of this error: the loader's prefix, then what went
    /// wrong, then for an unknown chunk its tag.
    pub fn message(&self) -> (msg: String)
        ensures
            msg@ == module_prefix() + message_body(*self),
    {
        let head = String::from_str(module());
        match self {
            Error::CodeLoadingPrematureEOF => head.concat("Premature end of file"),
            Error::CodeLoadingBadSignature => head.concat("Bad signature"),
            Error::CodeLoadingUnexpectedChunk(tag) => {
                let mut msg = head.concat("Unexpected chunk: ");
                string_push(&mut msg, (*tag / 0x100_0000) as u8 as char);
                string_push(&mut msg, (*tag / 0x1_0000 % 0x100) as u8 as char);
                string_push(&mut msg, (*tag / 0x100 % 0x100) as u8 as char);
                string_push(&mut msg, (*tag % 0x100) as u8 as char);
                assert(msg@ =~= module_prefix() + message_body(*self));
                msg
            },
            Error::CodeLoadingBadString => head.concat("Bad string"),
            Error::CodeLoadingCompactTerm => head.concat("Bad compact term"),
            Error::CodeLoadingBadLineInfo => head.concat("Unexpected data in line info section"),
            Error::CodeLoadingNoModuleName => head.concat("No module name"),
        }
    }
}

/// The message for an unknown chunk ends in the four characters of the
/// chunk's tag.
pub proof fn lemma_message_ends_in_tag(tag: u32)
    ensures
        ({
            let msg = module_prefix() + message_body(Error::CodeLoadingUnexpectedChunk(tag));
            &&& msg.len() >= 4
            &&& msg.subrange(msg.len() - 4, msg.len() as int) == tag_text(tag)
        }),
{
    let msg = module_prefix() + message_body(Error::CodeLoadingUnexpectedChunk(tag));
    assert(msg.subrange(msg.len() - 4, msg.len() as int) =~= tag_text(tag));
}

} // verus!
