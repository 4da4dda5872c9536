//! What this crate takes on trust from `bytes` and from `std`'s `String`.

use bytes::Bytes;
use vstd::prelude::*;
use vstd::utf8::*;

verus! {

/// The type `bytes::Bytes`, of which nothing is known but what the items
/// below say.
#[verifier::external_type_specification]
#[verifier::external_body]
pub struct ExBytes(bytes::Bytes);

/// The bytes that a `Bytes` handle holds, in order.
pub uninterp spec fn bytes_content(b: Bytes) -> Seq<u8>;

/// `Bytes::copy_from_slice`: a handle on a fresh copy of `data`. Taken on
/// trust: the handle holds the bytes of `data`, in order.
#[verifier::external_body]
pub(crate) fn bytes_from_slice(data: &[u8]) -> (b: Bytes)
    ensures
        bytes_content(b) == data@,
{
    Bytes::copy_from_slice(data)
}

/// `<Bytes as AsRef<[u8]>>::as_ref`: the bytes of a handle as a slice.
/// Taken on trust: the slice is what the handle holds.
#[verifier::external_body]
pub(crate) fn bytes_as_slice(b: &Bytes) -> (s: &[u8])
    ensures
        s@ == bytes_content(*b),
{
    b.as_ref()
}

/// `String::from_utf8`: the string that `bytes` encode. Taken on trust:
/// the call succeeds exactly on valid UTF-8, and then gives the characters
/// that the bytes decode to.
#[verifier::external_body]
pub(crate) fn string_from_utf8(bytes: Vec<u8>) -> (r: Option<String>)
    ensures
        r is Some <==> valid_utf8(bytes@),
        r matches Some(s) ==> s@ == decode_utf8(bytes@),
{
    match String::from_utf8(bytes) {
        Ok(s) => Some(s),
        Err(_) => None,
    }
}

/// `String::push`: appends one character. Taken on trust: the string is
/// afterwards what it was, followed by `c`.
#[verifier::external_body]
pub(crate) fn string_push(s: &mut String, c: char)
    ensures
        final(s)@ == old(s)@.push(c),
{
    s.push(c)
}

} // verus!
