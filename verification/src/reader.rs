//! A sequential big-endian reader over a byte buffer.

use crate::foreign::{bytes_as_slice, bytes_content, string_from_utf8, string_push};
use crate::rterror::Error;
use bytes::Bytes;
use vstd::prelude::*;
use vstd::slice::*;
use vstd::utf8::*;

verus! {

/// The 16-bit value that two bytes at `at` spell, most significant first.
pub open spec fn be16(s: Seq<u8>, at: int) -> int {
    s[at] * 0x100 + s[at + 1]
}

/// The 32-bit value that four bytes at `at` spell, most significant first.
pub open spec fn be32(s: Seq<u8>, at: int) -> int {
    s[at] * 0x100_0000 + s[at + 1] * 0x1_0000 + s[at + 2] * 0x100 + s[at + 3]
}

/// Bytes read as text, one character per byte.
pub open spec fn latin1(s: Seq<u8>) -> Seq<char> {
    Seq::new(s.len(), |i: int| s[i] as char)
}

/// A cursor into a byte buffer. It never stands behind the buffer's end.
pub struct BinaryReader<'a> {
    buf: &'a [u8],
    pos: usize,
}

impl<'a> BinaryReader<'a> {
    #[verifier::type_invariant]
    spec fn inv(self) -> bool {
        self.pos <= self.buf@.len()
    }

    /// The whole buffer.
    pub closed spec fn data(&self) -> Seq<u8> {
        self.buf@
    }

    /// How many bytes have been read.
    pub closed spec fn pos(&self) -> int {
        self.pos as int
    }

    /// The cursor stands inside the buffer or at its end, and the buffer
    /// is one that the machine can hold. This holds of every reader; the
    /// functions below say so for their callers.
    pub open spec fn in_bounds(&self) -> bool {
        0 <= self.pos() <= self.data().len() <= usize::MAX
    }

    /// The bytes not read yet.
    pub open spec fn rest(&self) -> Seq<u8> {
        self.data().subrange(self.pos(), self.data().len() as int)
    }

    /// A reader at the start of `buf`.
    pub fn new(buf: &'a [u8]) -> (r: Self)
        ensures
            r.in_bounds(),
            r.data() == buf@,
            r.pos() == 0,
    {
        assert(buf@.len() == buf.len());
        BinaryReader { buf, pos: 0 }
    }

    /// How many bytes have been read.
    pub fn position(&self) -> (p: usize)
        ensures
            self.in_bounds(),
            p == self.pos(),
    {
        proof {
            use_type_invariant(self);
            assert(self.buf@.len() == self.buf.len());
        }
        self.pos
    }

    /// How many bytes are left.
    pub fn remaining(&self) -> (n: usize)
        ensures
            self.in_bounds(),
            n == self.data().len() - self.pos(),
            n == self.rest().len(),
    {
        proof {
            use_type_invariant(self);
        }
        self.buf.len() - self.pos
    }

    /// The byte `k` places after the cursor, which stays where it is.
    pub fn peek(&self, k: usize) -> (r: Result<u8, Error>)
        ensures
            self.in_bounds(),
            r is Ok <==> k < self.rest().len(),
            r matches Ok(v) ==> v == self.rest()[k as int],
            r matches Err(e) ==> e == Error::CodeLoadingPrematureEOF,
    {
        proof {
            use_type_invariant(self);
        }
        if self.buf.len() - self.pos <= k {
            return Err(Error::CodeLoadingPrematureEOF);
        }
        Ok(self.buf[self.pos + k])
    }

    /// Reads one byte.
    pub fn read_u8(&mut self) -> (r: Result<u8, Error>)
        ensures
            old(self).in_bounds(),
            final(self).in_bounds(),
            final(self).data() == old(self).data(),
            r is Ok <==> old(self).rest().len() >= 1,
            r matches Ok(v) ==> v == old(self).rest()[0] && final(self).pos() == old(self).pos()
                + 1,
            r matches Err(e) ==> e == Error::CodeLoadingPrematureEOF && final(self).pos() == old(self).pos(),
    {
        proof {
            use_type_invariant(&*self);
        }
        if self.buf.len() - self.pos < 1 {
            return Err(Error::CodeLoadingPrematureEOF);
        }
        let b = self.buf[self.pos];
        self.pos = self.pos + 1;
        Ok(b)
    }

    /// Reads a 16-bit value, most significant byte first.
    pub fn read_u16be(&mut self) -> (r: Result<u16, Error>)
        ensures
            old(self).in_bounds(),
            final(self).in_bounds(),
            final(self).data() == old(self).data(),
            r is Ok <==> old(self).rest().len() >= 2,
            r matches Ok(v) ==> v == be16(old(self).rest(), 0) && final(self).pos() == old(self).pos() + 2,
            r matches Err(e) ==> e == Error::CodeLoadingPrematureEOF && final(self).pos() == old(self).pos(),
    {
        proof {
            use_type_invariant(&*self);
        }
        if self.buf.len() - self.pos < 2 {
            return Err(Error::CodeLoadingPrematureEOF);
        }
        let hi: u16 = self.buf[self.pos] as u16;
        let lo: u16 = self.buf[self.pos + 1] as u16;
        self.pos = self.pos + 2;
        Ok(hi * 0x100 + lo)
    }

    /// Reads a 32-bit value, most significant byte first.
    pub fn read_u32be(&mut self) -> (r: Result<u32, Error>)
        ensures
            old(self).in_bounds(),
            final(self).in_bounds(),
            final(self).data() == old(self).data(),
            r is Ok <==> old(self).rest().len() >= 4,
            r matches Ok(v) ==> v == be32(old(self).rest(), 0) && final(self).pos() == old(self).pos() + 4,
            r matches Err(e) ==> e == Error::CodeLoadingPrematureEOF && final(self).pos() == old(self).pos(),
    {
        proof {
            use_type_invariant(&*self);
        }
        if self.buf.len() - self.pos < 4 {
            return Err(Error::CodeLoadingPrematureEOF);
        }
        let b0: u32 = self.buf[self.pos] as u32;
        let b1: u32 = self.buf[self.pos + 1] as u32;
        let b2: u32 = self.buf[self.pos + 2] as u32;
        let b3: u32 = self.buf[self.pos + 3] as u32;
        self.pos = self.pos + 4;
        Ok(b0 * 0x100_0000 + b1 * 0x1_0000 + b2 * 0x100 + b3)
    }

    /// Reads the next `n` bytes.
    pub fn read_bytes(&mut self, n: usize) -> (r: Result<Vec<u8>, Error>)
        ensures
            old(self).in_bounds(),
            final(self).in_bounds(),
            final(self).data() == old(self).data(),
            r is Ok <==> old(self).rest().len() >= n,
            r matches Ok(v) ==> v@ == old(self).rest().subrange(0, n as int) && final(self).pos() == old(self).pos() + n,
            r matches Err(e) ==> e == Error::CodeLoadingPrematureEOF && final(self).pos() == old(self).pos(),
    {
        proof {
            use_type_invariant(&*self);
        }
        if self.buf.len() - self.pos < n {
            return Err(Error::CodeLoadingPrematureEOF);
        }
        let part = slice_subrange(self.buf, self.pos, self.pos + n);
        let v = slice_to_vec(part);
        assert(v@ =~= old(self).rest().subrange(0, n as int));
        self.pos = self.pos + n;
        Ok(v)
    }

    /// Passes over the next `n` bytes, or over all that are left where
    /// they are fewer.
    pub fn skip(&mut self, n: usize)
        ensures
            old(self).in_bounds(),
            final(self).in_bounds(),
            final(self).data() == old(self).data(),
            old(self).rest().len() >= n ==> final(self).pos() == old(self).pos() + n,
            old(self).rest().len() < n ==> final(self).pos() == old(self).data().len(),
    {
        proof {
            use_type_invariant(&*self);
        }
        if self.buf.len() - self.pos < n {
            self.pos = self.buf.len();
        } else {
            self.pos = self.pos + n;
        }
    }

    /// Reads as many bytes as `sample` holds and compares them with it.
    /// The reader moves only where they agree.
    pub fn ensure_bytes(&mut self, sample: &Bytes) -> (r: Result<(), Error>)
        ensures
            old(self).in_bounds(),
            final(self).in_bounds(),
            final(self).data() == old(self).data(),
            r is Ok <==> bytes_content(*sample).is_prefix_of(old(self).rest()),
            r is Ok ==> final(self).pos() == old(self).pos() + bytes_content(*sample).len(),
            r is Err ==> final(self).pos() == old(self).pos(),
            r matches Err(e) ==> e == (if old(self).rest().len() < bytes_content(*sample).len() {
                Error::CodeLoadingPrematureEOF
            } else {
                Error::CodeLoadingBadSignature
            }),
    {
        proof {
            use_type_invariant(&*self);
        }
        let want = bytes_as_slice(sample);
        let n = want.len();
        if self.buf.len() - self.pos < n {
            return Err(Error::CodeLoadingPrematureEOF);
        }
        let mut i: usize = 0;
        while i < n
            invariant
                i <= n,
                n == want@.len(),
                want@ == bytes_content(*sample),
                self.pos + n <= self.buf@.len() <= usize::MAX,
                self.pos == old(self).pos,
                self.buf == old(self).buf,
                forall|k: int| 0 <= k < i ==> want@[k] == self.buf@[self.pos + k],
            decreases n - i,
        {
            if want[i] != self.buf[self.pos + i] {
                assert(want@[i as int] != old(self).rest().subrange(0, n as int)[i as int]);
                return Err(Error::CodeLoadingBadSignature);
            }
            i = i + 1;
        }
        assert(want@ =~= old(self).rest().subrange(0, n as int));
        self.pos = self.pos + n;
        Ok(())
    }

    /// Reads `n` bytes as text, one character per byte.
    pub fn read_str_latin1(&mut self, n: usize) -> (r: Result<String, Error>)
        ensures
            old(self).in_bounds(),
            final(self).in_bounds(),
            final(self).data() == old(self).data(),
            r is Ok <==> old(self).rest().len() >= n,
            r matches Ok(s) ==> s@ == latin1(old(self).rest().subrange(0, n as int)) && final(self).pos() == old(self).pos() + n,
            r matches Err(e) ==> e == Error::CodeLoadingPrematureEOF && final(self).pos() == old(self).pos(),
    {
        proof {
            use_type_invariant(&*self);
        }
        if self.buf.len() - self.pos < n {
            return Err(Error::CodeLoadingPrematureEOF);
        }
        let mut s = String::new();
        let mut i: usize = 0;
        while i < n
            invariant
                i <= n,
                self.pos + n <= self.buf@.len() <= usize::MAX,
                self.pos == old(self).pos,
                self.buf == old(self).buf,
                s@ == latin1(old(self).rest().subrange(0, i as int)),
            decreases n - i,
        {
            let b = self.buf[self.pos + i];
            string_push(&mut s, b as char);
            assert(s@ =~= latin1(old(self).rest().subrange(0, i + 1)));
            i = i + 1;
        }
        assert(s@ =~= latin1(old(self).rest().subrange(0, n as int)));
        self.pos = self.pos + n;
        Ok(s)
    }

    /// Reads `n` bytes as UTF-8 text. The reader moves only where the
    /// bytes are there and decode.
    pub fn read_str_utf8(&mut self, n: usize) -> (r: Result<String, Error>)
        ensures
            old(self).in_bounds(),
            final(self).in_bounds(),
            final(self).data() == old(self).data(),
            r is Ok <==> old(self).rest().len() >= n && valid_utf8(
                old(self).rest().subrange(0, n as int),
            ),
            r matches Ok(s) ==> s@ == decode_utf8(old(self).rest().subrange(0, n as int))
                && final(self).pos() == old(self).pos() + n,
            r matches Err(e) ==> final(self).pos() == old(self).pos() && e == (if old(self).rest().len() < n {
                Error::CodeLoadingPrematureEOF
            } else {
                Error::CodeLoadingBadString
            }),
    {
        proof {
            use_type_invariant(&*self);
        }
        if self.buf.len() - self.pos < n {
            return Err(Error::CodeLoadingPrematureEOF);
        }
        let part = slice_subrange(self.buf, self.pos, self.pos + n);
        let raw = slice_to_vec(part);
        assert(raw@ =~= old(self).rest().subrange(0, n as int));
        match string_from_utf8(raw) {
            Some(s) => {
                self.pos = self.pos + n;
                Ok(s)
            },
            None => Err(Error::CodeLoadingBadString),
        }
    }
}

} // verus!
