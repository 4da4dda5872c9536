//! The compact encoding of instruction operands.
//!
//! An operand starts with a byte whose low three bits give its kind. The
//! value follows in one of three forms: four bits in the same byte; eleven
//! bits, three in the first byte and eight in the next; or two to eight
//! bytes, most significant first, whose count the first byte gives. In the
//! last form an integer is in two's complement. Extended operands (lists,
//! floats, literals by reference) and values longer than eight bytes are not
//! decoded here.

use crate::reader::BinaryReader;
use crate::rterror::Error;
use vstd::prelude::*;

verus! {

/// One decoded operand.
#[derive(Clone, Copy, Debug, PartialEq, Eq, Structural)]
pub enum CompactTerm {
    Literal(u64),
    Integer(i64),
    Atom(u64),
    XReg(u64),
    YReg(u64),
    Label(u64),
    Character(u64),
}

/// 256 to the power `n`, for the byte counts that occur.
pub open spec fn radix_pow(n: int) -> int {
    if n == 1 {
        0x100
    } else if n == 2 {
        0x1_0000
    } else if n == 3 {
        0x100_0000
    } else if n == 4 {
        0x1_0000_0000
    } else if n == 5 {
        0x100_0000_0000
    } else if n == 6 {
        0x1_0000_0000_0000
    } else if n == 7 {
        0x100_0000_0000_0000
    } else if n == 8 {
        0x1_0000_0000_0000_0000
    } else {
        1
    }
}

/// The number that bytes spell, most significant first.
pub open spec fn big_endian(s: Seq<u8>) -> int
    decreases s.len(),
{
    if s.len() == 0 {
        0
    } else {
        big_endian(s.drop_last()) * 0x100 + s.last()
    }
}

/// What `n` bytes spell as a two's complement number.
pub open spec fn twos_complement(v: int, n: int) -> int {
    if 2 * v >= radix_pow(n) {
        v - radix_pow(n)
    } else {
        v
    }
}

/// The operand of kind `tag` with the value `v`. An integer takes `v` as it
/// is; every other kind takes it as an unsigned number.
pub open spec fn operand(tag: int, v: int) -> CompactTerm {
    if tag == 0 {
        CompactTerm::Literal(v as u64)
    } else if tag == 1 {
        CompactTerm::Integer(v as i64)
    } else if tag == 2 {
        CompactTerm::Atom(v as u64)
    } else if tag == 3 {
        CompactTerm::XReg(v as u64)
    } else if tag == 4 {
        CompactTerm::YReg(v as u64)
    } else if tag == 5 {
        CompactTerm::Label(v as u64)
    } else {
        CompactTerm::Character(v as u64)
    }
}

/// The operand at the start of `s` and the number of bytes it takes, or
/// why there is none.
pub open spec fn decode(s: Seq<u8>) -> Result<(CompactTerm, int), Error> {
    if s.len() < 1 {
        Err(Error::CodeLoadingPrematureEOF)
    } else {
        let b = s[0] as int;
        let tag = b % 8;
        if tag == 7 {
            Err(Error::CodeLoadingCompactTerm)
        } else if (b / 8) % 2 == 0 {
            Ok((operand(tag, b / 16), 1))
        } else if (b / 16) % 2 == 0 {
            if s.len() < 2 {
                Err(Error::CodeLoadingPrematureEOF)
            } else {
                Ok((operand(tag, (b / 32) * 0x100 + s[1]), 2))
            }
        } else if b / 32 == 7 {
            Err(Error::CodeLoadingCompactTerm)
        } else {
            let n = b / 32 + 2;
            if s.len() < 1 + n {
                Err(Error::CodeLoadingPrematureEOF)
            } else {
                let v = big_endian(s.subrange(1, 1 + n));
                if tag == 1 {
                    Ok((operand(tag, twos_complement(v, n)), 1 + n))
                } else {
                    Ok((operand(tag, v), 1 + n))
                }
            }
        }
    }
}

/// Bytes spell a number below 256 to the power of their count.
proof fn lemma_big_endian_bound(s: Seq<u8>)
    requires
        1 <= s.len() <= 8,
    ensures
        0 <= big_endian(s) < radix_pow(s.len() as int),
    decreases s.len(),
{
    if s.len() == 1 {
        assert(big_endian(s.drop_last()) == 0);
    } else {
        lemma_big_endian_bound(s.drop_last());
    }
}

fn make_operand(tag: u8, v: u64) -> (t: CompactTerm)
    requires
        tag < 7,
        tag == 1 ==> v <= i64::MAX,
    ensures
        t == operand(tag as int, v as int),
{
    if tag == 0 {
        CompactTerm::Literal(v)
    } else if tag == 1 {
        CompactTerm::Integer(v as i64)
    } else if tag == 2 {
        CompactTerm::Atom(v)
    } else if tag == 3 {
        CompactTerm::XReg(v)
    } else if tag == 4 {
        CompactTerm::YReg(v)
    } else if tag == 5 {
        CompactTerm::Label(v)
    } else {
        CompactTerm::Character(v)
    }
}

/// Reads `n` bytes as one number, most significant byte first.
fn read_big_endian(r: &mut BinaryReader, n: usize) -> (v: u64)
    requires
        1 <= n <= 8,
        old(r).in_bounds(),
        old(r).rest().len() >= n,
    ensures
        final(r).in_bounds(),
        final(r).data() == old(r).data(),
        final(r).pos() == old(r).pos() + n,
        v == big_endian(old(r).rest().subrange(0, n as int)),
{
    let ghost bytes = r.rest().subrange(0, n as int);
    let mut acc: u64 = 0;
    let mut i: usize = 0;
    while i < n
        invariant
            i <= n <= 8,
            old(r).in_bounds(),
            r.in_bounds(),
            r.data() == old(r).data(),
            r.pos() == old(r).pos() + i,
            old(r).rest().len() >= n,
            bytes == old(r).rest().subrange(0, n as int),
            acc == big_endian(bytes.subrange(0, i as int)),
            i >= 1 ==> acc < radix_pow(i as int),
            i == 0 ==> acc == 0,
        decreases n - i,
    {
        let b = match r.read_u8() {
            Ok(b) => b,
            Err(_) => 0,
        };
        proof {
            let next = bytes.subrange(0, i + 1);
            assert(next.drop_last() =~= bytes.subrange(0, i as int));
            assert(next.last() == b);
        }
        acc = acc * 0x100 + b as u64;
        i = i + 1;
    }
    assert(bytes.subrange(0, n as int) =~= bytes);
    acc
}

/// Reads one operand. On an error the reader stays where it was.
pub fn read(r: &mut BinaryReader) -> (res: Result<CompactTerm, Error>)
    ensures
        old(r).in_bounds(),
        final(r).in_bounds(),
        final(r).data() == old(r).data(),
        match decode(old(r).rest()) {
            Ok((t, n)) => res == Ok::<CompactTerm, Error>(t) && final(r).pos() == old(r).pos() + n,
            Err(e) => res == Err::<CompactTerm, Error>(e) && final(r).pos() == old(r).pos(),
        },
{
    let b = match r.peek(0) {
        Ok(b) => b,
        Err(e) => {
            return Err(e);
        },
    };
    let tag = b % 8;
    if tag == 7 {
        return Err(Error::CodeLoadingCompactTerm);
    }
    if (b / 8) % 2 == 0 {
        r.skip(1);
        return Ok(make_operand(tag, (b / 16) as u64));
    }
    if (b / 16) % 2 == 0 {
        let low = match r.peek(1) {
            Ok(low) => low,
            Err(e) => {
                return Err(e);
            },
        };
        r.skip(2);
        return Ok(make_operand(tag, (b / 32) as u64 * 0x100 + low as u64));
    }
    if b / 32 == 7 {
        return Err(Error::CodeLoadingCompactTerm);
    }
    let n: usize = (b / 32) as usize + 2;
    if r.remaining() < 1 + n {
        return Err(Error::CodeLoadingPrematureEOF);
    }
    r.skip(1);
    let ghost tail = r.rest();
    assert(tail =~= old(r).rest().subrange(1, old(r).rest().len() as int));
    let v = read_big_endian(r, n);
    proof {
        assert(tail.subrange(0, n as int) =~= old(r).rest().subrange(1, 1 + n));
        lemma_big_endian_bound(old(r).rest().subrange(1, 1 + n));
    }
    if tag != 1 {
        return Ok(make_operand(tag, v));
    }
    if n == 8 {
        if v >= 0x8000_0000_0000_0000 {
            let low: i64 = (v - 0x8000_0000_0000_0000) as i64;
            Ok(CompactTerm::Integer(low + i64::MIN))
        } else {
            Ok(CompactTerm::Integer(v as i64))
        }
    } else {
        let cap: u64 = if n == 2 {
            0x1_0000
        } else if n == 3 {
            0x100_0000
        } else if n == 4 {
            0x1_0000_0000
        } else if n == 5 {
            0x100_0000_0000
        } else if n == 6 {
            0x1_0000_0000_0000
        } else {
            0x100_0000_0000_0000
        };
        if v >= cap / 2 {
            Ok(CompactTerm::Integer(v as i64 - cap as i64))
        } else {
            Ok(CompactTerm::Integer(v as i64))
        }
    }
}

} // verus!
