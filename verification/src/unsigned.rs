//! The size varint used by the Lua 5.4 dump format.
//!
//! Unlike LEB128, this encoding stores seven-bit groups most significant
//! first, and it is the *last* byte whose high bit is set.  The decoder
//! rejects encodings whose value would overflow a `usize`.

use vstd::prelude::*;
use crate::error::CodecError;
use crate::reader::read_u8;
use crate::reader::refines;
use crate::reader::spec_store;
use crate::reader::write_u8;

verus! {

/// What the Lua 5.4 size decoder yields from position `pos` onward, having
/// already accumulated `acc` from the more significant groups.  Entered at
/// `acc == 0`.
pub open spec fn spec_read_unsigned_from(b: Seq<u8>, pos: int, acc: usize) -> Result<
    (usize, int),
    CodecError,
>
    decreases b.len() - pos,
{
    if pos < 0 || pos >= b.len() {
        Err(CodecError::Truncated)
    } else if acc >= (usize::MAX >> 7) {
        Err(CodecError::InvalidTag)
    } else {
        let byte = b[pos];
        let acc2 = ((acc << 7) | ((byte & 0x7f) as usize)) as usize;
        if byte & 0x80 != 0 {
            Ok((acc2, pos + 1))
        } else {
            spec_read_unsigned_from(b, pos + 1, acc2)
        }
    }
}

/// What reading a Lua 5.4 size value at `pos` yields.
pub open spec fn spec_read_unsigned(b: Seq<u8>, pos: int) -> Result<(usize, int), CodecError> {
    spec_read_unsigned_from(b, pos, 0)
}

/// A successful size read lands strictly past where it started and inside
/// the buffer.
pub proof fn lemma_read_unsigned_bounds(b: Seq<u8>, pos: int, acc: usize)
    ensures
        spec_read_unsigned_from(b, pos, acc) matches Ok((v, n)) ==> pos < n <= b.len(),
    decreases b.len() - pos,
{
    if 0 <= pos < b.len() {
        lemma_read_unsigned_bounds(b, pos + 1, ((acc << 7) | ((b[pos] & 0x7f) as usize)) as usize);
    }
}

/// The groups of `x` above the least significant one, most significant
/// first, each with a clear high bit.
pub open spec fn spec_unsigned_prefix(x: usize) -> Seq<u8>
    decreases x,
    via spec_unsigned_prefix_dec
{
    if x == 0 {
        Seq::empty()
    } else {
        spec_unsigned_prefix(x >> 7) + seq![(x & 0x7f) as u8]
    }
}

#[via_fn]
proof fn spec_unsigned_prefix_dec(x: usize) {
    assert(x != 0 ==> x >> 7 < x) by (bit_vector);
}

/// The encoding of `x`: its leading groups, then the least significant
/// group with the high bit set to mark the end.
pub open spec fn spec_unsigned_bytes(x: usize) -> Seq<u8> {
    spec_unsigned_prefix(x >> 7) + seq![((x & 0x7f) | 0x80) as u8]
}

/// An unsigned size value, as Lua 5.4 stores string lengths, line numbers
/// and counts on the wire.
#[derive(Debug, Copy, Clone, PartialEq, Eq, Structural)]
pub struct LuaUnsigned {
    pub value: usize,
}

impl LuaUnsigned {
    /// Wraps a value to be written later.
    pub fn new(value: usize) -> (r: Self)
        ensures
            r.value == value,
    {
        Self { value }
    }

    /// Decodes a size value at `offset`, returning it together with the
    /// position of the first byte after it.
    pub fn decode(src: &[u8], offset: usize) -> (r: Result<(LuaUnsigned, usize), CodecError>)
        ensures
            match r {
                Ok((v, n)) => spec_read_unsigned(src@, offset as int) == Ok::<
                    (usize, int),
                    CodecError,
                >((v.value, n as int)) && offset < n <= src@.len(),
                Err(e) => spec_read_unsigned(src@, offset as int) == Err::<
                    (usize, int),
                    CodecError,
                >(e),
            },
    {
        match read_unsigned_from(src, offset, 0) {
            Ok((value, n)) => Ok((LuaUnsigned { value }, n)),
            Err(e) => Err(e),
        }
    }

    /// Writes this value at `offset` in the Lua 5.4 size encoding,
    /// advancing the offset past the written bytes.  Fails, leaving the
    /// buffer untouched, when the encoding does not fit.
    pub fn write(self, dst: &mut [u8], offset: &mut usize) -> (r: Result<(), CodecError>)
        ensures
            r is Ok <==> *old(offset) + spec_unsigned_bytes(self.value).len() <= old(dst)@.len(),
            r is Ok ==> {
                &&& *final(offset) == *old(offset) + spec_unsigned_bytes(self.value).len()
                &&& final(dst)@ == spec_store(
                    old(dst)@,
                    *old(offset) as int,
                    spec_unsigned_bytes(self.value),
                )
            },
            r is Err ==> {
                &&& r == Err::<(), CodecError>(CodecError::Truncated)
                &&& *final(offset) == *old(offset)
                &&& final(dst)@ == old(dst)@
            },
    {
        let n = unsigned_size(self.value);
        if *offset <= dst.len() && dst.len() - *offset >= n {
            let ghost pre = dst@;
            let ghost start = *offset as int;
            emit_unsigned_prefix(dst, offset, self.value >> 7);
            let v: usize = self.value;
            let r = write_u8(dst, offset, ((v as u8) & 0x7f) | 0x80);
            proof {
                assert(((v as u8) & 0x7f) | 0x80 == ((v & 0x7f) | 0x80) as u8) by (bit_vector);
                assert(dst@ =~= spec_store(pre, start, spec_unsigned_bytes(v)));
            }
            Ok(())
        } else {
            Err(CodecError::Truncated)
        }
    }
}

/// A value's leading groups never outnumber the value itself, which keeps
/// the size computations free of overflow.
proof fn lemma_unsigned_prefix_len_le(x: usize)
    ensures
        spec_unsigned_prefix(x).len() <= x,
    decreases x,
{
    if x != 0 {
        assert(x != 0 ==> x >> 7 < x) by (bit_vector);
        lemma_unsigned_prefix_len_le(x >> 7);
    }
}

/// The number of leading groups of `x`.
fn unsigned_prefix_size(x: usize) -> (r: usize)
    ensures
        r == spec_unsigned_prefix(x).len(),
    decreases x,
{
    if x == 0 {
        0
    } else {
        proof {
            assert(x != 0 ==> x >> 7 < x) by (bit_vector);
            lemma_unsigned_prefix_len_le(x >> 7);
        }
        1 + unsigned_prefix_size(x >> 7)
    }
}

/// The number of bytes the encoding of `value` takes.
pub fn unsigned_size(value: usize) -> (r: usize)
    ensures
        r == spec_unsigned_bytes(value).len(),
        1 <= r,
{
    proof {
        assert((value != 0 ==> value >> 7 < value) && (value == 0 ==> value >> 7 == 0))
            by (bit_vector);
        lemma_unsigned_prefix_len_le(value >> 7);
    }
    1 + unsigned_prefix_size(value >> 7)
}

/// Emits the leading groups of a value, most significant first; the caller
/// has checked that they fit.
fn emit_unsigned_prefix(dst: &mut [u8], offset: &mut usize, x: usize)
    requires
        *old(offset) + spec_unsigned_prefix(x).len() <= old(dst)@.len(),
    ensures
        *final(offset) == *old(offset) + spec_unsigned_prefix(x).len(),
        final(dst)@ == spec_store(old(dst)@, *old(offset) as int, spec_unsigned_prefix(x)),
    decreases x,
{
    if x == 0 {
        proof {
            assert(dst@ =~= spec_store(old(dst)@, *old(offset) as int, spec_unsigned_prefix(0)));
        }
    } else {
        let ghost pre = dst@;
        let ghost start = *offset as int;
        proof {
            assert((x != 0 ==> x >> 7 < x) && ((x as u8) & 0x7f == (x & 0x7f) as u8))
                by (bit_vector);
        }
        emit_unsigned_prefix(dst, offset, x >> 7);
        let r = write_u8(dst, offset, (x as u8) & 0x7f);
        proof {
            assert(dst@ =~= spec_store(pre, start, spec_unsigned_prefix(x)));
        }
    }
}

/// Reads groups one at a time, shifting the accumulator up by seven bits
/// for each; mirrors `spec_read_unsigned_from` step for step.
fn read_unsigned_from(src: &[u8], offset: usize, acc: usize) -> (r: Result<
    (usize, usize),
    CodecError,
>)
    ensures
        refines(r, spec_read_unsigned_from(src@, offset as int, acc)),
        r matches Ok((v, n)) ==> offset < n <= src@.len(),
    decreases src@.len() - offset,
{
    match read_u8(src, offset) {
        Ok((byte, pos2)) => {
            if acc >= (usize::MAX >> 7) {
                Err(CodecError::InvalidTag)
            } else {
                let acc2: usize = (acc << 7) | ((byte & 0x7f) as usize);
                if byte & 0x80 != 0 {
                    Ok((acc2, pos2))
                } else {
                    read_unsigned_from(src, pos2, acc2)
                }
            }
        },
        Err(e) => Err(e),
    }
}

} // verus!
