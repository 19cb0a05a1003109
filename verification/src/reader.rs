//! Byte-level primitives: fixed-width integer reads and writes over an
//! in-memory buffer and an integer cursor.
//!
//! Every reader has a specification-level twin that maps a byte sequence and
//! a position to either the decoded value with the position after it, or a
//! `CodecError`.  The executable readers are proved to return exactly what
//! their twins say, which is how the higher codecs inherit exact contracts.

use vstd::prelude::*;
use vstd::slice::slice_index_get;
use crate::error::CodecError;
use crate::Endianness;

verus! {

/// Relates an executable decode result to its specification twin: both sides
/// agree on success, value, next position and error kind.
pub open spec fn refines<T>(
    r: Result<(T, usize), CodecError>,
    s: Result<(T, int), CodecError>,
) -> bool {
    match r {
        Ok((v, n)) => s == Ok::<(T, int), CodecError>((v, n as int)),
        Err(e) => s == Err::<(T, int), CodecError>(e),
    }
}

/// The unsigned value of four bytes in the given byte order.
pub open spec fn spec_u32_of(b0: u8, b1: u8, b2: u8, b3: u8, e: Endianness) -> u32 {
    match e {
        Endianness::Little => (b0 as u32) | (b1 as u32) << 8 | (b2 as u32) << 16 | (b3 as u32)
            << 24,
        Endianness::Big => (b3 as u32) | (b2 as u32) << 8 | (b1 as u32) << 16 | (b0 as u32) << 24,
    }
}

/// The four bytes of an unsigned 32-bit value in the given byte order.
pub open spec fn spec_u32_bytes(x: u32, e: Endianness) -> Seq<u8> {
    match e {
        Endianness::Little => seq![
            (x & 0xff) as u8,
            ((x >> 8) & 0xff) as u8,
            ((x >> 16) & 0xff) as u8,
            ((x >> 24) & 0xff) as u8,
        ],
        Endianness::Big => seq![
            ((x >> 24) & 0xff) as u8,
            ((x >> 16) & 0xff) as u8,
            ((x >> 8) & 0xff) as u8,
            (x & 0xff) as u8,
        ],
    }
}

/// The unsigned value of eight bytes in little-endian order.
pub open spec fn spec_u64_of_le(
    b0: u8,
    b1: u8,
    b2: u8,
    b3: u8,
    b4: u8,
    b5: u8,
    b6: u8,
    b7: u8,
) -> u64 {
    (b0 as u64) | (b1 as u64) << 8 | (b2 as u64) << 16 | (b3 as u64) << 24 | (b4 as u64) << 32 | (
    b5 as u64) << 40 | (b6 as u64) << 48 | (b7 as u64) << 56
}

/// The unsigned value of eight bytes in the given byte order.
pub open spec fn spec_u64_of(
    b0: u8,
    b1: u8,
    b2: u8,
    b3: u8,
    b4: u8,
    b5: u8,
    b6: u8,
    b7: u8,
    e: Endianness,
) -> u64 {
    match e {
        Endianness::Little => spec_u64_of_le(b0, b1, b2, b3, b4, b5, b6, b7),
        Endianness::Big => spec_u64_of_le(b7, b6, b5, b4, b3, b2, b1, b0),
    }
}

/// The eight bytes of an unsigned 64-bit value in little-endian order.
pub open spec fn spec_u64_bytes_le(x: u64) -> Seq<u8> {
    seq![
        (x & 0xff) as u8,
        ((x >> 8) & 0xff) as u8,
        ((x >> 16) & 0xff) as u8,
        ((x >> 24) & 0xff) as u8,
        ((x >> 32) & 0xff) as u8,
        ((x >> 40) & 0xff) as u8,
        ((x >> 48) & 0xff) as u8,
        ((x >> 56) & 0xff) as u8,
    ]
}

/// The eight bytes of an unsigned 64-bit value in the given byte order.
pub open spec fn spec_u64_bytes(x: u64, e: Endianness) -> Seq<u8> {
    match e {
        Endianness::Little => spec_u64_bytes_le(x),
        Endianness::Big => spec_u64_bytes_le(x).reverse(),
    }
}

/// The signed 32-bit value carried by the same bits as an unsigned one.
pub open spec fn spec_i32_of_u32(x: u32) -> i32 {
    if x < 0x8000_0000 {
        x as i32
    } else {
        (x - 0x1_0000_0000) as i32
    }
}

/// The unsigned 32-bit value carried by the same bits as a signed one.
pub open spec fn spec_u32_of_i32(y: i32) -> u32 {
    if y >= 0 {
        y as u32
    } else {
        (y + 0x1_0000_0000) as u32
    }
}

/// The signed 64-bit value carried by the same bits as an unsigned one.
pub open spec fn spec_i64_of_u64(x: u64) -> i64 {
    if x < 0x8000_0000_0000_0000 {
        x as i64
    } else {
        (x - 0x1_0000_0000_0000_0000) as i64
    }
}

/// The unsigned 64-bit value carried by the same bits as a signed one.
pub open spec fn spec_u64_of_i64(y: i64) -> u64 {
    if y >= 0 {
        y as u64
    } else {
        (y + 0x1_0000_0000_0000_0000) as u64
    }
}

/// What reading one byte at `pos` yields.
pub open spec fn spec_read_u8(b: Seq<u8>, pos: int) -> Result<(u8, int), CodecError> {
    if pos + 1 <= b.len() {
        Ok((b[pos], pos + 1))
    } else {
        Err(CodecError::Truncated)
    }
}

/// What reading a 32-bit scalar at `pos` yields.
pub open spec fn spec_read_u32(b: Seq<u8>, pos: int, e: Endianness) -> Result<
    (u32, int),
    CodecError,
> {
    if pos + 4 <= b.len() {
        Ok((spec_u32_of(b[pos], b[pos + 1], b[pos + 2], b[pos + 3], e), pos + 4))
    } else {
        Err(CodecError::Truncated)
    }
}

/// What reading a 64-bit scalar at `pos` yields.
pub open spec fn spec_read_u64(b: Seq<u8>, pos: int, e: Endianness) -> Result<
    (u64, int),
    CodecError,
> {
    if pos + 8 <= b.len() {
        Ok(
            (
                spec_u64_of(
                    b[pos],
                    b[pos + 1],
                    b[pos + 2],
                    b[pos + 3],
                    b[pos + 4],
                    b[pos + 5],
                    b[pos + 6],
                    b[pos + 7],
                    e,
                ),
                pos + 8,
            ),
        )
    } else {
        Err(CodecError::Truncated)
    }
}

/// What reading a signed 32-bit scalar at `pos` yields.
pub open spec fn spec_read_i32(b: Seq<u8>, pos: int, e: Endianness) -> Result<
    (i32, int),
    CodecError,
> {
    match spec_read_u32(b, pos, e) {
        Ok((x, n)) => Ok((spec_i32_of_u32(x), n)),
        Err(err) => Err(err),
    }
}

/// What reading a signed 64-bit scalar at `pos` yields.
pub open spec fn spec_read_i64(b: Seq<u8>, pos: int, e: Endianness) -> Result<
    (i64, int),
    CodecError,
> {
    match spec_read_u64(b, pos, e) {
        Ok((x, n)) => Ok((spec_i64_of_u64(x), n)),
        Err(err) => Err(err),
    }
}

/// Reads one byte.
pub fn read_u8(src: &[u8], offset: usize) -> (r: Result<(u8, usize), CodecError>)
    ensures
        refines(r, spec_read_u8(src@, offset as int)),
{
    if offset < src.len() {
        Ok((*slice_index_get(src, offset), offset + 1))
    } else {
        Err(CodecError::Truncated)
    }
}

/// Reads a 32-bit scalar in the given byte order.
pub fn read_u32(src: &[u8], offset: usize, e: Endianness) -> (r: Result<(u32, usize), CodecError>)
    ensures
        refines(r, spec_read_u32(src@, offset as int, e)),
{
    if offset <= src.len() && src.len() - offset >= 4 {
        let b0 = *slice_index_get(src, offset);
        let b1 = *slice_index_get(src, offset + 1);
        let b2 = *slice_index_get(src, offset + 2);
        let b3 = *slice_index_get(src, offset + 3);
        let x: u32 = match e {
            Endianness::Little => (b0 as u32) | (b1 as u32) << 8 | (b2 as u32) << 16 | (b3 as u32)
                << 24,
            Endianness::Big => (b3 as u32) | (b2 as u32) << 8 | (b1 as u32) << 16 | (b0 as u32)
                << 24,
        };
        Ok((x, offset + 4))
    } else {
        Err(CodecError::Truncated)
    }
}

/// Reads a 64-bit scalar in the given byte order.
pub fn read_u64(src: &[u8], offset: usize, e: Endianness) -> (r: Result<(u64, usize), CodecError>)
    ensures
        refines(r, spec_read_u64(src@, offset as int, e)),
{
    if offset <= src.len() && src.len() - offset >= 8 {
        let b0 = *slice_index_get(src, offset);
        let b1 = *slice_index_get(src, offset + 1);
        let b2 = *slice_index_get(src, offset + 2);
        let b3 = *slice_index_get(src, offset + 3);
        let b4 = *slice_index_get(src, offset + 4);
        let b5 = *slice_index_get(src, offset + 5);
        let b6 = *slice_index_get(src, offset + 6);
        let b7 = *slice_index_get(src, offset + 7);
        let x: u64 = match e {
            Endianness::Little => le64_parts(b0, b1, b2, b3, b4, b5, b6, b7),
            Endianness::Big => le64_parts(b7, b6, b5, b4, b3, b2, b1, b0),
        };
        Ok((x, offset + 8))
    } else {
        Err(CodecError::Truncated)
    }
}

/// Assembles eight bytes, least significant first, into an unsigned value.
fn le64_parts(b0: u8, b1: u8, b2: u8, b3: u8, b4: u8, b5: u8, b6: u8, b7: u8) -> (x: u64)
    ensures
        x == spec_u64_of_le(b0, b1, b2, b3, b4, b5, b6, b7),
{
    (b0 as u64) | (b1 as u64) << 8 | (b2 as u64) << 16 | (b3 as u64) << 24 | (b4 as u64) << 32 | (
    b5 as u64) << 40 | (b6 as u64) << 48 | (b7 as u64) << 56
}

/// Reads a signed 32-bit scalar in the given byte order.
pub fn read_i32(src: &[u8], offset: usize, e: Endianness) -> (r: Result<(i32, usize), CodecError>)
    ensures
        refines(r, spec_read_i32(src@, offset as int, e)),
{
    match read_u32(src, offset, e) {
        Ok((x, n)) => {
            let y: i32 = if x < 0x8000_0000 {
                x as i32
            } else {
                ((x as i64) - 0x1_0000_0000i64) as i32
            };
            Ok((y, n))
        },
        Err(err) => Err(err),
    }
}

/// Reads a signed 64-bit scalar in the given byte order.
pub fn read_i64(src: &[u8], offset: usize, e: Endianness) -> (r: Result<(i64, usize), CodecError>)
    ensures
        refines(r, spec_read_i64(src@, offset as int, e)),
{
    match read_u64(src, offset, e) {
        Ok((x, n)) => {
            let y: i64 = if x < 0x8000_0000_0000_0000 {
                x as i64
            } else {
                let low: u64 = x - 0x8000_0000_0000_0000;
                (low as i64) + (-0x8000_0000_0000_0000i64)
            };
            Ok((y, n))
        },
        Err(err) => Err(err),
    }
}

/// The buffer with `bytes` written over the range starting at `pos`.
pub open spec fn spec_store(b: Seq<u8>, pos: int, bytes: Seq<u8>) -> Seq<u8>
    recommends
        0 <= pos,
        pos + bytes.len() <= b.len(),
{
    b.subrange(0, pos) + bytes + b.subrange(pos + bytes.len(), b.len() as int)
}

/// Two consecutive stores amount to one store of the concatenation.
pub proof fn lemma_store_append(b: Seq<u8>, pos: int, s1: Seq<u8>, s2: Seq<u8>)
    requires
        0 <= pos,
        pos + s1.len() + s2.len() <= b.len(),
    ensures
        spec_store(spec_store(b, pos, s1), pos + s1.len(), s2) == spec_store(b, pos, s1 + s2),
{
    assert(spec_store(spec_store(b, pos, s1), pos + s1.len(), s2) =~= spec_store(b, pos, s1 + s2));
}

/// Writes one byte at the cursor and advances it.
pub fn write_u8(dst: &mut [u8], offset: &mut usize, x: u8) -> (r: Result<(), CodecError>)
    ensures
        r is Ok <==> *old(offset) + 1 <= old(dst)@.len(),
        r is Ok ==> {
            &&& *final(offset) == *old(offset) + 1
            &&& final(dst)@ == spec_store(old(dst)@, *old(offset) as int, seq![x])
        },
        r is Err ==> {
            &&& r == Err::<(), CodecError>(CodecError::Truncated)
            &&& *final(offset) == *old(offset)
            &&& final(dst)@ == old(dst)@
        },
{
    if *offset < dst.len() {
        let i: usize = *offset;
        dst[i] = x;
        *offset = i + 1;
        proof {
            assert(dst@ =~= spec_store(old(dst)@, *old(offset) as int, seq![x]));
        }
        Ok(())
    } else {
        Err(CodecError::Truncated)
    }
}

/// Writes a slice of bytes at the cursor and advances it.
pub fn write_bytes(dst: &mut [u8], offset: &mut usize, bytes: &[u8]) -> (r: Result<(), CodecError>)
    ensures
        r is Ok <==> *old(offset) + bytes@.len() <= old(dst)@.len(),
        r is Ok ==> {
            &&& *final(offset) == *old(offset) + bytes@.len()
            &&& final(dst)@ == spec_store(old(dst)@, *old(offset) as int, bytes@)
        },
        r is Err ==> {
            &&& r == Err::<(), CodecError>(CodecError::Truncated)
            &&& *final(offset) == *old(offset)
            &&& final(dst)@ == old(dst)@
        },
{
    if *offset <= dst.len() && dst.len() - *offset >= bytes.len() {
        let start: usize = *offset;
        let dlen: usize = dst.len();
        let mut i: usize = 0;
        while i < bytes.len()
            invariant
                start + bytes@.len() <= dlen,
                dlen == dst@.len(),
                0 <= i <= bytes@.len(),
                dst@.len() == old(dst)@.len(),
                dst@ =~= old(dst)@.subrange(0, start as int) + bytes@.subrange(0, i as int) + old(
                    dst,
                )@.subrange(start + i, old(dst)@.len() as int),
            decreases bytes@.len() - i,
        {
            let b = *slice_index_get(bytes, i);
            dst[start + i] = b;
            i = i + 1;
        }
        *offset = start + bytes.len();
        proof {
            assert(bytes@.subrange(0, bytes@.len() as int) =~= bytes@);
            assert(dst@ =~= spec_store(old(dst)@, start as int, bytes@));
        }
        Ok(())
    } else {
        Err(CodecError::Truncated)
    }
}

/// Writes a 32-bit scalar in the given byte order.
pub fn write_u32(dst: &mut [u8], offset: &mut usize, x: u32, e: Endianness) -> (r: Result<
    (),
    CodecError,
>)
    ensures
        r is Ok <==> *old(offset) + 4 <= old(dst)@.len(),
        r is Ok ==> {
            &&& *final(offset) == *old(offset) + 4
            &&& final(dst)@ == spec_store(old(dst)@, *old(offset) as int, spec_u32_bytes(x, e))
        },
        r is Err ==> {
            &&& r == Err::<(), CodecError>(CodecError::Truncated)
            &&& *final(offset) == *old(offset)
            &&& final(dst)@ == old(dst)@
        },
{
    let c0 = (x & 0xff) as u8;
    let c1 = ((x >> 8) & 0xff) as u8;
    let c2 = ((x >> 16) & 0xff) as u8;
    let c3 = ((x >> 24) & 0xff) as u8;
    let buf: [u8; 4] = match e {
        Endianness::Little => [c0, c1, c2, c3],
        Endianness::Big => [c3, c2, c1, c0],
    };
    proof {
        assert(buf@ =~= spec_u32_bytes(x, e));
    }
    write_bytes(dst, offset, buf.as_slice())
}

/// Writes a 64-bit scalar in the given byte order.
pub fn write_u64(dst: &mut [u8], offset: &mut usize, x: u64, e: Endianness) -> (r: Result<
    (),
    CodecError,
>)
    ensures
        r is Ok <==> *old(offset) + 8 <= old(dst)@.len(),
        r is Ok ==> {
            &&& *final(offset) == *old(offset) + 8
            &&& final(dst)@ == spec_store(old(dst)@, *old(offset) as int, spec_u64_bytes(x, e))
        },
        r is Err ==> {
            &&& r == Err::<(), CodecError>(CodecError::Truncated)
            &&& *final(offset) == *old(offset)
            &&& final(dst)@ == old(dst)@
        },
{
    let c0 = (x & 0xff) as u8;
    let c1 = ((x >> 8) & 0xff) as u8;
    let c2 = ((x >> 16) & 0xff) as u8;
    let c3 = ((x >> 24) & 0xff) as u8;
    let c4 = ((x >> 32) & 0xff) as u8;
    let c5 = ((x >> 40) & 0xff) as u8;
    let c6 = ((x >> 48) & 0xff) as u8;
    let c7 = ((x >> 56) & 0xff) as u8;
    let buf: [u8; 8] = match e {
        Endianness::Little => [c0, c1, c2, c3, c4, c5, c6, c7],
        Endianness::Big => [c7, c6, c5, c4, c3, c2, c1, c0],
    };
    proof {
        assert(buf@ =~= spec_u64_bytes(x, e));
    }
    write_bytes(dst, offset, buf.as_slice())
}

/// Writes a signed 32-bit scalar in the given byte order.
pub fn write_i32(dst: &mut [u8], offset: &mut usize, y: i32, e: Endianness) -> (r: Result<
    (),
    CodecError,
>)
    ensures
        r is Ok <==> *old(offset) + 4 <= old(dst)@.len(),
        r is Ok ==> {
            &&& *final(offset) == *old(offset) + 4
            &&& final(dst)@ == spec_store(
                old(dst)@,
                *old(offset) as int,
                spec_u32_bytes(spec_u32_of_i32(y), e),
            )
        },
        r is Err ==> {
            &&& r == Err::<(), CodecError>(CodecError::Truncated)
            &&& *final(offset) == *old(offset)
            &&& final(dst)@ == old(dst)@
        },
{
    let x: u32 = if y >= 0 {
        y as u32
    } else {
        ((y as i64) + 0x1_0000_0000i64) as u32
    };
    write_u32(dst, offset, x, e)
}

/// The byte-conversion round trip: assembling the four bytes of a 32-bit
/// value recovers the value, and taking the bytes of an assembled value
/// recovers the bytes.
pub proof fn lemma_u32_bytes_roundtrip(x: u32, e: Endianness)
    ensures
        spec_u32_bytes(x, e).len() == 4,
        spec_u32_of(
            spec_u32_bytes(x, e)[0],
            spec_u32_bytes(x, e)[1],
            spec_u32_bytes(x, e)[2],
            spec_u32_bytes(x, e)[3],
            e,
        ) == x,
{
    assert((x & 0xff) < 256 && ((x >> 8) & 0xff) < 256 && ((x >> 16) & 0xff) < 256 && ((x >> 24)
        & 0xff) < 256 && ((x & 0xff) | ((x >> 8) & 0xff) << 8 | ((x >> 16) & 0xff) << 16 | ((x
        >> 24) & 0xff) << 24 == x)) by (bit_vector);
}

/// The byte-conversion round trip for 64-bit values.
pub proof fn lemma_u64_bytes_roundtrip(x: u64, e: Endianness)
    ensures
        spec_u64_bytes(x, e).len() == 8,
        ({
            let s = spec_u64_bytes(x, e);
            spec_u64_of(s[0], s[1], s[2], s[3], s[4], s[5], s[6], s[7], e) == x
        }),
{
    assert((x & 0xff) < 256 && ((x >> 8) & 0xff) < 256 && ((x >> 16) & 0xff) < 256 && ((x >> 24)
        & 0xff) < 256 && ((x >> 32) & 0xff) < 256 && ((x >> 40) & 0xff) < 256 && ((x >> 48) & 0xff)
        < 256 && ((x >> 56) & 0xff) < 256 && ((x & 0xff) | ((x >> 8) & 0xff) << 8 | ((x >> 16)
        & 0xff) << 16 | ((x >> 24) & 0xff) << 24 | ((x >> 32) & 0xff) << 32 | ((x >> 40) & 0xff)
        << 40 | ((x >> 48) & 0xff) << 48 | ((x >> 56) & 0xff) << 56 == x)) by (bit_vector);
    assert(spec_u64_bytes_le(x).reverse() =~= seq![
        ((x >> 56) & 0xff) as u8,
        ((x >> 48) & 0xff) as u8,
        ((x >> 40) & 0xff) as u8,
        ((x >> 32) & 0xff) as u8,
        ((x >> 24) & 0xff) as u8,
        ((x >> 16) & 0xff) as u8,
        ((x >> 8) & 0xff) as u8,
        (x & 0xff) as u8,
    ]);
}

} // verus!
