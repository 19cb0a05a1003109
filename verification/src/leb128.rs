//! ULEB128 and SLEB128 variable-length integer codecs.
//!
//! Each byte contributes seven bits, least-significant group first; the high
//! bit of a byte is a continuation flag.  Decoding guards against encodings
//! that would overflow 64 bits: once 63 bits of shift have accumulated, the
//! final byte may only carry the one remaining bit (or, for the signed form,
//! the sign pattern).  Encoding emits the minimal number of bytes.

use vstd::prelude::*;
use crate::error::CodecError;
use crate::reader::read_u8;
use crate::reader::refines;
use crate::reader::spec_i64_of_u64;
use crate::reader::spec_store;
use crate::reader::spec_u64_of_i64;
use crate::reader::write_u8;

verus! {

/// The ULEB128 encoding of `x`: seven bits per byte, least significant
/// first, continuation bit set on every byte but the last.  This is the
/// minimal-length encoding: no redundant continuation bytes are produced.
pub open spec fn spec_uleb_bytes(x: u64) -> Seq<u8>
    decreases x,
    via spec_uleb_bytes_dec
{
    if x < 128 {
        seq![x as u8]
    } else {
        seq![((x & 0x7f) | 0x80) as u8] + spec_uleb_bytes(x >> 7)
    }
}

#[via_fn]
proof fn spec_uleb_bytes_dec(x: u64) {
    assert(x >= 128 ==> x >> 7 < x) by (bit_vector);
}

/// What the ULEB128 decoder yields from position `pos` onward, having
/// already accumulated `acc` from bytes that contributed the bits below
/// `shift`.  Entered at `shift == 0`, `acc == 0`.
pub open spec fn spec_read_uleb_from(b: Seq<u8>, pos: int, shift: u64, acc: u64) -> Result<
    (u64, int),
    CodecError,
>
    decreases b.len() - pos,
{
    if pos < 0 || pos >= b.len() {
        Err(CodecError::Truncated)
    } else {
        let byte = b[pos];
        if shift == 63 && byte != 0x00 && byte != 0x01 {
            Err(CodecError::InvalidTag)
        } else {
            let low = (byte & 0x7f) as u64;
            let acc2 = acc | (low << shift);
            if byte & 0x80 == 0 {
                Ok((acc2, pos + 1))
            } else {
                spec_read_uleb_from(b, pos + 1, (shift + 7) as u64, acc2)
            }
        }
    }
}

/// What reading a ULEB128 value at `pos` yields.
pub open spec fn spec_read_uleb(b: Seq<u8>, pos: int) -> Result<(u64, int), CodecError> {
    spec_read_uleb_from(b, pos, 0, 0)
}

/// An encoding never takes more than ten bytes, and takes one byte exactly
/// when the value fits in seven bits.
pub proof fn lemma_uleb_len(x: u64)
    ensures
        1 <= spec_uleb_bytes(x).len() <= 10,
        x < 128 <==> spec_uleb_bytes(x).len() == 1,
    decreases x,
{
    if x >= 128 {
        assert((x >= 128 ==> x >> 7 < x && x >> 7 < 0x2_0000_0000_0000_0000) && x <= u64::MAX >> (
        7 * 0u64)) by (bit_vector);
        lemma_uleb_len(x >> 7);
        if spec_uleb_bytes(x).len() > 10 {
            lemma_uleb_len_bits(x, 0);
        }
    }
}

/// Counting helper: after `k` continuation steps the remaining value has
/// lost `7 * k` bits, so at most ten bytes are ever produced.
proof fn lemma_uleb_len_bits(x: u64, k: u64)
    requires
        k <= 9,
        x <= u64::MAX >> (7 * k),
    ensures
        spec_uleb_bytes(x).len() <= 10 - k,
    decreases 10 - k,
{
    if x < 128 {
    } else {
        assert((k < 9 ==> (x <= u64::MAX >> (7 * k) ==> x >> 7 <= u64::MAX >> (7 * (k + 1)))) && (
        k == 9 ==> !(x <= u64::MAX >> (7 * k) && x >= 128))) by (bit_vector);
        lemma_uleb_len_bits(x >> 7, (k + 1) as u64);
    }
}

/// Decoding an encoding placed in a larger buffer recovers the encoded
/// value and consumes exactly the encoding's bytes.  Generalized over the
/// decoder's accumulated state so that it can be proved by induction.
proof fn lemma_uleb_enc_dec_from(b: Seq<u8>, pos: int, x: u64, shift: u64, acc: u64)
    requires
        0 <= pos,
        pos + spec_uleb_bytes(x).len() <= b.len(),
        b.subrange(pos, pos + spec_uleb_bytes(x).len()) == spec_uleb_bytes(x),
        shift % 7 == 0,
        shift <= 63,
        acc < (1u64 << shift),
        x <= u64::MAX >> shift,
    ensures
        spec_read_uleb_from(b, pos, shift, acc) == Ok::<(u64, int), CodecError>(
            (acc | (x << shift), pos + spec_uleb_bytes(x).len()),
        ),
    decreases x,
{
    let enc = spec_uleb_bytes(x);
    assert(b[pos] == enc[0]);
    if x < 128 {
        let byte = x as u8;
        assert((shift == 63 ==> x <= 1) && byte & 0x80 == 0 && (byte & 0x7f) as u64 == x)
            by (bit_vector)
            requires
                shift <= 63,
                x <= u64::MAX >> shift,
                x < 128,
                byte == x as u8,
        ;
    } else {
        let byte = ((x & 0x7f) | 0x80) as u8;
        let acc2 = acc | ((x & 0x7f) << shift);
        assert(shift <= 56 && byte & 0x80 != 0 && (byte & 0x7f) as u64 == (x & 0x7f) && x >> 7 < x
            && acc2 < (1u64 << (shift + 7) as u64) && x >> 7 <= u64::MAX >> (shift + 7) as u64 && (
        acc2 | ((x >> 7) << (shift + 7) as u64) == acc | (x << shift))) by (bit_vector)
            requires
                shift <= 63,
                shift % 7 == 0,
                x <= u64::MAX >> shift,
                x >= 128,
                acc < (1u64 << shift),
                byte == ((x & 0x7f) | 0x80) as u8,
                acc2 == acc | ((x & 0x7f) << shift),
        ;
        assert(enc.subrange(1, enc.len() as int) == spec_uleb_bytes(x >> 7));
        assert(b.subrange(pos + 1, pos + enc.len()) == spec_uleb_bytes(x >> 7)) by {
            assert(b.subrange(pos + 1, pos + enc.len()) =~= b.subrange(
                pos,
                pos + enc.len(),
            ).subrange(1, enc.len() as int));
        }
        lemma_uleb_enc_dec_from(b, pos + 1, x >> 7, (shift + 7) as u64, acc2);
    }
}

/// The ULEB128 round trip: decoding an encoding embedded at `pos` yields
/// the encoded value and stops right after it.
pub proof fn lemma_uleb_roundtrip(b: Seq<u8>, pos: int, x: u64)
    requires
        0 <= pos,
        pos + spec_uleb_bytes(x).len() <= b.len(),
        b.subrange(pos, pos + spec_uleb_bytes(x).len()) == spec_uleb_bytes(x),
    ensures
        spec_read_uleb(b, pos) == Ok::<(u64, int), CodecError>(
            (x, pos + spec_uleb_bytes(x).len()),
        ),
{
    assert(0u64 < (1u64 << 0) && x <= u64::MAX >> 0 && 0u64 | (x << 0) == x) by (bit_vector);
    lemma_uleb_enc_dec_from(b, pos, x, 0, 0);
}

/// Minimality of the encoder: any byte range the decoder accepts for a
/// value is at least as long as the encoding this crate produces for it.
pub proof fn lemma_uleb_minimal(b: Seq<u8>, pos: int, x: u64, n: int)
    requires
        spec_read_uleb(b, pos) == Ok::<(u64, int), CodecError>((x, n)),
    ensures
        n - pos >= spec_uleb_bytes(x).len(),
{
    assert(0u64 < (1u64 << 0) && x >> 0 == x) by (bit_vector);
    lemma_uleb_min_from(b, pos, x, n, 0, 0);
}

proof fn lemma_uleb_min_from(b: Seq<u8>, pos: int, v: u64, n: int, shift: u64, acc: u64)
    requires
        spec_read_uleb_from(b, pos, shift, acc) == Ok::<(u64, int), CodecError>((v, n)),
        shift % 7 == 0,
        shift <= 63,
        acc < (1u64 << shift),
    ensures
        n - pos >= spec_uleb_bytes((v >> shift) as u64).len(),
    decreases b.len() - pos,
{
    let byte = b[pos];
    let low = (byte & 0x7f) as u64;
    let acc2 = acc | (low << shift);
    if byte & 0x80 == 0 {
        assert(acc2 >> shift < 128) by (bit_vector)
            requires
                shift <= 63 && acc < (1u64 << shift) && low == (byte & 0x7f) as u64 && acc2 == acc
                    | (low << shift),
        ;
        assert(spec_uleb_bytes((v >> shift) as u64).len() == 1) by {
            lemma_uleb_len((v >> shift) as u64);
        }
    } else {
        assert(shift <= 56) by (bit_vector)
            requires
                shift <= 63 && shift % 7 == 0 && !(shift == 63 && byte != 0x00 && byte != 0x01)
                    && byte & 0x80 != 0,
        ;
        assert(acc2 < (1u64 << (shift + 7) as u64)) by (bit_vector)
            requires
                shift <= 56 && acc < (1u64 << shift) && acc2 == acc | (((byte & 0x7f) as u64)
                    << shift),
        ;
        lemma_uleb_min_from(b, pos + 1, v, n, (shift + 7) as u64, acc2);
        let w = (v >> shift) as u64;
        assert(v >> (shift + 7) as u64 == w >> 7) by (bit_vector)
            requires
                shift <= 56 && w == (v >> shift) as u64,
        ;
        if w >= 128 {
            assert(spec_uleb_bytes(w).len() == 1 + spec_uleb_bytes(w >> 7).len());
        } else {
            lemma_uleb_len(w);
        }
    }
}

/// An unsigned LEB128 integer together with the number of bytes its
/// encoding occupied, so that a cursor can be advanced correctly and a
/// re-encode can round-trip.
#[derive(Debug, Copy, Clone)]
pub struct Uleb128 {
    value: u64,
    count: usize,
}

impl Uleb128 {
    /// The decoded value.
    pub closed spec fn spec_value(self) -> u64 {
        self.value
    }

    /// The number of encoded bytes this value was read from.
    pub closed spec fn spec_size(self) -> usize {
        self.count
    }

    /// Return how many bytes this value took up in its encoded form.
    pub fn size(&self) -> (r: usize)
        ensures
            r == self.spec_size(),
    {
        self.count
    }

    /// The decoded value itself.
    pub fn value(&self) -> (r: u64)
        ensures
            r == self.spec_value(),
    {
        self.value
    }

    /// Wraps an already-decoded value; the byte count is not meaningful
    /// until the value has been read from or written to a buffer.
    pub fn from_value(value: u64) -> (r: Uleb128)
        ensures
            r.spec_value() == value,
            r.spec_size() == 0,
    {
        Uleb128 { value, count: 0 }
    }

    /// Decodes a ULEB128 value at `offset`, returning it together with the
    /// position of the first byte after it.
    pub fn decode(src: &[u8], offset: usize) -> (r: Result<(Uleb128, usize), CodecError>)
        ensures
            match r {
                Ok((v, n)) => spec_read_uleb(src@, offset as int) == Ok::<(u64, int), CodecError>(
                    (v.spec_value(), n as int),
                ) && offset <= n <= src@.len() && v.spec_size() == n - offset,
                Err(e) => spec_read_uleb(src@, offset as int) == Err::<(u64, int), CodecError>(e),
            },
    {
        match read_uleb_from(src, offset, 0, 0) {
            Ok((value, n)) => Ok((Uleb128 { value, count: n - offset }, n)),
            Err(e) => Err(e),
        }
    }

    /// Read a variable-length `u64` from `src` at `offset`, advancing the
    /// offset past the encoded bytes.
    pub fn read(src: &[u8], offset: &mut usize) -> (r: Result<u64, CodecError>)
        ensures
            match r {
                Ok(x) => spec_read_uleb(src@, *old(offset) as int) == Ok::<
                    (u64, int),
                    CodecError,
                >((x, *final(offset) as int)) && *old(offset) <= *final(offset) <= src@.len(),
                Err(e) => spec_read_uleb(src@, *old(offset) as int) == Err::<
                    (u64, int),
                    CodecError,
                >(e) && *final(offset) == *old(offset),
            },
    {
        match read_uleb_from(src, *offset, 0, 0) {
            Ok((value, n)) => {
                *offset = n;
                Ok(value)
            },
            Err(e) => Err(e),
        }
    }

    /// Write a `u64` to `dst` at `offset` in ULEB128 form, advancing the
    /// offset past the written bytes.  Fails, leaving the buffer untouched,
    /// when the encoding does not fit.
    pub fn write(dst: &mut [u8], offset: &mut usize, value: u64) -> (r: Result<(), CodecError>)
        ensures
            r is Ok <==> *old(offset) + spec_uleb_bytes(value).len() <= old(dst)@.len(),
            r is Ok ==> {
                &&& *final(offset) == *old(offset) + spec_uleb_bytes(value).len()
                &&& final(dst)@ == spec_store(
                    old(dst)@,
                    *old(offset) as int,
                    spec_uleb_bytes(value),
                )
            },
            r is Err ==> {
                &&& r == Err::<(), CodecError>(CodecError::Truncated)
                &&& *final(offset) == *old(offset)
                &&& final(dst)@ == old(dst)@
            },
    {
        let n = uleb_size(value);
        if *offset <= dst.len() && dst.len() - *offset >= n {
            emit_uleb(dst, offset, value);
            Ok(())
        } else {
            Err(CodecError::Truncated)
        }
    }
}

/// The number of bytes the ULEB128 encoding of `value` takes.
pub fn uleb_size(value: u64) -> (r: usize)
    ensures
        r == spec_uleb_bytes(value).len(),
        1 <= r <= 10,
    decreases value,
{
    proof {
        lemma_uleb_len(value);
    }
    if value < 128 {
        1
    } else {
        proof {
            assert(value >= 128 ==> value >> 7 < value) by (bit_vector);
        }
        1 + uleb_size(value >> 7)
    }
}

/// Emits the encoding of `value`, seven bits at a time; the caller has
/// checked that it fits.
fn emit_uleb(dst: &mut [u8], offset: &mut usize, value: u64)
    requires
        *old(offset) + spec_uleb_bytes(value).len() <= old(dst)@.len(),
    ensures
        *final(offset) == *old(offset) + spec_uleb_bytes(value).len(),
        final(dst)@ == spec_store(old(dst)@, *old(offset) as int, spec_uleb_bytes(value)),
    decreases value,
{
    if value < 128 {
        let r = write_u8(dst, offset, value as u8);
    } else {
        let ghost pre = dst@;
        let ghost start = *offset as int;
        let r = write_u8(dst, offset, ((value & 0x7f) | 0x80) as u8);
        proof {
            assert(value >= 128 ==> value >> 7 < value) by (bit_vector);
        }
        emit_uleb(dst, offset, value >> 7);
        proof {
            assert(dst@ =~= spec_store(pre, start, spec_uleb_bytes(value)));
        }
    }
}

/// The SLEB128 encoding of `x`: seven bits per byte, least significant
/// first; emission stops as soon as the remaining sign-extended value is
/// fully represented by the current byte's sign bit, which makes the
/// encoding minimal.
pub open spec fn spec_sleb_bytes(x: i64) -> Seq<u8>
    decreases (if x >= 0 {
        x as int
    } else {
        -1 - x
    }),
    via spec_sleb_bytes_dec
{
    let byte = (spec_u64_of_i64(x) & 0x7f) as u8;
    let x2 = x >> 7;
    if (x2 == 0 && byte & 0x40 == 0) || (x2 == -1 && byte & 0x40 != 0) {
        seq![byte]
    } else {
        seq![(byte | 0x80) as u8] + spec_sleb_bytes(x2)
    }
}

#[via_fn]
proof fn spec_sleb_bytes_dec(x: i64) {
    let byte = (spec_u64_of_i64(x) & 0x7f) as u8;
    let x2 = x >> 7;
    assert(!((x2 == 0 && byte & 0x40 == 0) || (x2 == -1 && byte & 0x40 != 0)) ==> (if x2 >= 0 {
        x2 as int
    } else {
        -1 - x2
    }) < (if x >= 0 {
        x as int
    } else {
        -1 - x
    })) by (bit_vector)
        requires
            byte == (spec_u64_of_i64(x) & 0x7f) as u8 && x2 == x >> 7,
    ;
}

/// What the SLEB128 decoder yields from position `pos` onward, having
/// already accumulated `acc` (as raw bits) from bytes that contributed the
/// bits below `shift`.  Entered at `shift == 0`, `acc == 0`.
pub open spec fn spec_read_sleb_from(b: Seq<u8>, pos: int, shift: u64, acc: u64) -> Result<
    (i64, int),
    CodecError,
>
    decreases b.len() - pos,
{
    if pos < 0 || pos >= b.len() {
        Err(CodecError::Truncated)
    } else {
        let byte = b[pos];
        if shift == 63 && byte != 0x00 && byte != 0x7f {
            Err(CodecError::InvalidTag)
        } else {
            let low = (byte & 0x7f) as u64;
            let acc2 = acc | (low << shift);
            if byte & 0x80 == 0 {
                let bits = if shift + 7 < 64 && byte & 0x40 != 0 {
                    acc2 | (u64::MAX << (shift + 7) as u64)
                } else {
                    acc2
                };
                Ok((spec_i64_of_u64(bits), pos + 1))
            } else {
                spec_read_sleb_from(b, pos + 1, (shift + 7) as u64, acc2)
            }
        }
    }
}

/// What reading an SLEB128 value at `pos` yields.
pub open spec fn spec_read_sleb(b: Seq<u8>, pos: int) -> Result<(i64, int), CodecError> {
    spec_read_sleb_from(b, pos, 0, 0)
}

/// A signed encoding never takes more than ten bytes either, and takes one
/// byte exactly when the value fits in seven signed bits.
pub proof fn lemma_sleb_len(x: i64)
    ensures
        1 <= spec_sleb_bytes(x).len() <= 10,
        -64 <= x < 64 <==> spec_sleb_bytes(x).len() == 1,
    decreases (if x >= 0 {
        x as int
    } else {
        -1 - x
    }),
{
    let byte = (spec_u64_of_i64(x) & 0x7f) as u8;
    let x2 = x >> 7;
    assert((((x2 == 0 && byte & 0x40 == 0) || (x2 == -1 && byte & 0x40 != 0)) <==> -64 <= x < 64)
        && (!((x2 == 0 && byte & 0x40 == 0) || (x2 == -1 && byte & 0x40 != 0)) ==> (if x2 >= 0 {
        x2 as int
    } else {
        -1 - x2
    }) < (if x >= 0 {
        x as int
    } else {
        -1 - x
    })) && ((x << (7 * 0u64)) >> (7 * 0u64) == x)) by (bit_vector)
        requires
            byte == (spec_u64_of_i64(x) & 0x7f) as u8 && x2 == x >> 7,
    ;
    if !((x2 == 0 && byte & 0x40 == 0) || (x2 == -1 && byte & 0x40 != 0)) {
        lemma_sleb_len(x2);
        if spec_sleb_bytes(x).len() > 10 {
            lemma_sleb_len_bits(x, 0);
        }
    }
}

/// Counting helper for the signed form: after `k` continuation steps the
/// remaining value fits the remaining bits, so at most ten bytes appear.
proof fn lemma_sleb_len_bits(x: i64, k: u64)
    requires
        k <= 9,
        (x << (7 * k)) >> (7 * k) == x,
    ensures
        spec_sleb_bytes(x).len() <= 10 - k,
    decreases 10 - k,
{
    let byte = (spec_u64_of_i64(x) & 0x7f) as u8;
    let x2 = x >> 7;
    if (x2 == 0 && byte & 0x40 == 0) || (x2 == -1 && byte & 0x40 != 0) {
    } else {
        assert((k < 9 ==> ((x2 << (7 * (k + 1))) >> (7 * (k + 1)) == x2)) && (k == 9 ==> ((x2 == 0
            && byte & 0x40 == 0) || (x2 == -1 && byte & 0x40 != 0)))) by (bit_vector)
            requires
                k <= 9,
                (x << (7 * k)) >> (7 * k) == x,
                x2 == x >> 7,
                byte == (spec_u64_of_i64(x) & 0x7f) as u8,
        ;
        lemma_sleb_len_bits(x2, (k + 1) as u64);
    }
}

/// Decoding a signed encoding placed in a larger buffer recovers the
/// encoded value; generalized over the decoder's accumulated state.
proof fn lemma_sleb_enc_dec_from(b: Seq<u8>, pos: int, x: i64, shift: u64, acc: u64)
    requires
        0 <= pos,
        pos + spec_sleb_bytes(x).len() <= b.len(),
        b.subrange(pos, pos + spec_sleb_bytes(x).len()) == spec_sleb_bytes(x),
        shift % 7 == 0,
        shift <= 63,
        acc < (1u64 << shift),
        (x << shift) >> shift == x,
    ensures
        spec_read_sleb_from(b, pos, shift, acc) == Ok::<(i64, int), CodecError>(
            (
                spec_i64_of_u64(acc | ((spec_u64_of_i64(x) << shift) as u64)),
                pos + spec_sleb_bytes(x).len(),
            ),
        ),
    decreases (if x >= 0 {
        x as int
    } else {
        -1 - x
    }),
{
    let enc = spec_sleb_bytes(x);
    assert(b[pos] == enc[0]);
    let sbyte = (spec_u64_of_i64(x) & 0x7f) as u8;
    let x2 = x >> 7;
    if (x2 == 0 && sbyte & 0x40 == 0) || (x2 == -1 && sbyte & 0x40 != 0) {
        let low = (sbyte & 0x7f) as u64;
        let acc2 = acc | (low << shift);
        let bits = if shift + 7 < 64 && sbyte & 0x40 != 0 {
            acc2 | (u64::MAX << (shift + 7) as u64)
        } else {
            acc2
        };
        assert(sbyte & 0x80 == 0 && !(shift == 63 && sbyte != 0x00 && sbyte != 0x7f) && bits == (acc
            | ((spec_u64_of_i64(x) << shift) as u64))) by (bit_vector)
            requires
                shift <= 63,
                acc < (1u64 << shift),
                (x << shift) >> shift == x,
                sbyte == (spec_u64_of_i64(x) & 0x7f) as u8,
                x2 == x >> 7,
                (x2 == 0 && sbyte & 0x40 == 0) || (x2 == -1 && sbyte & 0x40 != 0),
                low == (sbyte & 0x7f) as u64,
                acc2 == acc | (low << shift),
                bits == (if shift + 7 < 64 && sbyte & 0x40 != 0 {
                    acc2 | (u64::MAX << (shift + 7) as u64)
                } else {
                    acc2
                }),
        ;
    } else {
        let wire = (sbyte | 0x80) as u8;
        let low = (wire & 0x7f) as u64;
        let acc2 = acc | (low << shift);
        assert(wire & 0x80 != 0 && shift <= 56 && low == (spec_u64_of_i64(x) & 0x7f) && (if x2 >= 0 {
            x2 as int
        } else {
            -1 - x2
        }) < (if x >= 0 {
            x as int
        } else {
            -1 - x
        }) && acc2 < (1u64 << (shift + 7) as u64) && ((x2 << (shift + 7) as u64) >> (shift
            + 7) as u64 == x2) && (acc2 | ((spec_u64_of_i64(x2) << (shift + 7) as u64) as u64) == acc
            | ((spec_u64_of_i64(x) << shift) as u64))) by (bit_vector)
            requires
                shift % 7 == 0,
                shift <= 63,
                acc < (1u64 << shift),
                (x << shift) >> shift == x,
                sbyte == (spec_u64_of_i64(x) & 0x7f) as u8,
                x2 == x >> 7,
                !((x2 == 0 && sbyte & 0x40 == 0) || (x2 == -1 && sbyte & 0x40 != 0)),
                wire == (sbyte | 0x80) as u8,
                low == (wire & 0x7f) as u64,
                acc2 == acc | ((((sbyte | 0x80) as u8 & 0x7f) as u64) << shift),
        ;
        assert(enc.subrange(1, enc.len() as int) == spec_sleb_bytes(x2));
        assert(b.subrange(pos + 1, pos + enc.len()) == spec_sleb_bytes(x2)) by {
            assert(b.subrange(pos + 1, pos + enc.len()) =~= b.subrange(
                pos,
                pos + enc.len(),
            ).subrange(1, enc.len() as int));
        }
        lemma_sleb_enc_dec_from(b, pos + 1, x2, (shift + 7) as u64, acc2);
    }
}

/// The SLEB128 round trip: decoding an encoding embedded at `pos` yields
/// the encoded value and stops right after it.
pub proof fn lemma_sleb_roundtrip(b: Seq<u8>, pos: int, x: i64)
    requires
        0 <= pos,
        pos + spec_sleb_bytes(x).len() <= b.len(),
        b.subrange(pos, pos + spec_sleb_bytes(x).len()) == spec_sleb_bytes(x),
    ensures
        spec_read_sleb(b, pos) == Ok::<(i64, int), CodecError>(
            (x, pos + spec_sleb_bytes(x).len()),
        ),
{
    assert(0u64 < (1u64 << 0) && (x << 0) >> 0 == x && (0u64 | ((spec_u64_of_i64(x) << 0) as u64))
        == spec_u64_of_i64(x) && ((spec_u64_of_i64(x) < 0x8000_0000_0000_0000) == (x >= 0)))
        by (bit_vector);
    lemma_sleb_enc_dec_from(b, pos, x, 0, 0);
}

/// Minimality of the signed encoder: any byte range the decoder accepts
/// for a value is at least as long as the encoding this crate produces.
pub proof fn lemma_sleb_minimal(b: Seq<u8>, pos: int, x: i64, n: int)
    requires
        spec_read_sleb(b, pos) == Ok::<(i64, int), CodecError>((x, n)),
    ensures
        n - pos >= spec_sleb_bytes(x).len(),
{
    assert(0u64 < (1u64 << 0) && x >> 0 == x) by (bit_vector);
    lemma_sleb_min_from(b, pos, x, n, 0, 0);
}

proof fn lemma_sleb_min_from(b: Seq<u8>, pos: int, v: i64, n: int, shift: u64, acc: u64)
    requires
        spec_read_sleb_from(b, pos, shift, acc) == Ok::<(i64, int), CodecError>((v, n)),
        shift % 7 == 0,
        shift <= 63,
        acc < (1u64 << shift),
    ensures
        n - pos >= spec_sleb_bytes(v >> shift).len(),
    decreases b.len() - pos,
{
    let byte = b[pos];
    let low = (byte & 0x7f) as u64;
    let acc2 = acc | (low << shift);
    let y = v >> shift;
    if byte & 0x80 == 0 {
        let bits = if shift + 7 < 64 && byte & 0x40 != 0 {
            acc2 | (u64::MAX << (shift + 7) as u64)
        } else {
            acc2
        };
        assert(-64 <= y < 64) by (bit_vector)
            requires
                shift <= 63,
                acc < (1u64 << shift),
                !(shift == 63 && byte != 0x00 && byte != 0x7f),
                low == (byte & 0x7f) as u64,
                acc2 == acc | (low << shift),
                v == spec_i64_of_u64(
                    if shift + 7 < 64 && byte & 0x40 != 0 {
                        acc2 | (u64::MAX << (shift + 7) as u64)
                    } else {
                        acc2
                    },
                ),
                y == v >> shift,
        ;
        lemma_sleb_len(y);
    } else {
        assert(shift <= 56 && acc2 < (1u64 << (shift + 7) as u64) && (v >> (shift + 7) as u64 == y
            >> 7)) by (bit_vector)
            requires
                shift % 7 == 0,
                shift <= 63,
                byte & 0x80 != 0,
                !(shift == 63 && byte != 0x00 && byte != 0x7f),
                acc < (1u64 << shift),
                acc2 == acc | (((byte & 0x7f) as u64) << shift),
                y == v >> shift,
        ;
        lemma_sleb_min_from(b, pos + 1, v, n, (shift + 7) as u64, acc2);
        let sbyte = (spec_u64_of_i64(y) & 0x7f) as u8;
        if (y >> 7 == 0 && sbyte & 0x40 == 0) || (y >> 7 == -1 && sbyte & 0x40 != 0) {
            lemma_sleb_len(y);
        } else {
            assert(spec_sleb_bytes(y).len() == 1 + spec_sleb_bytes(y >> 7).len());
        }
    }
}

/// A signed LEB128 integer together with the number of bytes its encoding
/// occupied.
#[derive(Debug, Copy, Clone)]
pub struct Sleb128 {
    value: i64,
    count: usize,
}

impl Sleb128 {
    /// The decoded value.
    pub closed spec fn spec_value(self) -> i64 {
        self.value
    }

    /// The number of encoded bytes this value was read from.
    pub closed spec fn spec_size(self) -> usize {
        self.count
    }

    /// Return how many bytes this value took up in its encoded form.
    pub fn size(&self) -> (r: usize)
        ensures
            r == self.spec_size(),
    {
        self.count
    }

    /// The decoded value itself.
    pub fn value(&self) -> (r: i64)
        ensures
            r == self.spec_value(),
    {
        self.value
    }

    /// Wraps an already-decoded value; the byte count is not meaningful
    /// until the value has been read from or written to a buffer.
    pub fn from_value(value: i64) -> (r: Sleb128)
        ensures
            r.spec_value() == value,
            r.spec_size() == 0,
    {
        Sleb128 { value, count: 0 }
    }

    /// Decodes an SLEB128 value at `offset`, returning it together with the
    /// position of the first byte after it.
    pub fn decode(src: &[u8], offset: usize) -> (r: Result<(Sleb128, usize), CodecError>)
        ensures
            match r {
                Ok((v, n)) => spec_read_sleb(src@, offset as int) == Ok::<(i64, int), CodecError>(
                    (v.spec_value(), n as int),
                ) && offset <= n <= src@.len() && v.spec_size() == n - offset,
                Err(e) => spec_read_sleb(src@, offset as int) == Err::<(i64, int), CodecError>(e),
            },
    {
        match read_sleb_from(src, offset, 0, 0) {
            Ok((value, n)) => Ok((Sleb128 { value, count: n - offset }, n)),
            Err(e) => Err(e),
        }
    }

    /// Read a variable-length `i64` from `src` at `offset`, advancing the
    /// offset past the encoded bytes.
    pub fn read(src: &[u8], offset: &mut usize) -> (r: Result<i64, CodecError>)
        ensures
            match r {
                Ok(x) => spec_read_sleb(src@, *old(offset) as int) == Ok::<
                    (i64, int),
                    CodecError,
                >((x, *final(offset) as int)) && *old(offset) <= *final(offset) <= src@.len(),
                Err(e) => spec_read_sleb(src@, *old(offset) as int) == Err::<
                    (i64, int),
                    CodecError,
                >(e) && *final(offset) == *old(offset),
            },
    {
        match read_sleb_from(src, *offset, 0, 0) {
            Ok((value, n)) => {
                *offset = n;
                Ok(value)
            },
            Err(e) => Err(e),
        }
    }

    /// Write an `i64` to `dst` at `offset` in SLEB128 form, advancing the
    /// offset past the written bytes.  Fails, leaving the buffer untouched,
    /// when the encoding does not fit.
    pub fn write(dst: &mut [u8], offset: &mut usize, value: i64) -> (r: Result<(), CodecError>)
        ensures
            r is Ok <==> *old(offset) + spec_sleb_bytes(value).len() <= old(dst)@.len(),
            r is Ok ==> {
                &&& *final(offset) == *old(offset) + spec_sleb_bytes(value).len()
                &&& final(dst)@ == spec_store(
                    old(dst)@,
                    *old(offset) as int,
                    spec_sleb_bytes(value),
                )
            },
            r is Err ==> {
                &&& r == Err::<(), CodecError>(CodecError::Truncated)
                &&& *final(offset) == *old(offset)
                &&& final(dst)@ == old(dst)@
            },
    {
        let n = sleb_size(value);
        if *offset <= dst.len() && dst.len() - *offset >= n {
            emit_sleb(dst, offset, value);
            Ok(())
        } else {
            Err(CodecError::Truncated)
        }
    }
}

/// The number of bytes the SLEB128 encoding of `value` takes.
pub fn sleb_size(value: i64) -> (r: usize)
    ensures
        r == spec_sleb_bytes(value).len(),
        1 <= r <= 10,
    decreases (if value >= 0 {
        value as int
    } else {
        -1 - value
    }),
{
    proof {
        lemma_sleb_len(value);
    }
    let byte = (value as u8) & 0x7f;
    let rest = value >> 7;
    proof {
        assert(((value as u8) & 0x7f == (spec_u64_of_i64(value) & 0x7f) as u8) && (!((rest == 0
            && byte & 0x40 == 0) || (rest == -1 && byte & 0x40 != 0)) ==> (if rest >= 0 {
            rest as int
        } else {
            -1 - rest
        }) < (if value >= 0 {
            value as int
        } else {
            -1 - value
        }))) by (bit_vector)
            requires
                rest == value >> 7 && byte == (value as u8) & 0x7f,
        ;
    }
    if (rest == 0 && byte & 0x40 == 0) || (rest == -1 && byte & 0x40 != 0) {
        1
    } else {
        proof {
            lemma_sleb_len(rest);
        }
        1 + sleb_size(rest)
    }
}

/// Emits the signed encoding of `value`; the caller has checked that it
/// fits.
fn emit_sleb(dst: &mut [u8], offset: &mut usize, value: i64)
    requires
        *old(offset) + spec_sleb_bytes(value).len() <= old(dst)@.len(),
    ensures
        *final(offset) == *old(offset) + spec_sleb_bytes(value).len(),
        final(dst)@ == spec_store(old(dst)@, *old(offset) as int, spec_sleb_bytes(value)),
    decreases (if value >= 0 {
        value as int
    } else {
        -1 - value
    }),
{
    let byte = (value as u8) & 0x7f;
    let rest = value >> 7;
    proof {
        assert(((value as u8) & 0x7f == (spec_u64_of_i64(value) & 0x7f) as u8) && (!((rest == 0
            && byte & 0x40 == 0) || (rest == -1 && byte & 0x40 != 0)) ==> (if rest >= 0 {
            rest as int
        } else {
            -1 - rest
        }) < (if value >= 0 {
            value as int
        } else {
            -1 - value
        }))) by (bit_vector)
            requires
                rest == value >> 7 && byte == (value as u8) & 0x7f,
        ;
    }
    if (rest == 0 && byte & 0x40 == 0) || (rest == -1 && byte & 0x40 != 0) {
        let r = write_u8(dst, offset, byte);
    } else {
        let ghost pre = dst@;
        let ghost start = *offset as int;
        let r = write_u8(dst, offset, byte | 0x80);
        emit_sleb(dst, offset, rest);
        proof {
            assert(dst@ =~= spec_store(pre, start, spec_sleb_bytes(value)));
        }
    }
}

/// Reads signed continuation bytes one at a time; mirrors
/// `spec_read_sleb_from` step for step, including the final sign
/// extension.
fn read_sleb_from(src: &[u8], offset: usize, shift: u64, acc: u64) -> (r: Result<
    (i64, usize),
    CodecError,
>)
    requires
        shift % 7 == 0,
        shift <= 63,
    ensures
        refines(r, spec_read_sleb_from(src@, offset as int, shift, acc)),
        r matches Ok((v, n)) ==> offset < n <= src@.len(),
    decreases src@.len() - offset,
{
    match read_u8(src, offset) {
        Ok((byte, pos2)) => {
            if shift == 63 && byte != 0x00 && byte != 0x7f {
                Err(CodecError::InvalidTag)
            } else {
                let low = (byte & 0x7f) as u64;
                let acc2 = acc | (low << shift);
                if byte & 0x80 == 0 {
                    let bits: u64 = if shift + 7 < 64 && byte & 0x40 != 0 {
                        acc2 | (u64::MAX << (shift + 7))
                    } else {
                        acc2
                    };
                    let v: i64 = if bits < 0x8000_0000_0000_0000 {
                        bits as i64
                    } else {
                        let lowpart: u64 = bits - 0x8000_0000_0000_0000;
                        (lowpart as i64) + (-0x8000_0000_0000_0000i64)
                    };
                    Ok((v, pos2))
                } else {
                    proof {
                        assert(shift <= 56) by (bit_vector)
                            requires
                                shift % 7 == 0,
                                shift <= 63,
                                byte & 0x80 != 0,
                                !(shift == 63 && byte != 0x00 && byte != 0x7f),
                        ;
                    }
                    read_sleb_from(src, pos2, shift + 7, acc2)
                }
            }
        },
        Err(e) => Err(e),
    }
}

/// Reads continuation bytes one at a time, accumulating each seven-bit
/// group at the current shift; mirrors `spec_read_uleb_from` step for step.
fn read_uleb_from(src: &[u8], offset: usize, shift: u64, acc: u64) -> (r: Result<
    (u64, usize),
    CodecError,
>)
    requires
        shift % 7 == 0,
        shift <= 63,
    ensures
        refines(r, spec_read_uleb_from(src@, offset as int, shift, acc)),
        r matches Ok((v, n)) ==> offset < n <= src@.len(),
    decreases src@.len() - offset,
{
    match read_u8(src, offset) {
        Ok((byte, pos2)) => {
            if shift == 63 && byte != 0x00 && byte != 0x01 {
                Err(CodecError::InvalidTag)
            } else {
                let low = (byte & 0x7f) as u64;
                let acc2 = acc | (low << shift);
                if byte & 0x80 == 0 {
                    Ok((acc2, pos2))
                } else {
                    proof {
                        assert(shift <= 56) by (bit_vector)
                            requires
                                shift % 7 == 0,
                                shift <= 63,
                                byte & 0x80 != 0,
                                !(shift == 63 && byte != 0x00 && byte != 0x01),
                        ;
                    }
                    read_uleb_from(src, pos2, shift + 7, acc2)
                }
            }
        },
        Err(e) => Err(e),
    }
}

} // verus!
