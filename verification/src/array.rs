//! Length-prefixed homogeneous sequences.
//!
//! The length encoding is version-dependent: a fixed-width signed 32-bit
//! count for Lua 5.1 through 5.3, a ULEB128 count for Lua 5.4.  The
//! elements themselves are read by each codec's own loop; this module
//! handles only the size field and carries the invariant that a decoded
//! array's size equals the length of its element sequence.

use vstd::prelude::*;
use crate::CommonCtx;
use crate::error::CodecError;
use crate::leb128::Uleb128;
use crate::leb128::spec_read_uleb;
use crate::reader::read_i32;
use crate::reader::spec_read_i32;
use crate::reader::spec_store;
use crate::reader::spec_u32_bytes;
use crate::reader::spec_u32_of_i32;
use crate::reader::write_u32;

verus! {

/// A decoded array: the declared element count from the wire and the
/// elements themselves.
#[derive(Debug, Clone)]
pub struct Array<T> {
    pub size: usize,
    pub data: Vec<T>,
}

impl<T> Array<T> {
    /// The decoded size field always equals the number of decoded
    /// elements, and a written size field always equals the live count.
    pub open spec fn wf(&self) -> bool {
        self.size == self.data@.len()
    }

    /// Packs a vector of elements as an array, declaring its live count.
    pub fn from_vec(data: Vec<T>) -> (r: Array<T>)
        ensures
            r.data == data,
            r.wf(),
    {
        let size: usize = data.len();
        Array { size, data }
    }
}

/// What reading an array's size field at `pos` yields: a signed 32-bit
/// count for 5.1 through 5.3, a ULEB128 count for 5.4.
pub open spec fn spec_read_array_size(b: Seq<u8>, pos: int, ctx: CommonCtx) -> Result<
    (usize, int),
    CodecError,
> {
    let v = ctx.lua_version;
    if v.major == 5 && (v.minor == 1 || v.minor == 2 || v.minor == 3) {
        match spec_read_i32(b, pos, ctx.endianness) {
            Ok((x, n)) => {
                if x < 0 || x > usize::MAX {
                    Err(CodecError::Truncated)
                } else {
                    Ok((x as usize, n))
                }
            },
            Err(e) => Err(e),
        }
    } else if v.major == 5 && v.minor == 4 {
        match spec_read_uleb(b, pos) {
            Ok((x, n)) => {
                if x > usize::MAX {
                    Err(CodecError::Truncated)
                } else {
                    Ok((x as usize, n))
                }
            },
            Err(e) => Err(e),
        }
    } else {
        Err(CodecError::UnsupportedVersion)
    }
}

/// The wire form of an array's size field where write support exists:
/// the signed 32-bit count of 5.1 through 5.3.
pub open spec fn spec_array_size_bytes(size: usize, ctx: CommonCtx) -> Seq<u8>
    recommends
        size <= i32::MAX,
{
    spec_u32_bytes(spec_u32_of_i32(size as i32), ctx.endianness)
}

impl<T> Array<T> {
    /// Reads the size field of an array under the given context,
    /// advancing the offset past it.
    pub fn read_size(src: &[u8], offset: &mut usize, ctx: CommonCtx) -> (r: Result<
        usize,
        CodecError,
    >)
        ensures
            match r {
                Ok(sz) => spec_read_array_size(src@, *old(offset) as int, ctx) == Ok::<
                    (usize, int),
                    CodecError,
                >((sz, *final(offset) as int)) && *old(offset) <= *final(offset) <= src@.len(),
                Err(e) => spec_read_array_size(src@, *old(offset) as int, ctx) == Err::<
                    (usize, int),
                    CodecError,
                >(e) && *final(offset) == *old(offset),
            },
    {
        let (major, minor) = ctx.lua_version.into_tuple();
        if major == 5 && (minor == 1 || minor == 2 || minor == 3) {
            match read_i32(src, *offset, ctx.endianness) {
                Ok((x, n)) => {
                    if x < 0 || (x as u64) > (usize::MAX as u64) {
                        Err(CodecError::Truncated)
                    } else {
                        *offset = n;
                        Ok(x as usize)
                    }
                },
                Err(e) => Err(e),
            }
        } else if major == 5 && minor == 4 {
            match Uleb128::decode(src, *offset) {
                Ok((u, n)) => {
                    let x = u.value();
                    if x > (usize::MAX as u64) {
                        Err(CodecError::Truncated)
                    } else {
                        *offset = n;
                        Ok(x as usize)
                    }
                },
                Err(e) => Err(e),
            }
        } else {
            Err(CodecError::UnsupportedVersion)
        }
    }

    /// Writes this array's size field under the given context, advancing
    /// the offset past it.  Write support exists for 5.1 through 5.3;
    /// a 5.4 size write reports itself unimplemented, and an unknown
    /// version is rejected; the buffer is untouched on any failure.
    pub fn write_size(&self, dst: &mut [u8], offset: &mut usize, ctx: CommonCtx) -> (r: Result<
        usize,
        CodecError,
    >)
        ensures
            match r {
                Ok(written) => {
                    let v = ctx.lua_version;
                    &&& v.major == 5 && (v.minor == 1 || v.minor == 2 || v.minor == 3)
                    &&& self.size <= i32::MAX
                    &&& written == 4
                    &&& *final(offset) == *old(offset) + 4
                    &&& final(dst)@ == spec_store(
                        old(dst)@,
                        *old(offset) as int,
                        spec_array_size_bytes(self.size, ctx),
                    )
                },
                Err(e) => {
                    let v = ctx.lua_version;
                    &&& *final(offset) == *old(offset)
                    &&& final(dst)@ == old(dst)@
                    &&& (v.major == 5 && (v.minor == 1 || v.minor == 2 || v.minor == 3) ==> e
                        == CodecError::Truncated)
                    &&& (v.major == 5 && v.minor == 4 ==> e == CodecError::Unimplemented)
                    &&& (!(v.major == 5 && (v.minor == 1 || v.minor == 2 || v.minor == 3
                        || v.minor == 4)) ==> e == CodecError::UnsupportedVersion)
                },
            },
            ({
                let v = ctx.lua_version;
                let family_ok = v.major == 5 && (v.minor == 1 || v.minor == 2 || v.minor == 3);
                r is Ok <==> family_ok && self.size <= i32::MAX && *old(offset) + 4 <= old(
                    dst,
                )@.len()
            }),
    {
        let (major, minor) = ctx.lua_version.into_tuple();
        if major == 5 && (minor == 1 || minor == 2 || minor == 3) {
            if self.size > (i32::MAX as usize) {
                return Err(CodecError::Truncated);
            }
            match write_u32(dst, offset, self.size as u32, ctx.endianness) {
                Ok(()) => {
                    proof {
                        let sz = self.size;
                        assert(sz <= i32::MAX ==> sz as u32 == spec_u32_of_i32(sz as i32));
                    }
                    Ok(4)
                },
                Err(e) => Err(e),
            }
        } else if major == 5 && minor == 4 {
            Err(CodecError::Unimplemented)
        } else {
            Err(CodecError::UnsupportedVersion)
        }
    }
}

} // verus!
