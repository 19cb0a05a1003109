//! Length-prefixed sequences in the LuaJIT dump format: the length is a
//! ULEB128 value, whatever the element type.

use vstd::prelude::*;
use crate::error::CodecError;
use crate::leb128::Uleb128;
use crate::leb128::spec_read_uleb;
use crate::leb128::spec_uleb_bytes;
use crate::reader::spec_store;

verus! {

/// A decoded array: the declared element count from the wire and the
/// elements themselves.
#[derive(Debug, Clone)]
pub struct Array<T> {
    pub size: usize,
    pub data: Vec<T>,
}

impl<T> Array<T> {
    /// The decoded size field always equals the number of decoded
    /// elements, and a written size field always equals the live count.
    pub open spec fn wf(&self) -> bool {
        self.size == self.data@.len()
    }

    /// Reads the size field of an array, advancing the offset past it.
    pub fn read_size(src: &[u8], offset: &mut usize) -> (r: Result<usize, CodecError>)
        ensures
            match r {
                Ok(sz) => ({
                    match spec_read_uleb(src@, *old(offset) as int) {
                        Ok((v, n)) => sz == v && *final(offset) as int == n && v <= usize::MAX,
                        Err(_) => false,
                    }
                }) && *old(offset) <= *final(offset) <= src@.len(),
                Err(e) => ({
                    match spec_read_uleb(src@, *old(offset) as int) {
                        Ok((v, n)) => v > usize::MAX && e == CodecError::Truncated,
                        Err(e2) => e == e2,
                    }
                }) && *final(offset) == *old(offset),
            },
    {
        match Uleb128::decode(src, *offset) {
            Ok((u, n)) => {
                let x = u.value();
                if x > (usize::MAX as u64) {
                    Err(CodecError::Truncated)
                } else {
                    *offset = n;
                    Ok(x as usize)
                }
            },
            Err(e) => Err(e),
        }
    }

    /// Writes this array's size field as a ULEB128 value, advancing the
    /// offset past it; returns the number of bytes written.  Fails,
    /// leaving the buffer untouched, when the encoding does not fit.
    pub fn write_size(&self, dst: &mut [u8], offset: &mut usize) -> (r: Result<usize, CodecError>)
        ensures
            r is Ok <==> *old(offset) + spec_uleb_bytes(self.size as u64).len() <= old(
                dst,
            )@.len(),
            r is Ok ==> {
                &&& r == Ok::<usize, CodecError>(spec_uleb_bytes(self.size as u64).len() as usize)
                &&& *final(offset) == *old(offset) + spec_uleb_bytes(self.size as u64).len()
                &&& final(dst)@ == spec_store(
                    old(dst)@,
                    *old(offset) as int,
                    spec_uleb_bytes(self.size as u64),
                )
            },
            r is Err ==> {
                &&& r == Err::<usize, CodecError>(CodecError::Truncated)
                &&& *final(offset) == *old(offset)
                &&& final(dst)@ == old(dst)@
            },
    {
        let before: usize = *offset;
        match Uleb128::write(dst, offset, self.size as u64) {
            Ok(()) => Ok(*offset - before),
            Err(e) => Err(e),
        }
    }
}

} // verus!
