//! The common context threaded through a LuaJIT bytecode decode.

use vstd::prelude::*;
use crate::Endianness;

verus! {

/// Flag bit consulted to decide whether the dump carries debug data.
pub const BYTECODE_IS_STRIPPED: u64 = 0x02;

/// A common context used between each LuaJIT version.
#[derive(Debug, Copy, Clone, PartialEq, Eq, Structural)]
pub struct BytecodeContext {
    /// Bytecode flags
    pub flags: u64,

    /// The byte order to read multi-byte scalars with (when needed)
    pub endian: Endianness,
}

impl BytecodeContext {
    /// Determine if the bytecode is stripped of debug information.
    pub fn is_stripped(&self) -> (r: bool)
        ensures
            r == (self.flags & 0x02 == 0),
    {
        self.flags & BYTECODE_IS_STRIPPED == 0
    }

    /// The same decision at the specification level.
    pub open spec fn spec_is_stripped(self) -> bool {
        self.flags & 0x02 == 0
    }
}

} // verus!
