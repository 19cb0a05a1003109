//! The entry-point trait every per-version disassembler implements.

use vstd::prelude::*;
use crate::types::Bytecode;

verus! {

/// Turns an input buffer into a decoded bytecode tree, or the first
/// decode failure.  The inherent `disassemble` method on each
/// disassembler carries the exact contract; this trait gives the front
/// end one name for all of them.
pub trait Disassemble<T: Bytecode> where Self: core::marker::Sized {
    type Error;

    fn disassemble(self) -> Result<T, Self::Error>;
}

} // verus!
