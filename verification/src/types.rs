//! Helper traits shared by the per-version codecs.

use vstd::prelude::*;

verus! {

/// Helper trait for implementing instruction encoding/decoding on
/// formats whose opcode field covers its full range, so that both
/// directions are total.
pub trait Packable where Self: core::marker::Sized {
    /// Decode an instruction from its raw value
    fn decode(raw: u32) -> Self;

    /// Encode an instruction into its raw value
    fn encode(inst: Self) -> u32;
}

/// Trait for decoded bytecode chunks.
///
/// Names the bytecode variant a decoded chunk belongs to, so that a
/// front end can label results without knowing the concrete type.
pub trait Bytecode {
    /// The unique ID for this bytecode variant
    fn identifier() -> &'static str;

    /// Returns the human-readable display name for the bytecode variant
    fn display_name() -> &'static str;
}

} // verus!
