//! The error taxonomy shared by every codec in the crate.

use vstd::prelude::*;

verus! {

/// The four distinct, non-overlapping ways a decode or encode step can fail.
///
/// Every codec step that can fail returns its failure immediately to its
/// caller; the first failure anywhere in a recursive prototype decode aborts
/// the whole chunk decode.  Malformed bytecode is never coerced into a
/// default value.
#[derive(Debug, Copy, Clone, PartialEq, Eq, Structural)]
pub enum CodecError {
    /// Fewer bytes remain than the current field requires.
    Truncated,
    /// A version, opcode or constant-tag byte lies outside its closed valid
    /// set, or the signature bytes are wrong.
    InvalidTag,
    /// The version tag parses but is not one of the implemented families, or
    /// does not match the family this codec handles.
    UnsupportedVersion,
    /// Write support has not been built for this version and field.
    Unimplemented,
}

} // verus!
