//! The LuaJIT v2 debug metadata: when the dump carries debug data, each
//! prototype declares the byte size of its debug section and the line
//! range it covers.  The debug section's own contents are not decoded.

use vstd::prelude::*;
use crate::error::CodecError;
use crate::leb128::Uleb128;
use crate::leb128::spec_read_uleb;
use crate::luajit::ctx::BytecodeContext;

verus! {

/// The size and line-range summary in front of a prototype's debug data.
#[derive(Debug, Copy, Clone)]
pub struct DebugInfoMetadata {
    pub size: Uleb128,
    pub first_line: Uleb128,
    pub num_lines: Uleb128,
}

/// The decoded debug section itself; its layout is not decoded here.
#[derive(Debug, Clone)]
pub struct DebugInfo {
}

/// The mathematical shape of the metadata: the three declared values.
pub struct DebugMetaView {
    pub size: u64,
    pub first_line: u64,
    pub num_lines: u64,
}

/// The shape of a metadata value.
pub open spec fn debug_meta_view(d: DebugInfoMetadata) -> DebugMetaView {
    DebugMetaView {
        size: d.size.spec_value(),
        first_line: d.first_line.spec_value(),
        num_lines: d.num_lines.spec_value(),
    }
}

/// What reading the metadata at `pos` yields: three ULEB128 values when
/// the dump carries debug data, nothing otherwise.
pub open spec fn spec_read_debug_meta(b: Seq<u8>, pos: int, ctx: BytecodeContext) -> Result<
    (DebugMetaView, int),
    CodecError,
> {
    if ctx.spec_is_stripped() {
        Ok((DebugMetaView { size: 0, first_line: 0, num_lines: 0 }, pos))
    } else {
        match spec_read_uleb(b, pos) {
            Err(e) => Err(e),
            Ok((size, p1)) => match spec_read_uleb(b, p1) {
                Err(e) => Err(e),
                Ok((first_line, p2)) => match spec_read_uleb(b, p2) {
                    Err(e) => Err(e),
                    Ok((num_lines, p3)) => Ok(
                        (DebugMetaView { size, first_line, num_lines }, p3),
                    ),
                },
            },
        }
    }
}

impl DebugInfoMetadata {
    /// Reads the metadata at `offset`; on a stripped dump nothing is
    /// consumed and the summary is all zeroes.
    pub fn read(src: &[u8], offset: usize, ctx: BytecodeContext) -> (r: Result<
        (DebugInfoMetadata, usize),
        CodecError,
    >)
        requires
            offset <= src@.len(),
        ensures
            match r {
                Ok((d, n)) => spec_read_debug_meta(src@, offset as int, ctx) == Ok::<
                    (DebugMetaView, int),
                    CodecError,
                >((debug_meta_view(d), n as int)) && offset <= n <= src@.len(),
                Err(e) => spec_read_debug_meta(src@, offset as int, ctx) == Err::<
                    (DebugMetaView, int),
                    CodecError,
                >(e),
            },
    {
        if ctx.is_stripped() {
            let d = DebugInfoMetadata {
                size: Uleb128::from_value(0),
                first_line: Uleb128::from_value(0),
                num_lines: Uleb128::from_value(0),
            };
            return Ok((d, offset));
        }
        let (size, p1) = match Uleb128::decode(src, offset) {
            Ok(x) => x,
            Err(e) => {
                return Err(e);
            },
        };
        let (first_line, p2) = match Uleb128::decode(src, p1) {
            Ok(x) => x,
            Err(e) => {
                return Err(e);
            },
        };
        let (num_lines, p3) = match Uleb128::decode(src, p2) {
            Ok(x) => x,
            Err(e) => {
                return Err(e);
            },
        };
        Ok((DebugInfoMetadata { size, first_line, num_lines }, p3))
    }
}

} // verus!
