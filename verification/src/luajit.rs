//! The LuaJIT v2 bytecode codec: a separate dump format sharing only the
//! varint and tagged-string primitives with the Lua 5.x codecs.  Its
//! header carries a flag word; the flags decide whether a chunk name and
//! per-prototype debug metadata are present at all.

pub mod ctx;
pub mod jitstring;
pub mod array;
pub mod instructions;
pub mod debug_info;

use vstd::prelude::*;
use crate::Endianness;
use crate::error::CodecError;
use crate::leb128::Uleb128;
use crate::leb128::spec_read_uleb;
use crate::reader::read_u8;
use crate::reader::spec_read_u8;
use crate::luajit::ctx::BytecodeContext;
use crate::luajit::debug_info::DebugInfoMetadata;
use crate::luajit::debug_info::DebugMetaView;
use crate::luajit::debug_info::debug_meta_view;
use crate::luajit::debug_info::spec_read_debug_meta;
use crate::luajit::instructions::Instruction;
use crate::luajit::instructions::read_instr_list;
use crate::luajit::instructions::spec_read_instr;
use crate::luajit::jitstring::JitString;
use crate::luajit::jitstring::JitView;
use crate::luajit::jitstring::spec_read_jitstring;

verus! {

/// The LuaJIT v2 dump header: three signature bytes, a version byte, the
/// flag word, and, when the flags say the dump is not stripped, the
/// chunk name.
#[derive(Debug, Clone)]
pub struct Header {
    pub signature: [u8; 3],
    pub version: u8,
    pub flags: Uleb128,
    pub chunk_name: Option<JitString>,
}

/// The mathematical shape of a header.
pub struct HeaderView {
    pub signature: Seq<u8>,
    pub version: u8,
    pub flags: u64,
    pub chunk_name: Option<JitView>,
}

/// The shape of a header value.
pub open spec fn header_view(h: Header) -> HeaderView {
    HeaderView {
        signature: h.signature@,
        version: h.version,
        flags: h.flags.spec_value(),
        chunk_name: match h.chunk_name {
            Some(s) => Some(s@),
            None => None,
        },
    }
}

/// What reading a LuaJIT v2 header at `pos` yields.
pub open spec fn spec_read_header(b: Seq<u8>, pos: int) -> Result<(HeaderView, int), CodecError> {
    if pos + 4 > b.len() {
        Err(CodecError::Truncated)
    } else {
        match spec_read_uleb(b, pos + 4) {
            Err(e) => Err(e),
            Ok((flags, p1)) => {
                let ctx = BytecodeContext { flags, endian: Endianness::Little };
                if !ctx.spec_is_stripped() {
                    match spec_read_jitstring(b, p1) {
                        Err(e) => Err(e),
                        Ok((name, p2)) => Ok(
                            (
                                HeaderView {
                                    signature: b.subrange(pos, pos + 3),
                                    version: b[pos + 3],
                                    flags,
                                    chunk_name: Some(name),
                                },
                                p2,
                            ),
                        ),
                    }
                } else {
                    Ok(
                        (
                            HeaderView {
                                signature: b.subrange(pos, pos + 3),
                                version: b[pos + 3],
                                flags,
                                chunk_name: None,
                            },
                            p1,
                        ),
                    )
                }
            },
        }
    }
}

/// One LuaJIT prototype: its framing values, optional debug metadata and
/// instruction stream.
#[derive(Debug)]
pub struct Prototype {
    /// Total size of the prototype
    pub prototype_length: Uleb128,
    /// Metadata for the prototype
    pub flags: u8,
    /// Number of parameters
    pub parameter_count: u8,
    /// Fixed frame size
    pub frame_size: u8,
    pub upvalue_count: u8,
    pub gc_constant_count: Uleb128,
    pub num_constant_count: Uleb128,
    pub instruction_count: Uleb128,
    pub debug_metadata: Option<DebugInfoMetadata>,
    pub instructions: Vec<Instruction>,
}

/// The mathematical shape of a prototype.
pub struct ProtoView {
    pub prototype_length: u64,
    pub flags: u8,
    pub parameter_count: u8,
    pub frame_size: u8,
    pub upvalue_count: u8,
    pub gc_constant_count: u64,
    pub num_constant_count: u64,
    pub instruction_count: u64,
    pub debug_metadata: Option<DebugMetaView>,
    pub instructions: Seq<Instruction>,
}

/// The shape of a prototype value.
pub open spec fn proto_view(p: Prototype) -> ProtoView {
    ProtoView {
        prototype_length: p.prototype_length.spec_value(),
        flags: p.flags,
        parameter_count: p.parameter_count,
        frame_size: p.frame_size,
        upvalue_count: p.upvalue_count,
        gc_constant_count: p.gc_constant_count.spec_value(),
        num_constant_count: p.num_constant_count.spec_value(),
        instruction_count: p.instruction_count.spec_value(),
        debug_metadata: match p.debug_metadata {
            Some(d) => Some(debug_meta_view(d)),
            None => None,
        },
        instructions: p.instructions@,
    }
}

/// A well-formed prototype: the declared instruction count equals the
/// number of decoded instructions, and every instruction is
/// constructible.
pub open spec fn proto_wf(p: Prototype) -> bool {
    &&& p.instruction_count.spec_value() == p.instructions@.len()
    &&& forall|i: int|
        0 <= i < p.instructions@.len() ==> instructions::spec_wf(#[trigger] p.instructions@[i])
}

/// What reading a prototype at `pos` yields, in wire order: the framing
/// values, the three counts, the optional debug metadata, then the
/// instruction stream.
pub open spec fn spec_read_proto(b: Seq<u8>, pos: int, ctx: BytecodeContext) -> Result<
    (ProtoView, int),
    CodecError,
> {
    match spec_read_uleb(b, pos) {
        Err(e) => Err(e),
        Ok((prototype_length, p1)) => match spec_read_u8(b, p1) {
            Err(e) => Err(e),
            Ok((flags, p2)) => match spec_read_u8(b, p2) {
                Err(e) => Err(e),
                Ok((parameter_count, p3)) => match spec_read_u8(b, p3) {
                    Err(e) => Err(e),
                    Ok((frame_size, p4)) => match spec_read_u8(b, p4) {
                        Err(e) => Err(e),
                        Ok((upvalue_count, p5)) => match spec_read_uleb(b, p5) {
                            Err(e) => Err(e),
                            Ok((gc_constant_count, p6)) => match spec_read_uleb(b, p6) {
                                Err(e) => Err(e),
                                Ok((num_constant_count, p7)) => match spec_read_uleb(b, p7) {
                                    Err(e) => Err(e),
                                    Ok((instruction_count, p8)) => {
                                        if instruction_count > usize::MAX {
                                            Err(CodecError::Truncated)
                                        } else {
                                            match spec_read_debug_meta(b, p8, ctx) {
                                                Err(e) => Err(e),
                                                Ok((meta, p9)) => match crate::codec::spec_read_list(
                                                    p9,
                                                    instruction_count as nat,
                                                    |p: int| spec_read_instr(b, p, ctx),
                                                    Seq::empty(),
                                                ) {
                                                    Err(e) => Err(e),
                                                    Ok((code, p10)) => Ok(
                                                        (
                                                            ProtoView {
                                                                prototype_length,
                                                                flags,
                                                                parameter_count,
                                                                frame_size,
                                                                upvalue_count,
                                                                gc_constant_count,
                                                                num_constant_count,
                                                                instruction_count,
                                                                debug_metadata: if ctx.spec_is_stripped() {
                                                                    None
                                                                } else {
                                                                    Some(meta)
                                                                },
                                                                instructions: code,
                                                            },
                                                            p10,
                                                        ),
                                                    ),
                                                },
                                            }
                                        }
                                    },
                                },
                            },
                        },
                    },
                },
            },
        },
    }
}

impl Header {
    /// Reads a LuaJIT v2 header at `offset`.
    pub fn read(src: &[u8], offset: usize) -> (r: Result<(Header, usize), CodecError>)
        ensures
            match r {
                Ok((h, n)) => spec_read_header(src@, offset as int) == Ok::<
                    (HeaderView, int),
                    CodecError,
                >((header_view(h), n as int)) && offset <= n <= src@.len(),
                Err(e) => spec_read_header(src@, offset as int) == Err::<
                    (HeaderView, int),
                    CodecError,
                >(e),
            },
    {
        if offset > src.len() || src.len() - offset < 4 {
            return Err(CodecError::Truncated);
        }
        let s0 = *vstd::slice::slice_index_get(src, offset);
        let s1 = *vstd::slice::slice_index_get(src, offset + 1);
        let s2 = *vstd::slice::slice_index_get(src, offset + 2);
        let version = *vstd::slice::slice_index_get(src, offset + 3);
        let (flags, p1) = match Uleb128::decode(src, offset + 4) {
            Ok(x) => x,
            Err(e) => {
                return Err(e);
            },
        };
        let ctx = BytecodeContext { flags: flags.value(), endian: Endianness::Little };
        let chunk_name: Option<JitString> = if !ctx.is_stripped() {
            match JitString::read(src, p1) {
                Ok((name, p2)) => {
                    let h = Header {
                        signature: [s0, s1, s2],
                        version,
                        flags,
                        chunk_name: Some(name),
                    };
                    proof {
                        assert(h.signature@ =~= src@.subrange(offset as int, offset + 3));
                    }
                    return Ok((h, p2));
                },
                Err(e) => {
                    return Err(e);
                },
            }
        } else {
            None
        };
        let h = Header { signature: [s0, s1, s2], version, flags, chunk_name };
        proof {
            assert(h.signature@ =~= src@.subrange(offset as int, offset + 3));
        }
        Ok((h, p1))
    }
}

impl Prototype {
    /// Reads a prototype at `offset`.
    pub fn read(src: &[u8], offset: usize, ctx: BytecodeContext) -> (r: Result<
        (Prototype, usize),
        CodecError,
    >)
        ensures
            match r {
                Ok((p, n)) => spec_read_proto(src@, offset as int, ctx) == Ok::<
                    (ProtoView, int),
                    CodecError,
                >((proto_view(p), n as int)) && proto_wf(p) && offset <= n <= src@.len(),
                Err(e) => spec_read_proto(src@, offset as int, ctx) == Err::<
                    (ProtoView, int),
                    CodecError,
                >(e),
            },
    {
        let (prototype_length, p1) = match Uleb128::decode(src, offset) {
            Ok(x) => x,
            Err(e) => {
                return Err(e);
            },
        };
        let (flags, p2) = match read_u8(src, p1) {
            Ok(x) => x,
            Err(e) => {
                return Err(e);
            },
        };
        let (parameter_count, p3) = match read_u8(src, p2) {
            Ok(x) => x,
            Err(e) => {
                return Err(e);
            },
        };
        let (frame_size, p4) = match read_u8(src, p3) {
            Ok(x) => x,
            Err(e) => {
                return Err(e);
            },
        };
        let (upvalue_count, p5) = match read_u8(src, p4) {
            Ok(x) => x,
            Err(e) => {
                return Err(e);
            },
        };
        let (gc_constant_count, p6) = match Uleb128::decode(src, p5) {
            Ok(x) => x,
            Err(e) => {
                return Err(e);
            },
        };
        let (num_constant_count, p7) = match Uleb128::decode(src, p6) {
            Ok(x) => x,
            Err(e) => {
                return Err(e);
            },
        };
        let (instruction_count, p8) = match Uleb128::decode(src, p7) {
            Ok(x) => x,
            Err(e) => {
                return Err(e);
            },
        };
        if instruction_count.value() > (usize::MAX as u64) {
            return Err(CodecError::Truncated);
        }
        let n_instr: usize = instruction_count.value() as usize;
        let (meta, p9) = match DebugInfoMetadata::read(src, p8, ctx) {
            Ok(x) => x,
            Err(e) => {
                return Err(e);
            },
        };
        let (code, p10) = match read_instr_list(src, p9, n_instr, ctx) {
            Ok(x) => x,
            Err(e) => {
                return Err(e);
            },
        };
        let p = Prototype {
            prototype_length,
            flags,
            parameter_count,
            frame_size,
            upvalue_count,
            gc_constant_count,
            num_constant_count,
            instruction_count,
            debug_metadata: if ctx.is_stripped() {
                None
            } else {
                Some(meta)
            },
            instructions: code,
        };
        Ok((p, p10))
    }
}

/// A whole chunk's shape: its header and first prototype.
pub struct BytecodeView {
    pub header: HeaderView,
    pub prototype: ProtoView,
}

/// What decoding a LuaJIT v2 chunk yields: the header, then the first
/// prototype under the context the header's flags establish.
pub open spec fn spec_read_chunk(b: Seq<u8>) -> Result<(BytecodeView, int), CodecError> {
    match spec_read_header(b, 0) {
        Err(e) => Err(e),
        Ok((h, p)) => {
            let ctx = BytecodeContext { flags: h.flags, endian: Endianness::Little };
            match spec_read_proto(b, p, ctx) {
                Err(e) => Err(e),
                Ok((pv, n)) => Ok((BytecodeView { header: h, prototype: pv }, n)),
            }
        },
    }
}

/// A whole decoded LuaJIT v2 chunk.
#[derive(Debug)]
pub struct Bytecode {
    pub header: Header,
    pub prototype: Prototype,
}

/// The shape of a decoded chunk.
pub open spec fn bytecode_view(bc: Bytecode) -> BytecodeView {
    BytecodeView { header: header_view(bc.header), prototype: proto_view(bc.prototype) }
}

/// The entry point for decoding LuaJIT v2 chunks from an in-memory
/// buffer.
pub struct Disassembler<'a> {
    pub bytes: &'a [u8],
}

impl<'a> Disassembler<'a> {
    /// Wraps a buffer holding a complete chunk.
    pub fn new(bytes: &'a [u8]) -> (r: Self)
        ensures
            r.bytes@ == bytes@,
    {
        Self { bytes }
    }

    /// Decodes the header and the first prototype of the chunk.
    pub fn disassemble(self) -> (r: Result<Bytecode, CodecError>)
        ensures
            match r {
                Ok(bc) => (exists|n: int|
                    spec_read_chunk(self.bytes@) == Ok::<(BytecodeView, int), CodecError>(
                        (bytecode_view(bc), n),
                    )) && proto_wf(bc.prototype),
                Err(e) => spec_read_chunk(self.bytes@) == Err::<(BytecodeView, int), CodecError>(
                    e,
                ),
            },
    {
        let (header, p) = match Header::read(self.bytes, 0) {
            Ok(x) => x,
            Err(e) => {
                return Err(e);
            },
        };
        let ctx = BytecodeContext { flags: header.flags.value(), endian: Endianness::Little };
        match Prototype::read(self.bytes, p, ctx) {
            Ok((prototype, n)) => {
                let bc = Bytecode { header, prototype };
                proof {
                    assert(spec_read_chunk(self.bytes@) == Ok::<(BytecodeView, int), CodecError>(
                        (bytecode_view(bc), n as int),
                    ));
                }
                Ok(bc)
            },
            Err(e) => Err(e),
        }
    }
}

impl crate::types::Bytecode for Bytecode {
    fn identifier() -> &'static str {
        "luajit-v2"
    }

    fn display_name() -> &'static str {
        "LuaJIT v2"
    }
}

impl<'a> crate::disassembler::Disassemble<Bytecode> for Disassembler<'a> {
    type Error = CodecError;

    fn disassemble(self) -> Result<Bytecode, CodecError> {
        Disassembler::disassemble(self)
    }
}

} // verus!
