//! The Lua 5.4 bytecode codec: a fixed-layout header with integrity
//! sample values, one size-of-upvalue-entry byte, then the root prototype
//! decoded by recursive descent in strict wire order.  Sizes and line
//! numbers travel as most-significant-first varints; the `size_t` width
//! field is gone from the wire, and its absence is modeled as a zero in
//! the context rather than silently defaulted.

pub mod constants;
pub mod debug_info;
pub mod instructions;
pub mod upvalues;

use vstd::prelude::*;
use crate::CommonCtx;
use crate::Endianness;
use crate::Version;
use crate::array::Array;
use crate::array::spec_read_array_size;
use crate::codec::spec_read_list;
use crate::error::CodecError;
use crate::reader::read_u8;
use crate::reader::read_u64;
use crate::reader::spec_read_u8;
use crate::reader::spec_read_u64;
use crate::unsigned::LuaUnsigned;
use crate::unsigned::spec_read_unsigned;
use crate::string::LuaString;
use crate::string::StringView;
use crate::string::spec_read_string;
use crate::lua54::constants::Constant;
use crate::lua54::constants::ConstView;
use crate::lua54::constants::const_views;
use crate::lua54::constants::lemma_const_views_push;
use crate::lua54::constants::spec_read_constant;
use crate::lua54::debug_info::DebugInfo;
use crate::lua54::debug_info::DebugView;
use crate::lua54::debug_info::debug_view;
use crate::lua54::debug_info::spec_read_debug;
use crate::lua54::instructions::Instruction;
use crate::lua54::instructions::read_instr_list;
use crate::lua54::instructions::spec_read_instr;
use crate::lua54::upvalues::Upvalue;
use crate::lua54::upvalues::read_upvalue_list;
use crate::lua54::upvalues::spec_read_upvalue;

verus! {

/// The fixed-layout Lua 5.4 chunk header, including the sample integer
/// and float values used to detect corrupt or foreign-architecture
/// dumps.  The float sample is carried as its IEEE-754 bit pattern.
#[derive(Debug, Clone)]
pub struct Header {
    pub signature: [u8; 4],
    pub version: Version,
    pub format_version: u8,
    pub error_correction_data: [u8; 6],
    pub size_of_instruction: u8,
    pub size_of_integer: u8,
    pub size_of_number: u8,
    pub luac_int: u64,
    /// The IEEE-754 bit pattern of the sample float.
    pub luac_num: u64,
}

/// The mathematical shape of a header.
pub struct HeaderView {
    pub signature: Seq<u8>,
    pub version: Version,
    pub format_version: u8,
    pub error_correction_data: Seq<u8>,
    pub size_of_instruction: u8,
    pub size_of_integer: u8,
    pub size_of_number: u8,
    pub luac_int: u64,
    pub luac_num: u64,
}

/// The shape of a header value.
pub open spec fn header_view(h: Header) -> HeaderView {
    HeaderView {
        signature: h.signature@,
        version: h.version,
        format_version: h.format_version,
        error_correction_data: h.error_correction_data@,
        size_of_instruction: h.size_of_instruction,
        size_of_integer: h.size_of_integer,
        size_of_number: h.size_of_number,
        luac_int: h.luac_int,
        luac_num: h.luac_num,
    }
}

/// What reading a Lua 5.4 header at `pos` yields.  The signature bytes
/// and the version tag are validated before anything else is read: a
/// wrong signature is an invalid tag, and a version other than 5.4 is
/// unsupported here.
pub open spec fn spec_read_header(b: Seq<u8>, pos: int) -> Result<(HeaderView, int), CodecError> {
    if pos + 31 > b.len() {
        Err(CodecError::Truncated)
    } else if b.subrange(pos, pos + 4) != crate::lua51::spec_signature() {
        Err(CodecError::InvalidTag)
    } else if Version::spec_from_tag(b[pos + 4]) != (Version { major: 5, minor: 4 }) {
        Err(CodecError::UnsupportedVersion)
    } else {
        match (spec_read_u64(b, pos + 15, Endianness::Little), spec_read_u64(
            b,
            pos + 23,
            Endianness::Little,
        )) {
            (Ok((luac_int, _n1)), Ok((luac_num, _n2))) => Ok(
                (
                    HeaderView {
                        signature: b.subrange(pos, pos + 4),
                        version: Version::spec_from_tag(b[pos + 4]),
                        format_version: b[pos + 5],
                        error_correction_data: b.subrange(pos + 6, pos + 12),
                        size_of_instruction: b[pos + 12],
                        size_of_integer: b[pos + 13],
                        size_of_number: b[pos + 14],
                        luac_int,
                        luac_num,
                    },
                    pos + 31,
                ),
            ),
            _ => Err(CodecError::Truncated),
        }
    }
}

/// The nested prototypes of one prototype, with the declared count from
/// the wire; a concrete counterpart of `Array` for the recursive field.
#[derive(Debug)]
pub struct PrototypeList {
    pub size: usize,
    pub data: Vec<Prototype>,
}

impl PrototypeList {
    /// The decoded size field always equals the number of children.
    pub open spec fn wf(&self) -> bool {
        self.size == self.data@.len()
    }
}

/// One node of the prototype tree: a compiled function body with its
/// instructions, constants, upvalues, nested prototypes and debug
/// metadata.  Each prototype exclusively owns its children.
#[derive(Debug)]
pub struct Prototype {
    pub source: LuaString,
    pub line_defined: LuaUnsigned,
    pub last_line_defined: LuaUnsigned,
    pub number_of_parameters: u8,
    pub is_vararg: u8,
    pub max_stack_size: u8,
    pub instructions: Array<Instruction>,
    pub constants: Array<Constant>,
    pub upvalues: Array<Upvalue>,
    pub prototypes: PrototypeList,
    pub debug_info: DebugInfo,
}

/// The mathematical shape of a prototype tree node.
pub struct ProtoView {
    pub source: StringView,
    pub line_defined: LuaUnsigned,
    pub last_line_defined: LuaUnsigned,
    pub number_of_parameters: u8,
    pub is_vararg: u8,
    pub max_stack_size: u8,
    pub instructions: Seq<Instruction>,
    pub constants: Seq<ConstView>,
    pub upvalues: Seq<Upvalue>,
    pub prototypes: Seq<ProtoView>,
    pub debug_info: DebugView,
}

/// The shape of a prototype value.
pub open spec fn proto_view(p: Prototype) -> ProtoView
    decreases p,
{
    ProtoView {
        source: p.source@,
        line_defined: p.line_defined,
        last_line_defined: p.last_line_defined,
        number_of_parameters: p.number_of_parameters,
        is_vararg: p.is_vararg,
        max_stack_size: p.max_stack_size,
        instructions: p.instructions.data@,
        constants: const_views(p.constants.data@),
        upvalues: p.upvalues.data@,
        prototypes: proto_views(p.prototypes.data@),
        debug_info: debug_view(p.debug_info),
    }
}

/// The shapes of a sequence of prototypes, in order.
pub open spec fn proto_views(s: Seq<Prototype>) -> Seq<ProtoView>
    decreases s, s.len(),
{
    if s.len() == 0 {
        Seq::empty()
    } else {
        proto_views(s.drop_last()).push(proto_view(s.last()))
    }
}

/// Appending a prototype appends its shape.
pub proof fn lemma_proto_views_push(s: Seq<Prototype>, x: Prototype)
    ensures
        proto_views(s.push(x)) == proto_views(s).push(proto_view(x)),
{
    assert(s.push(x).drop_last() =~= s);
    assert(s.push(x).last() == x);
}

/// A well-formed prototype: every array's size field equals its element
/// count, every string is well formed, every instruction is
/// constructible, and the same holds of every nested prototype.
pub open spec fn proto_wf(p: Prototype) -> bool
    decreases p,
{
    &&& p.source@.wf()
    &&& p.instructions.wf()
    &&& p.constants.wf()
    &&& p.upvalues.wf()
    &&& p.prototypes.wf()
    &&& p.debug_info.line_info.wf()
    &&& p.debug_info.local_variables.wf()
    &&& p.debug_info.upvalues.wf()
    &&& forall|i: int|
        0 <= i < p.instructions.data@.len() ==> instructions::spec_wf(
            #[trigger] p.instructions.data@[i],
        )
    &&& forall|i: int|
        0 <= i < p.constants.data@.len() ==> (#[trigger] constants::const_view(
            p.constants.data@[i],
        )).wf()
    &&& protos_wf(p.prototypes.data@)
}

/// Well-formedness of a sequence of prototypes.
pub open spec fn protos_wf(s: Seq<Prototype>) -> bool
    decreases s, s.len(),
{
    if s.len() == 0 {
        true
    } else {
        protos_wf(s.drop_last()) && proto_wf(s.last())
    }
}

/// What reading a prototype at `pos` yields, in strict 5.4 field order:
/// source name, defined-line range, scalar fields, instruction array,
/// constant array, upvalue array, nested prototypes, debug block.  The
/// fuel bounds the nesting depth; any fuel larger than the remaining byte
/// count is enough, and `None` is never seen from such a call.
pub open spec fn spec_read_proto(b: Seq<u8>, pos: int, ctx: CommonCtx, fuel: nat) -> Option<
    Result<(ProtoView, int), CodecError>,
>
    decreases fuel, 0nat, 1nat,
{
    if fuel == 0 {
        None
    } else {
        match spec_read_string(b, pos, ctx) {
            Err(e) => Some(Err(e)),
            Ok((source, p1)) => match spec_read_unsigned(b, p1) {
                Err(e) => Some(Err(e)),
                Ok((line_defined, p2)) => match spec_read_unsigned(b, p2) {
                    Err(e) => Some(Err(e)),
                    Ok((last_line_defined, p3)) => match spec_read_u8(b, p3) {
                        Err(e) => Some(Err(e)),
                        Ok((nparams, p4)) => match spec_read_u8(b, p4) {
                            Err(e) => Some(Err(e)),
                            Ok((vararg, p5)) => match spec_read_u8(b, p5) {
                                Err(e) => Some(Err(e)),
                                Ok((maxstack, p6)) => spec_read_proto_body(
                                    b,
                                    p6,
                                    ctx,
                                    fuel,
                                    source,
                                    LuaUnsigned { value: line_defined },
                                    LuaUnsigned { value: last_line_defined },
                                    nparams,
                                    vararg,
                                    maxstack,
                                ),
                            },
                        },
                    },
                },
            },
        }
    }
}

/// The remainder of a prototype after its scalar fields: the four
/// arrays and the debug block.
pub open spec fn spec_read_proto_body(
    b: Seq<u8>,
    p6: int,
    ctx: CommonCtx,
    fuel: nat,
    source: StringView,
    line_defined: LuaUnsigned,
    last_line_defined: LuaUnsigned,
    nparams: u8,
    vararg: u8,
    maxstack: u8,
) -> Option<Result<(ProtoView, int), CodecError>>
    decreases fuel, 0nat, 0nat,
{
    if fuel == 0 {
        None
    } else {
        match spec_read_array_size(b, p6, ctx) {
            Err(e) => Some(Err(e)),
            Ok((n_code, p7)) => match spec_read_list(
                p7,
                n_code as nat,
                |p: int| spec_read_instr(b, p, ctx),
                Seq::empty(),
            ) {
                Err(e) => Some(Err(e)),
                Ok((code, p8)) => match spec_read_array_size(b, p8, ctx) {
                    Err(e) => Some(Err(e)),
                    Ok((n_const, p9)) => match spec_read_list(
                        p9,
                        n_const as nat,
                        |p: int| spec_read_constant(b, p, ctx),
                        Seq::empty(),
                    ) {
                        Err(e) => Some(Err(e)),
                        Ok((consts, p10)) => match spec_read_array_size(b, p10, ctx) {
                            Err(e) => Some(Err(e)),
                            Ok((n_ups, p11)) => match spec_read_list(
                                p11,
                                n_ups as nat,
                                |p: int| spec_read_upvalue(b, p),
                                Seq::empty(),
                            ) {
                                Err(e) => Some(Err(e)),
                                Ok((ups, p12)) => match spec_read_array_size(b, p12, ctx) {
                                    Err(e) => Some(Err(e)),
                                    Ok((n_protos, p13)) => match spec_read_protos(
                                        b,
                                        p13,
                                        ctx,
                                        n_protos as nat,
                                        (fuel - 1) as nat,
                                        Seq::empty(),
                                    ) {
                                        None => None,
                                        Some(Err(e)) => Some(Err(e)),
                                        Some(Ok((protos, p14))) => match spec_read_debug(
                                            b,
                                            p14,
                                            ctx,
                                        ) {
                                            Err(e) => Some(Err(e)),
                                            Ok((dbg, p15)) => Some(
                                                Ok(
                                                    (
                                                        ProtoView {
                                                            source,
                                                            line_defined,
                                                            last_line_defined,
                                                            number_of_parameters: nparams,
                                                            is_vararg: vararg,
                                                            max_stack_size: maxstack,
                                                            instructions: code,
                                                            constants: consts,
                                                            upvalues: ups,
                                                            prototypes: protos,
                                                            debug_info: dbg,
                                                        },
                                                        p15,
                                                    ),
                                                ),
                                            ),
                                        },
                                    },
                                },
                            },
                        },
                    },
                },
            },
        }
    }
}

/// What reading `n` consecutive nested prototypes yields, with the given
/// fuel for each.
pub open spec fn spec_read_protos(
    b: Seq<u8>,
    pos: int,
    ctx: CommonCtx,
    n: nat,
    fuel: nat,
    acc: Seq<ProtoView>,
) -> Option<Result<(Seq<ProtoView>, int), CodecError>>
    decreases fuel, n, 2nat,
{
    if n == 0 {
        Some(Ok((acc, pos)))
    } else {
        match spec_read_proto(b, pos, ctx, fuel) {
            None => None,
            Some(Err(e)) => Some(Err(e)),
            Some(Ok((pv, q))) => spec_read_protos(b, q, ctx, (n - 1) as nat, fuel, acc.push(pv)),
        }
    }
}

/// A whole chunk's shape: its header, the size-of-upvalue-entry byte,
/// and the root prototype tree.
pub struct BytecodeView {
    pub header: HeaderView,
    pub size_of_upvalues: u8,
    pub prototype: ProtoView,
}

/// What decoding a whole 5.4 chunk yields: the header, one
/// size-of-upvalue-entry byte, then the root prototype under the context
/// the header establishes.
pub open spec fn spec_read_chunk(b: Seq<u8>) -> Result<(BytecodeView, int), CodecError> {
    match spec_read_header(b, 0) {
        Err(e) => Err(e),
        Ok((h, p0)) => match spec_read_u8(b, p0) {
            Err(e) => Err(e),
            Ok((size_of_upvalues, p)) => {
                let ctx = CommonCtx {
                    size_of_size_t: 0,
                    lua_version: h.version,
                    endianness: Endianness::Little,
                };
                match spec_read_proto(b, p, ctx, (b.len() + 1) as nat) {
                    None => Err(CodecError::Truncated),
                    Some(Err(e)) => Err(e),
                    Some(Ok((pv, n))) => Ok(
                        (BytecodeView { header: h, size_of_upvalues, prototype: pv }, n),
                    ),
                }
            },
        },
    }
}

impl Header {
    /// Reads and validates a Lua 5.4 header at `offset`.
    pub fn read(src: &[u8], offset: usize) -> (r: Result<(Header, usize), CodecError>)
        ensures
            match r {
                Ok((h, n)) => spec_read_header(src@, offset as int) == Ok::<
                    (HeaderView, int),
                    CodecError,
                >((header_view(h), n as int)) && n == offset + 31 && offset <= n <= src@.len()
                    && h.version == (Version { major: 5, minor: 4 }),
                Err(e) => spec_read_header(src@, offset as int) == Err::<
                    (HeaderView, int),
                    CodecError,
                >(e),
            },
    {
        if offset > src.len() || src.len() - offset < 31 {
            return Err(CodecError::Truncated);
        }
        let s0 = *vstd::slice::slice_index_get(src, offset);
        let s1 = *vstd::slice::slice_index_get(src, offset + 1);
        let s2 = *vstd::slice::slice_index_get(src, offset + 2);
        let s3 = *vstd::slice::slice_index_get(src, offset + 3);
        if s0 != 0x1b || s1 != 0x4c || s2 != 0x75 || s3 != 0x61 {
            proof {
                assert(src@.subrange(offset as int, offset + 4) != crate::lua51::spec_signature());
            }
            return Err(CodecError::InvalidTag);
        }
        proof {
            assert(src@.subrange(offset as int, offset + 4) =~= crate::lua51::spec_signature());
        }
        let version = Version::from_tag(*vstd::slice::slice_index_get(src, offset + 4));
        if version.major != 5 || version.minor != 4 {
            return Err(CodecError::UnsupportedVersion);
        }
        let e0 = *vstd::slice::slice_index_get(src, offset + 6);
        let e1 = *vstd::slice::slice_index_get(src, offset + 7);
        let e2 = *vstd::slice::slice_index_get(src, offset + 8);
        let e3 = *vstd::slice::slice_index_get(src, offset + 9);
        let e4 = *vstd::slice::slice_index_get(src, offset + 10);
        let e5 = *vstd::slice::slice_index_get(src, offset + 11);
        let (luac_int, _n1) = match read_u64(src, offset + 15, Endianness::Little) {
            Ok(x) => x,
            Err(e) => {
                return Err(e);
            },
        };
        let (luac_num, _n2) = match read_u64(src, offset + 23, Endianness::Little) {
            Ok(x) => x,
            Err(e) => {
                return Err(e);
            },
        };
        let h = Header {
            signature: [s0, s1, s2, s3],
            version,
            format_version: *vstd::slice::slice_index_get(src, offset + 5),
            error_correction_data: [e0, e1, e2, e3, e4, e5],
            size_of_instruction: *vstd::slice::slice_index_get(src, offset + 12),
            size_of_integer: *vstd::slice::slice_index_get(src, offset + 13),
            size_of_number: *vstd::slice::slice_index_get(src, offset + 14),
            luac_int,
            luac_num,
        };
        proof {
            assert(h.signature@ =~= src@.subrange(offset as int, offset + 4));
            assert(h.error_correction_data@ =~= src@.subrange(offset + 6, offset + 12));
        }
        Ok((h, offset + 31))
    }
}

/// Reads `n` consecutive constants.
#[verifier::loop_isolation(false)]
fn read_const_list(src: &[u8], offset: usize, n: usize, ctx: CommonCtx) -> (r: Result<
    (Vec<Constant>, usize),
    CodecError,
>)
    requires
        offset <= src@.len(),
    ensures
        ({
            let s = spec_read_list(
                offset as int,
                n as nat,
                |p: int| spec_read_constant(src@, p, ctx),
                Seq::<ConstView>::empty(),
            );
            match r {
                Ok((v, m)) => s == Ok::<(Seq<ConstView>, int), CodecError>(
                    (const_views(v@), m as int),
                ) && offset <= m <= src@.len() && v@.len() == n && (forall|j: int|
                    0 <= j < v@.len() ==> (#[trigger] constants::const_view(v@[j])).wf()),
                Err(err) => s == Err::<(Seq<ConstView>, int), CodecError>(err),
            }
        }),
{
    let ghost f = |p: int| spec_read_constant(src@, p, ctx);
    let mut out: Vec<Constant> = Vec::new();
    let mut pos: usize = offset;
    let mut i: usize = 0;
    proof {
        assert(const_views(out@) =~= Seq::<ConstView>::empty());
    }
    while i < n
        invariant
            0 <= i <= n,
            offset <= pos <= src@.len(),
            out@.len() == i,
            forall|j: int|
                0 <= j < out@.len() ==> (#[trigger] constants::const_view(out@[j])).wf(),
            spec_read_list(pos as int, (n - i) as nat, f, const_views(out@)) == spec_read_list(
                offset as int,
                n as nat,
                f,
                Seq::<ConstView>::empty(),
            ),
        decreases n - i,
    {
        match Constant::read(src, pos, ctx) {
            Ok((x, q)) => {
                proof {
                    lemma_const_views_push(out@, x);
                }
                out.push(x);
                pos = q;
                i = i + 1;
            },
            Err(err) => {
                return Err(err);
            },
        }
    }
    Ok((out, pos))
}

/// Reads a whole prototype at `offset`.  The ghost fuel mirrors the
/// specification's nesting allowance; any value above the remaining byte
/// count satisfies it.
#[verifier::loop_isolation(false)]
fn read_proto(src: &[u8], offset: usize, ctx: CommonCtx, Ghost(fuel): Ghost<nat>) -> (r: Result<
    (Prototype, usize),
    CodecError,
>)
    requires
        offset <= src@.len(),
        fuel > src@.len() - offset,
    ensures
        match r {
            Ok((p, n)) => spec_read_proto(src@, offset as int, ctx, fuel) == Some(
                Ok::<(ProtoView, int), CodecError>((proto_view(p), n as int)),
            ) && proto_wf(p) && offset < n <= src@.len(),
            Err(e) => spec_read_proto(src@, offset as int, ctx, fuel) == Some(
                Err::<(ProtoView, int), CodecError>(e),
            ),
        },
    decreases src@.len() - offset,
{
    let (source, p1) = match LuaString::read(src, offset, ctx) {
        Ok(x) => x,
        Err(e) => {
            return Err(e);
        },
    };
    let (line_defined, p2) = match LuaUnsigned::decode(src, p1) {
        Ok(x) => x,
        Err(e) => {
            return Err(e);
        },
    };
    let (last_line_defined, p3) = match LuaUnsigned::decode(src, p2) {
        Ok(x) => x,
        Err(e) => {
            return Err(e);
        },
    };
    let (number_of_parameters, p4) = match read_u8(src, p3) {
        Ok(x) => x,
        Err(e) => {
            return Err(e);
        },
    };
    let (is_vararg, p5) = match read_u8(src, p4) {
        Ok(x) => x,
        Err(e) => {
            return Err(e);
        },
    };
    let (max_stack_size, p6) = match read_u8(src, p5) {
        Ok(x) => x,
        Err(e) => {
            return Err(e);
        },
    };
    let mut pos: usize = p6;
    let n_code = match Array::<Instruction>::read_size(src, &mut pos, ctx) {
        Ok(n) => n,
        Err(e) => {
            return Err(e);
        },
    };
    let (code, p8) = match read_instr_list(src, pos, n_code, ctx) {
        Ok(x) => x,
        Err(e) => {
            return Err(e);
        },
    };
    pos = p8;
    let n_const = match Array::<Constant>::read_size(src, &mut pos, ctx) {
        Ok(n) => n,
        Err(e) => {
            return Err(e);
        },
    };
    let (consts, p10) = match read_const_list(src, pos, n_const, ctx) {
        Ok(x) => x,
        Err(e) => {
            return Err(e);
        },
    };
    pos = p10;
    let n_ups = match Array::<Upvalue>::read_size(src, &mut pos, ctx) {
        Ok(n) => n,
        Err(e) => {
            return Err(e);
        },
    };
    let (ups, p12) = match read_upvalue_list(src, pos, n_ups, ctx) {
        Ok(x) => x,
        Err(e) => {
            return Err(e);
        },
    };
    pos = p12;
    let n_protos = match Array::<u8>::read_size(src, &mut pos, ctx) {
        Ok(n) => n,
        Err(e) => {
            return Err(e);
        },
    };
    let p13: usize = pos;
    let ghost inner_fuel = (fuel - 1) as nat;
    let mut protos: Vec<Prototype> = Vec::new();
    let mut i: usize = 0;
    proof {
        assert(proto_views(protos@) =~= Seq::<ProtoView>::empty());
    }
    while i < n_protos
        invariant
            0 <= i <= n_protos,
            p13 <= pos <= src@.len(),
            protos@.len() == i,
            protos_wf(protos@),
            spec_read_protos(
                src@,
                pos as int,
                ctx,
                (n_protos - i) as nat,
                inner_fuel,
                proto_views(protos@),
            ) == spec_read_protos(
                src@,
                p13 as int,
                ctx,
                n_protos as nat,
                inner_fuel,
                Seq::<ProtoView>::empty(),
            ),
        decreases n_protos - i,
    {
        match read_proto(src, pos, ctx, Ghost(inner_fuel)) {
            Ok((child, q)) => {
                proof {
                    lemma_proto_views_push(protos@, child);
                    assert(protos@.push(child).drop_last() =~= protos@);
                    assert(protos_wf(protos@.push(child)));
                }
                protos.push(child);
                pos = q;
                i = i + 1;
            },
            Err(e) => {
                return Err(e);
            },
        }
    }
    let (dbg, p15) = match DebugInfo::read(src, pos, ctx) {
        Ok(x) => x,
        Err(e) => {
            return Err(e);
        },
    };
    let p = Prototype {
        source,
        line_defined,
        last_line_defined,
        number_of_parameters,
        is_vararg,
        max_stack_size,
        instructions: Array { size: n_code, data: code },
        constants: Array { size: n_const, data: consts },
        upvalues: Array { size: n_ups, data: ups },
        prototypes: PrototypeList { size: n_protos, data: protos },
        debug_info: dbg,
    };
    Ok((p, p15))
}

/// A whole decoded 5.4 chunk: its header, the size-of-upvalue-entry byte
/// from the outer chunk, and the root prototype.
#[derive(Debug)]
pub struct Bytecode {
    pub header: Header,
    pub size_of_upvalues: u8,
    pub prototype: Prototype,
}

/// The shape of a decoded chunk.
pub open spec fn bytecode_view(bc: Bytecode) -> BytecodeView {
    BytecodeView {
        header: header_view(bc.header),
        size_of_upvalues: bc.size_of_upvalues,
        prototype: proto_view(bc.prototype),
    }
}

/// The entry point for decoding Lua 5.4 chunks from an in-memory buffer.
pub struct Disassembler<'a> {
    pub bytes: &'a [u8],
}

impl<'a> Disassembler<'a> {
    /// Wraps a buffer holding a complete chunk.
    pub fn new(bytes: &'a [u8]) -> (r: Self)
        ensures
            r.bytes@ == bytes@,
    {
        Self { bytes }
    }

    /// Decodes the whole chunk: the header, the size-of-upvalue-entry
    /// byte, then the root prototype under the context the header
    /// establishes.  Returns the complete, internally consistent tree,
    /// or the first failure.
    pub fn disassemble(self) -> (r: Result<Bytecode, CodecError>)
        ensures
            match r {
                Ok(bc) => (exists|n: int|
                    spec_read_chunk(self.bytes@) == Ok::<(BytecodeView, int), CodecError>(
                        (bytecode_view(bc), n),
                    )) && proto_wf(bc.prototype),
                Err(e) => spec_read_chunk(self.bytes@) == Err::<(BytecodeView, int), CodecError>(
                    e,
                ),
            },
    {
        let (header, p0) = match Header::read(self.bytes, 0) {
            Ok(x) => x,
            Err(e) => {
                return Err(e);
            },
        };
        let (size_of_upvalues, p) = match read_u8(self.bytes, p0) {
            Ok(x) => x,
            Err(e) => {
                return Err(e);
            },
        };
        let ctx = CommonCtx {
            size_of_size_t: 0,
            lua_version: header.version,
            endianness: Endianness::Little,
        };
        match read_proto(self.bytes, p, ctx, Ghost((self.bytes@.len() + 1) as nat)) {
            Ok((prototype, n)) => {
                let bc = Bytecode { header, size_of_upvalues, prototype };
                proof {
                    assert(spec_read_chunk(self.bytes@) == Ok::<(BytecodeView, int), CodecError>(
                        (bytecode_view(bc), n as int),
                    ));
                }
                Ok(bc)
            },
            Err(e) => Err(e),
        }
    }
}

} // verus!

verus! {

/// Decoding a well-formed chunk recovers exactly the version the dump's
/// tag byte declares, here 5.4, and header size fields that match the
/// dump's architecture bytes.
pub proof fn lemma_chunk_version(b: Seq<u8>)
    ensures
        spec_read_chunk(b) matches Ok(r) ==> {
            &&& b.len() >= 31
            &&& r.0.header.version == Version::spec_from_tag(b[4])
            &&& r.0.header.version == (Version { major: 5, minor: 4 })
            &&& r.0.header.size_of_instruction == b[12]
            &&& r.0.header.size_of_integer == b[13]
            &&& r.0.header.size_of_number == b[14]
        },
{
}

} // verus!
