//! The Lua 5.4 debug information codec.  The flat per-instruction line
//! table of earlier versions is replaced by a byte-sized delta table plus
//! a sparse table of absolute line anchors; the local-variable live
//! ranges are size varints rather than fixed-width integers.

use vstd::prelude::*;
use crate::CommonCtx;
use crate::array::Array;
use crate::array::spec_read_array_size;
use crate::codec::read_u8_list;
use crate::codec::read_string_list;
use crate::codec::spec_read_list;
use crate::error::CodecError;
use crate::reader::spec_read_u8;
use crate::string::LuaString;
use crate::string::StringView;
use crate::string::spec_read_string;
use crate::string::string_views;
use crate::unsigned::LuaUnsigned;
use crate::unsigned::spec_read_unsigned;

verus! {

/// Debug metadata for one prototype.
#[derive(Debug, Clone)]
pub struct DebugInfo {
    /// Per-instruction line deltas, relative to the preceding anchor
    pub line_info: Array<u8>,
    /// Sparse absolute line anchors
    pub abs_line_info: Array<AbsLineInfo>,
    /// Information about local variables
    pub local_variables: Array<LocalVariable>,
    /// Upvalue names
    pub upvalues: Array<LuaString>,
}

/// One absolute line anchor: an instruction index and the source line it
/// maps to.  Deltas after this anchor are relative to it.
#[derive(Debug, Copy, Clone, PartialEq, Eq, Structural)]
pub struct AbsLineInfo {
    pub pc: LuaUnsigned,
    pub line: LuaUnsigned,
}

/// One local variable's debug record.
#[derive(Debug, Clone)]
pub struct LocalVariable {
    pub name: LuaString,
    /// first point where variable is active
    pub start_pc: LuaUnsigned,
    /// first point where variable is dead
    pub end_pc: LuaUnsigned,
}

/// The mathematical shape of a local-variable record.
pub struct LocalView {
    pub name: StringView,
    pub start_pc: LuaUnsigned,
    pub end_pc: LuaUnsigned,
}

/// The mathematical shape of a debug block.
pub struct DebugView {
    pub line_info: Seq<u8>,
    pub abs_line_info: Seq<AbsLineInfo>,
    pub local_variables: Seq<LocalView>,
    pub upvalues: Seq<StringView>,
}

/// The shape of a local-variable record.
pub open spec fn local_view(lv: LocalVariable) -> LocalView {
    LocalView { name: lv.name@, start_pc: lv.start_pc, end_pc: lv.end_pc }
}

/// The shapes of a sequence of local-variable records, in order.
pub open spec fn local_views(s: Seq<LocalVariable>) -> Seq<LocalView>
    decreases s, s.len(),
{
    if s.len() == 0 {
        Seq::empty()
    } else {
        local_views(s.drop_last()).push(local_view(s.last()))
    }
}

/// Appending a record appends its shape.
pub proof fn lemma_local_views_push(s: Seq<LocalVariable>, x: LocalVariable)
    ensures
        local_views(s.push(x)) == local_views(s).push(local_view(x)),
{
    assert(s.push(x).drop_last() =~= s);
    assert(s.push(x).last() == x);
}

/// The shape of a debug block.
pub open spec fn debug_view(d: DebugInfo) -> DebugView {
    DebugView {
        line_info: d.line_info.data@,
        abs_line_info: d.abs_line_info.data@,
        local_variables: local_views(d.local_variables.data@),
        upvalues: string_views(d.upvalues.data@),
    }
}

/// What reading an absolute line anchor at `pos` yields: two size
/// varints.
pub open spec fn spec_read_absline(b: Seq<u8>, pos: int) -> Result<(AbsLineInfo, int), CodecError> {
    match spec_read_unsigned(b, pos) {
        Err(e) => Err(e),
        Ok((pc, p1)) => match spec_read_unsigned(b, p1) {
            Err(e) => Err(e),
            Ok((line, p2)) => Ok(
                (AbsLineInfo { pc: LuaUnsigned { value: pc }, line: LuaUnsigned { value: line } }, p2),
            ),
        },
    }
}

/// What reading a local-variable record at `pos` yields: its name, then
/// two size varints bounding its live range.
pub open spec fn spec_read_localvar(b: Seq<u8>, pos: int, ctx: CommonCtx) -> Result<
    (LocalView, int),
    CodecError,
> {
    match spec_read_string(b, pos, ctx) {
        Err(e) => Err(e),
        Ok((name, p1)) => match spec_read_unsigned(b, p1) {
            Err(e) => Err(e),
            Ok((start_pc, p2)) => match spec_read_unsigned(b, p2) {
                Err(e) => Err(e),
                Ok((end_pc, p3)) => Ok(
                    (
                        LocalView {
                            name,
                            start_pc: LuaUnsigned { value: start_pc },
                            end_pc: LuaUnsigned { value: end_pc },
                        },
                        p3,
                    ),
                ),
            },
        },
    }
}

/// What reading a debug block at `pos` yields: the delta line table, the
/// absolute anchors, the local-variable table and the upvalue-name
/// table, each with its own length prefix.
pub open spec fn spec_read_debug(b: Seq<u8>, pos: int, ctx: CommonCtx) -> Result<
    (DebugView, int),
    CodecError,
> {
    match spec_read_array_size(b, pos, ctx) {
        Err(e) => Err(e),
        Ok((n1, p1)) => match spec_read_list(
            p1,
            n1 as nat,
            |p: int| spec_read_u8(b, p),
            Seq::empty(),
        ) {
            Err(e) => Err(e),
            Ok((lines, p2)) => match spec_read_array_size(b, p2, ctx) {
                Err(e) => Err(e),
                Ok((n2, p3)) => match spec_read_list(
                    p3,
                    n2 as nat,
                    |p: int| spec_read_absline(b, p),
                    Seq::empty(),
                ) {
                    Err(e) => Err(e),
                    Ok((anchors, p4)) => match spec_read_array_size(b, p4, ctx) {
                        Err(e) => Err(e),
                        Ok((n3, p5)) => match spec_read_list(
                            p5,
                            n3 as nat,
                            |p: int| spec_read_localvar(b, p, ctx),
                            Seq::empty(),
                        ) {
                            Err(e) => Err(e),
                            Ok((locals, p6)) => match spec_read_array_size(b, p6, ctx) {
                                Err(e) => Err(e),
                                Ok((n4, p7)) => match spec_read_list(
                                    p7,
                                    n4 as nat,
                                    |p: int| spec_read_string(b, p, ctx),
                                    Seq::empty(),
                                ) {
                                    Err(e) => Err(e),
                                    Ok((ups, p8)) => Ok(
                                        (
                                            DebugView {
                                                line_info: lines,
                                                abs_line_info: anchors,
                                                local_variables: locals,
                                                upvalues: ups,
                                            },
                                            p8,
                                        ),
                                    ),
                                },
                            },
                        },
                    },
                },
            },
        },
    }
}

impl AbsLineInfo {
    /// Reads one absolute line anchor at `offset`.
    pub fn read(src: &[u8], offset: usize) -> (r: Result<(AbsLineInfo, usize), CodecError>)
        ensures
            match r {
                Ok((a, n)) => spec_read_absline(src@, offset as int) == Ok::<
                    (AbsLineInfo, int),
                    CodecError,
                >((a, n as int)) && offset <= n <= src@.len(),
                Err(e) => spec_read_absline(src@, offset as int) == Err::<
                    (AbsLineInfo, int),
                    CodecError,
                >(e),
            },
    {
        match LuaUnsigned::decode(src, offset) {
            Err(e) => Err(e),
            Ok((pc, p1)) => match LuaUnsigned::decode(src, p1) {
                Err(e) => Err(e),
                Ok((line, p2)) => Ok((AbsLineInfo { pc, line }, p2)),
            },
        }
    }
}

impl LocalVariable {
    /// Reads one local-variable record at `offset`.
    pub fn read(src: &[u8], offset: usize, ctx: CommonCtx) -> (r: Result<
        (LocalVariable, usize),
        CodecError,
    >)
        ensures
            match r {
                Ok((lv, n)) => spec_read_localvar(src@, offset as int, ctx) == Ok::<
                    (LocalView, int),
                    CodecError,
                >((local_view(lv), n as int)) && local_view(lv).name.wf() && offset <= n
                    <= src@.len(),
                Err(e) => spec_read_localvar(src@, offset as int, ctx) == Err::<
                    (LocalView, int),
                    CodecError,
                >(e),
            },
    {
        match LuaString::read(src, offset, ctx) {
            Err(e) => Err(e),
            Ok((name, p1)) => match LuaUnsigned::decode(src, p1) {
                Err(e) => Err(e),
                Ok((start_pc, p2)) => match LuaUnsigned::decode(src, p2) {
                    Err(e) => Err(e),
                    Ok((end_pc, p3)) => Ok((LocalVariable { name, start_pc, end_pc }, p3)),
                },
            },
        }
    }
}

/// Reads `n` consecutive absolute line anchors.
#[verifier::loop_isolation(false)]
fn read_absline_list(src: &[u8], offset: usize, n: usize) -> (r: Result<
    (Vec<AbsLineInfo>, usize),
    CodecError,
>)
    requires
        offset <= src@.len(),
    ensures
        ({
            let s = spec_read_list(
                offset as int,
                n as nat,
                |p: int| spec_read_absline(src@, p),
                Seq::<AbsLineInfo>::empty(),
            );
            match r {
                Ok((v, m)) => s == Ok::<(Seq<AbsLineInfo>, int), CodecError>((v@, m as int))
                    && offset <= m <= src@.len() && v@.len() == n,
                Err(err) => s == Err::<(Seq<AbsLineInfo>, int), CodecError>(err),
            }
        }),
{
    let ghost f = |p: int| spec_read_absline(src@, p);
    let mut out: Vec<AbsLineInfo> = Vec::new();
    let mut pos: usize = offset;
    let mut i: usize = 0;
    while i < n
        invariant
            0 <= i <= n,
            offset <= pos <= src@.len(),
            out@.len() == i,
            spec_read_list(pos as int, (n - i) as nat, f, out@) == spec_read_list(
                offset as int,
                n as nat,
                f,
                Seq::<AbsLineInfo>::empty(),
            ),
        decreases n - i,
    {
        match AbsLineInfo::read(src, pos) {
            Ok((x, q)) => {
                out.push(x);
                pos = q;
                i = i + 1;
            },
            Err(err) => {
                return Err(err);
            },
        }
    }
    Ok((out, pos))
}

/// Reads `n` consecutive local-variable records.
#[verifier::loop_isolation(false)]
fn read_local_list(src: &[u8], offset: usize, n: usize, ctx: CommonCtx) -> (r: Result<
    (Vec<LocalVariable>, usize),
    CodecError,
>)
    requires
        offset <= src@.len(),
    ensures
        ({
            let s = spec_read_list(
                offset as int,
                n as nat,
                |p: int| spec_read_localvar(src@, p, ctx),
                Seq::<LocalView>::empty(),
            );
            match r {
                Ok((v, m)) => s == Ok::<(Seq<LocalView>, int), CodecError>(
                    (local_views(v@), m as int),
                ) && offset <= m <= src@.len() && v@.len() == n,
                Err(err) => s == Err::<(Seq<LocalView>, int), CodecError>(err),
            }
        }),
{
    let ghost f = |p: int| spec_read_localvar(src@, p, ctx);
    let mut out: Vec<LocalVariable> = Vec::new();
    let mut pos: usize = offset;
    let mut i: usize = 0;
    proof {
        assert(local_views(out@) =~= Seq::<LocalView>::empty());
    }
    while i < n
        invariant
            0 <= i <= n,
            offset <= pos <= src@.len(),
            out@.len() == i,
            spec_read_list(pos as int, (n - i) as nat, f, local_views(out@)) == spec_read_list(
                offset as int,
                n as nat,
                f,
                Seq::<LocalView>::empty(),
            ),
        decreases n - i,
    {
        match LocalVariable::read(src, pos, ctx) {
            Ok((x, q)) => {
                proof {
                    lemma_local_views_push(out@, x);
                }
                out.push(x);
                pos = q;
                i = i + 1;
            },
            Err(err) => {
                return Err(err);
            },
        }
    }
    Ok((out, pos))
}

impl DebugInfo {
    /// Reads a debug block at `offset`: the delta line table, absolute
    /// anchors, local-variable table and upvalue-name table in wire
    /// order.
    pub fn read(src: &[u8], offset: usize, ctx: CommonCtx) -> (r: Result<
        (DebugInfo, usize),
        CodecError,
    >)
        requires
            offset <= src@.len(),
        ensures
            match r {
                Ok((d, n)) => spec_read_debug(src@, offset as int, ctx) == Ok::<
                    (DebugView, int),
                    CodecError,
                >((debug_view(d), n as int)) && d.line_info.wf() && d.abs_line_info.wf()
                    && d.local_variables.wf() && d.upvalues.wf() && offset <= n <= src@.len(),
                Err(e) => spec_read_debug(src@, offset as int, ctx) == Err::<
                    (DebugView, int),
                    CodecError,
                >(e),
            },
    {
        let mut pos: usize = offset;
        let n1 = match Array::<u8>::read_size(src, &mut pos, ctx) {
            Ok(n) => n,
            Err(e) => {
                return Err(e);
            },
        };
        let (lines, p2) = match read_u8_list(src, pos, n1) {
            Ok(x) => x,
            Err(e) => {
                return Err(e);
            },
        };
        pos = p2;
        let n2 = match Array::<AbsLineInfo>::read_size(src, &mut pos, ctx) {
            Ok(n) => n,
            Err(e) => {
                return Err(e);
            },
        };
        let (anchors, p4) = match read_absline_list(src, pos, n2) {
            Ok(x) => x,
            Err(e) => {
                return Err(e);
            },
        };
        pos = p4;
        let n3 = match Array::<LocalVariable>::read_size(src, &mut pos, ctx) {
            Ok(n) => n,
            Err(e) => {
                return Err(e);
            },
        };
        let (locals, p6) = match read_local_list(src, pos, n3, ctx) {
            Ok(x) => x,
            Err(e) => {
                return Err(e);
            },
        };
        pos = p6;
        let n4 = match Array::<LuaString>::read_size(src, &mut pos, ctx) {
            Ok(n) => n,
            Err(e) => {
                return Err(e);
            },
        };
        let (ups, p8) = match read_string_list(src, pos, n4, ctx) {
            Ok(x) => x,
            Err(e) => {
                return Err(e);
            },
        };
        pos = p8;
        let d = DebugInfo {
            line_info: Array { size: n1, data: lines },
            abs_line_info: Array { size: n2, data: anchors },
            local_variables: Array { size: n3, data: locals },
            upvalues: Array { size: n4, data: ups },
        };
        Ok((d, pos))
    }
}

} // verus!
