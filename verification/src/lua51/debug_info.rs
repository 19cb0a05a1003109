//! The Lua 5.1 debug information codec: a flat array of per-instruction
//! source line numbers, a local-variable table and an upvalue-name table,
//! each length-prefixed in the 5.1 array format.

use vstd::prelude::*;
use crate::CommonCtx;
use crate::array::Array;
use crate::array::spec_read_array_size;
use crate::codec::read_i32_list;
use crate::codec::read_string_list;
use crate::codec::spec_read_list;
use crate::error::CodecError;
use crate::reader::read_i32;
use crate::reader::spec_read_i32;
use crate::string::LuaString;
use crate::string::StringView;
use crate::string::spec_read_string;
use crate::string::string_views;

verus! {

/// Debug metadata for one prototype.
#[derive(Debug, Clone)]
pub struct DebugInfo {
    /// Map from opcodes to source lines
    pub line_info: Array<i32>,
    /// Information about local variables
    pub local_variables: Array<LocalVariable>,
    /// Upvalue names
    pub upvalues: Array<LuaString>,
}

/// One local variable's debug record.
#[derive(Debug, Clone)]
pub struct LocalVariable {
    pub name: LuaString,
    /// First point where variable is active
    pub start_pc: i32,
    /// First point where variable is dead
    pub end_pc: i32,
}

/// The mathematical shape of a local-variable record.
pub struct LocalView {
    pub name: StringView,
    pub start_pc: i32,
    pub end_pc: i32,
}

/// The mathematical shape of a debug block.
pub struct DebugView {
    pub line_info: Seq<i32>,
    pub local_variables: Seq<LocalView>,
    pub upvalues: Seq<StringView>,
}

/// The shape of a local-variable record.
pub open spec fn local_view(lv: LocalVariable) -> LocalView {
    LocalView { name: lv.name@, start_pc: lv.start_pc, end_pc: lv.end_pc }
}

/// The shapes of a sequence of local-variable records, in order.
pub open spec fn local_views(s: Seq<LocalVariable>) -> Seq<LocalView>
    decreases s, s.len(),
{
    if s.len() == 0 {
        Seq::empty()
    } else {
        local_views(s.drop_last()).push(local_view(s.last()))
    }
}

/// Appending a record appends its shape.
pub proof fn lemma_local_views_push(s: Seq<LocalVariable>, x: LocalVariable)
    ensures
        local_views(s.push(x)) == local_views(s).push(local_view(x)),
{
    assert(s.push(x).drop_last() =~= s);
    assert(s.push(x).last() == x);
}

/// The shape of a debug block.
pub open spec fn debug_view(d: DebugInfo) -> DebugView {
    DebugView {
        line_info: d.line_info.data@,
        local_variables: local_views(d.local_variables.data@),
        upvalues: string_views(d.upvalues.data@),
    }
}

/// What reading a local-variable record at `pos` yields: its name, then
/// the two instruction indices bounding its live range.
pub open spec fn spec_read_localvar(b: Seq<u8>, pos: int, ctx: CommonCtx) -> Result<
    (LocalView, int),
    CodecError,
> {
    match spec_read_string(b, pos, ctx) {
        Err(e) => Err(e),
        Ok((name, p1)) => match spec_read_i32(b, p1, ctx.endianness) {
            Err(e) => Err(e),
            Ok((start_pc, p2)) => match spec_read_i32(b, p2, ctx.endianness) {
                Err(e) => Err(e),
                Ok((end_pc, p3)) => Ok((LocalView { name, start_pc, end_pc }, p3)),
            },
        },
    }
}

/// What reading a debug block at `pos` yields: the line table, the
/// local-variable table and the upvalue-name table, each with its own
/// length prefix.
pub open spec fn spec_read_debug(b: Seq<u8>, pos: int, ctx: CommonCtx) -> Result<
    (DebugView, int),
    CodecError,
> {
    match spec_read_array_size(b, pos, ctx) {
        Err(e) => Err(e),
        Ok((n1, p1)) => match spec_read_list(
            p1,
            n1 as nat,
            |p: int| spec_read_i32(b, p, ctx.endianness),
            Seq::empty(),
        ) {
            Err(e) => Err(e),
            Ok((lines, p2)) => match spec_read_array_size(b, p2, ctx) {
                Err(e) => Err(e),
                Ok((n2, p3)) => match spec_read_list(
                    p3,
                    n2 as nat,
                    |p: int| spec_read_localvar(b, p, ctx),
                    Seq::empty(),
                ) {
                    Err(e) => Err(e),
                    Ok((locals, p4)) => match spec_read_array_size(b, p4, ctx) {
                        Err(e) => Err(e),
                        Ok((n3, p5)) => match spec_read_list(
                            p5,
                            n3 as nat,
                            |p: int| spec_read_string(b, p, ctx),
                            Seq::empty(),
                        ) {
                            Err(e) => Err(e),
                            Ok((ups, p6)) => Ok(
                                (
                                    DebugView {
                                        line_info: lines,
                                        local_variables: locals,
                                        upvalues: ups,
                                    },
                                    p6,
                                ),
                            ),
                        },
                    },
                },
            },
        },
    }
}

impl LocalVariable {
    /// Reads one local-variable record at `offset`.
    pub fn read(src: &[u8], offset: usize, ctx: CommonCtx) -> (r: Result<
        (LocalVariable, usize),
        CodecError,
    >)
        ensures
            match r {
                Ok((lv, n)) => spec_read_localvar(src@, offset as int, ctx) == Ok::<
                    (LocalView, int),
                    CodecError,
                >((local_view(lv), n as int)) && local_view(lv).name.wf() && offset <= n
                    <= src@.len(),
                Err(e) => spec_read_localvar(src@, offset as int, ctx) == Err::<
                    (LocalView, int),
                    CodecError,
                >(e),
            },
    {
        match LuaString::read(src, offset, ctx) {
            Err(e) => Err(e),
            Ok((name, p1)) => match read_i32(src, p1, ctx.endianness) {
                Err(e) => Err(e),
                Ok((start_pc, p2)) => match read_i32(src, p2, ctx.endianness) {
                    Err(e) => Err(e),
                    Ok((end_pc, p3)) => Ok((LocalVariable { name, start_pc, end_pc }, p3)),
                },
            },
        }
    }
}

/// Reads `n` consecutive local-variable records.
#[verifier::loop_isolation(false)]
fn read_local_list(src: &[u8], offset: usize, n: usize, ctx: CommonCtx) -> (r: Result<
    (Vec<LocalVariable>, usize),
    CodecError,
>)
    requires
        offset <= src@.len(),
    ensures
        ({
            let s = spec_read_list(
                offset as int,
                n as nat,
                |p: int| spec_read_localvar(src@, p, ctx),
                Seq::<LocalView>::empty(),
            );
            match r {
                Ok((v, m)) => s == Ok::<(Seq<LocalView>, int), CodecError>(
                    (local_views(v@), m as int),
                ) && offset <= m <= src@.len() && v@.len() == n,
                Err(err) => s == Err::<(Seq<LocalView>, int), CodecError>(err),
            }
        }),
{
    let ghost f = |p: int| spec_read_localvar(src@, p, ctx);
    let mut out: Vec<LocalVariable> = Vec::new();
    let mut pos: usize = offset;
    let mut i: usize = 0;
    proof {
        assert(local_views(out@) =~= Seq::<LocalView>::empty());
    }
    while i < n
        invariant
            0 <= i <= n,
            offset <= pos <= src@.len(),
            out@.len() == i,
            spec_read_list(pos as int, (n - i) as nat, f, local_views(out@)) == spec_read_list(
                offset as int,
                n as nat,
                f,
                Seq::<LocalView>::empty(),
            ),
        decreases n - i,
    {
        match LocalVariable::read(src, pos, ctx) {
            Ok((x, q)) => {
                proof {
                    lemma_local_views_push(out@, x);
                }
                out.push(x);
                pos = q;
                i = i + 1;
            },
            Err(err) => {
                return Err(err);
            },
        }
    }
    Ok((out, pos))
}

impl DebugInfo {
    /// Reads a debug block at `offset`: the line table, local-variable
    /// table and upvalue-name table in wire order.
    pub fn read(src: &[u8], offset: usize, ctx: CommonCtx) -> (r: Result<
        (DebugInfo, usize),
        CodecError,
    >)
        requires
            offset <= src@.len(),
        ensures
            match r {
                Ok((d, n)) => spec_read_debug(src@, offset as int, ctx) == Ok::<
                    (DebugView, int),
                    CodecError,
                >((debug_view(d), n as int)) && d.line_info.wf() && d.local_variables.wf()
                    && d.upvalues.wf() && offset <= n <= src@.len(),
                Err(e) => spec_read_debug(src@, offset as int, ctx) == Err::<
                    (DebugView, int),
                    CodecError,
                >(e),
            },
    {
        let mut pos: usize = offset;
        let n1 = match Array::<i32>::read_size(src, &mut pos, ctx) {
            Ok(n) => n,
            Err(e) => {
                return Err(e);
            },
        };
        let (lines, p2) = match read_i32_list(src, pos, n1, ctx.endianness) {
            Ok(x) => x,
            Err(e) => {
                return Err(e);
            },
        };
        pos = p2;
        let n2 = match Array::<LocalVariable>::read_size(src, &mut pos, ctx) {
            Ok(n) => n,
            Err(e) => {
                return Err(e);
            },
        };
        let (locals, p4) = match read_local_list(src, pos, n2, ctx) {
            Ok(x) => x,
            Err(e) => {
                return Err(e);
            },
        };
        pos = p4;
        let n3 = match Array::<LuaString>::read_size(src, &mut pos, ctx) {
            Ok(n) => n,
            Err(e) => {
                return Err(e);
            },
        };
        let (ups, p6) = match read_string_list(src, pos, n3, ctx) {
            Ok(x) => x,
            Err(e) => {
                return Err(e);
            },
        };
        pos = p6;
        let d = DebugInfo {
            line_info: Array { size: n1, data: lines },
            local_variables: Array { size: n2, data: locals },
            upvalues: Array { size: n3, data: ups },
        };
        Ok((d, pos))
    }
}

} // verus!

verus! {

/// The wire form of a local-variable record: its name, then the two live
/// range bounds.
pub open spec fn spec_localvar_bytes(lv: LocalView, ctx: CommonCtx) -> Seq<u8>
    recommends
        lv.name.wf(),
{
    crate::string::spec_string51_bytes(lv.name, ctx) + crate::reader::spec_u32_bytes(
        crate::reader::spec_u32_of_i32(lv.start_pc),
        ctx.endianness,
    ) + crate::reader::spec_u32_bytes(crate::reader::spec_u32_of_i32(lv.end_pc), ctx.endianness)
}

/// The wire form of a sequence of local-variable records, in order.
pub open spec fn spec_locals_bytes(s: Seq<LocalView>, ctx: CommonCtx) -> Seq<u8>
    decreases s, s.len(),
{
    if s.len() == 0 {
        Seq::empty()
    } else {
        spec_locals_bytes(s.drop_last(), ctx) + spec_localvar_bytes(s.last(), ctx)
    }
}

/// The encoded records of a prefix never outrun those of the whole
/// sequence.
pub proof fn lemma_locals_bytes_prefix_len(s: Seq<LocalView>, ctx: CommonCtx, i: int)
    requires
        0 <= i <= s.len(),
    ensures
        spec_locals_bytes(s.take(i), ctx).len() <= spec_locals_bytes(s, ctx).len(),
    decreases s.len() - i,
{
    if i == s.len() {
        assert(s.take(i) =~= s);
    } else {
        assert(s.take(i + 1).drop_last() =~= s.take(i));
        assert(s.take(i + 1).last() == s[i]);
        lemma_locals_bytes_prefix_len(s, ctx, i + 1);
    }
}

/// A sequence's shapes are index for index its members' shapes.
pub proof fn lemma_local_views_len(s: Seq<LocalVariable>)
    ensures
        local_views(s).len() == s.len(),
        forall|j: int|
            #![trigger local_views(s)[j]]
            #![trigger s[j]]
            0 <= j < s.len() ==> local_views(s)[j] == local_view(s[j]),
    decreases s.len(),
{
    if s.len() > 0 {
        lemma_local_views_len(s.drop_last());
        assert(forall|j: int|
            0 <= j < s.len() - 1 ==> (#[trigger] local_views(s.drop_last())[j]) == local_views(
                s,
            )[j] && s.drop_last()[j] == s[j]);
    }
}

impl LocalVariable {
    /// Writes this record at `offset`: its name, then the two instruction
    /// indices.  Fails, leaving the buffer untouched, when the name is
    /// not writable under the context or there is no room.
    #[verifier::rlimit(50)]
    pub fn write(&self, dst: &mut [u8], offset: &mut usize, ctx: CommonCtx) -> (r: Result<
        (),
        CodecError,
    >)
        requires
            self.name@.wf(),
        ensures
            r is Ok <==> crate::string::spec_string51_writable(self.name@, ctx) && *old(offset)
                + spec_localvar_bytes(local_view(*self), ctx).len() <= old(dst)@.len(),
            r is Ok ==> {
                &&& *final(offset) == *old(offset) + spec_localvar_bytes(
                    local_view(*self),
                    ctx,
                ).len()
                &&& final(dst)@ == crate::reader::spec_store(
                    old(dst)@,
                    *old(offset) as int,
                    spec_localvar_bytes(local_view(*self), ctx),
                )
            },
            r is Err ==> {
                &&& (r == Err::<(), CodecError>(CodecError::Truncated) || r == Err::<
                    (),
                    CodecError,
                >(CodecError::InvalidTag))
                &&& *final(offset) == *old(offset)
                &&& final(dst)@ == old(dst)@
            },
    {
        let width = ctx.size_of_size_t;
        if width != 4 && width != 8 {
            return Err(CodecError::InvalidTag);
        }
        if width == 4 && self.name.size > (i32::MAX as usize) {
            return Err(CodecError::Truncated);
        }
        if width == 8 && (self.name.size as u64) > (i64::MAX as u64) {
            return Err(CodecError::Truncated);
        }
        if *offset > dst.len() {
            return Err(CodecError::Truncated);
        }
        let avail: usize = dst.len() - *offset;
        if avail < (width as usize) + 8 {
            return Err(CodecError::Truncated);
        }
        if self.name.size > 0 && self.name.size > avail - (width as usize) - 8 {
            return Err(CodecError::Truncated);
        }
        let ghost pre = dst@;
        let ghost start = *offset as int;
        let r1 = self.name.write_lua51_string(dst, offset, ctx);
        let ghost name_bytes = crate::string::spec_string51_bytes(self.name@, ctx);
        let r2 = crate::reader::write_i32(dst, offset, self.start_pc, ctx.endianness);
        let ghost start_bytes = crate::reader::spec_u32_bytes(
            crate::reader::spec_u32_of_i32(self.start_pc),
            ctx.endianness,
        );
        let r3 = crate::reader::write_i32(dst, offset, self.end_pc, ctx.endianness);
        proof {
            crate::reader::lemma_store_append(pre, start + name_bytes.len(), start_bytes,
                crate::reader::spec_u32_bytes(
                    crate::reader::spec_u32_of_i32(self.end_pc),
                    ctx.endianness,
                ));
            crate::reader::lemma_store_append(pre, start, name_bytes, start_bytes
                + crate::reader::spec_u32_bytes(
                    crate::reader::spec_u32_of_i32(self.end_pc),
                    ctx.endianness,
                ));
            assert(name_bytes + (start_bytes + crate::reader::spec_u32_bytes(
                crate::reader::spec_u32_of_i32(self.end_pc),
                ctx.endianness,
            )) =~= spec_localvar_bytes(local_view(*self), ctx));
        }
        Ok(())
    }
}

/// Writes a sequence of local-variable records at the cursor.  On
/// failure the cursor stops at the record that did not fit; the records
/// before it stay written.
#[verifier::loop_isolation(false)]
fn write_local_list(dst: &mut [u8], offset: &mut usize, items: &Vec<LocalVariable>, ctx:
    CommonCtx) -> (r: Result<(), CodecError>)
    requires
        forall|j: int| 0 <= j < items@.len() ==> (#[trigger] items@[j]).name@.wf(),
    ensures
        r is Ok <==> (forall|j: int|
            0 <= j < items@.len() ==> crate::string::spec_string51_writable(
                (#[trigger] items@[j]).name@,
                ctx,
            )) && *old(offset) + spec_locals_bytes(local_views(items@), ctx).len() <= old(
            dst,
        )@.len(),
        r is Ok ==> {
            &&& *final(offset) == *old(offset) + spec_locals_bytes(local_views(items@), ctx).len()
            &&& final(dst)@ == crate::reader::spec_store(
                old(dst)@,
                *old(offset) as int,
                spec_locals_bytes(local_views(items@), ctx),
            )
        },
        r is Err ==> (r == Err::<(), CodecError>(CodecError::Truncated) || r == Err::<
            (),
            CodecError,
        >(CodecError::InvalidTag)) && final(dst)@.len() == old(dst)@.len(),
{
    let ghost views = local_views(items@);
    proof {
        lemma_local_views_len(items@);
    }
    if *offset > dst.len() {
        proof {
            lemma_locals_bytes_prefix_len(views, ctx, 0);
        }
        return Err(CodecError::Truncated);
    }
    let ghost pre = dst@;
    let ghost start = *offset as int;
    let mut i: usize = 0;
    proof {
        assert(crate::reader::spec_store(pre, start, spec_locals_bytes(views.take(0), ctx))
            =~= pre);
    }
    while i < items.len()
        invariant
            0 <= i <= items@.len(),
            *offset as int == start + spec_locals_bytes(views.take(i as int), ctx).len(),
            start + spec_locals_bytes(views.take(i as int), ctx).len() <= dst@.len(),
            dst@.len() == pre.len(),
            dst@ == crate::reader::spec_store(pre, start, spec_locals_bytes(
                views.take(i as int),
                ctx,
            )),
            forall|j: int|
                0 <= j < i ==> crate::string::spec_string51_writable(
                    (#[trigger] items@[j]).name@,
                    ctx,
                ),
        decreases items@.len() - i,
    {
        let item = vstd::slice::slice_index_get(items.as_slice(), i);
        let ghost prev_bytes = spec_locals_bytes(views.take(i as int), ctx);
        match item.write(dst, offset, ctx) {
            Ok(()) => {
                proof {
                    crate::reader::lemma_store_append(pre, start, prev_bytes, spec_localvar_bytes(
                        views[i as int],
                        ctx,
                    ));
                    assert(views.take(i + 1).drop_last() =~= views.take(i as int));
                    assert(views.take(i + 1).last() == views[i as int]);
                }
                i = i + 1;
            },
            Err(e) => {
                proof {
                    if (forall|j: int|
                        0 <= j < items@.len() ==> crate::string::spec_string51_writable(
                            (#[trigger] items@[j]).name@,
                            ctx,
                        )) && start + spec_locals_bytes(views, ctx).len() <= pre.len() {
                        assert(crate::string::spec_string51_writable(
                            items@[i as int].name@,
                            ctx,
                        ));
                        assert(local_view(*item) == views[i as int]);
                        assert(views.take(i + 1).drop_last() =~= views.take(i as int));
                        assert(views.take(i + 1).last() == views[i as int]);
                        assert(spec_locals_bytes(views.take(i + 1), ctx) == spec_locals_bytes(
                            views.take(i as int),
                            ctx,
                        ) + spec_localvar_bytes(views[i as int], ctx));
                        lemma_locals_bytes_prefix_len(views, ctx, i + 1);
                        assert(start + spec_locals_bytes(views.take(i as int), ctx).len()
                            + spec_localvar_bytes(views[i as int], ctx).len() <= pre.len());
                        assert(false);
                    }
                }
                return Err(e);
            },
        }
    }
    proof {
        assert(views.take(items@.len() as int) =~= views);
    }
    Ok(())
}

} // verus!

verus! {

/// Whether a debug block can be re-encoded under the given context: the
/// context's version must use the fixed-width array sizes, every table
/// must fit a signed 32-bit count, and every name must be writable.
pub open spec fn spec_debug_writable(d: DebugView, ctx: CommonCtx) -> bool {
    &&& ctx.lua_version.major == 5 && (ctx.lua_version.minor == 1 || ctx.lua_version.minor == 2
        || ctx.lua_version.minor == 3)
    &&& d.line_info.len() <= i32::MAX
    &&& d.local_variables.len() <= i32::MAX
    &&& d.upvalues.len() <= i32::MAX
    &&& forall|j: int|
        0 <= j < d.local_variables.len() ==> crate::string::spec_string51_writable(
            (#[trigger] d.local_variables[j]).name,
            ctx,
        )
    &&& forall|j: int|
        0 <= j < d.upvalues.len() ==> crate::string::spec_string51_writable(
            #[trigger] d.upvalues[j],
            ctx,
        )
}

/// The wire form of a debug block: each table's count, then its
/// elements, in wire order.
pub open spec fn spec_debug_bytes(d: DebugView, ctx: CommonCtx) -> Seq<u8>
    recommends
        spec_debug_writable(d, ctx),
{
    crate::array::spec_array_size_bytes(d.line_info.len() as usize, ctx) + crate::codec::spec_i32s_bytes(
        d.line_info,
        ctx.endianness,
    ) + crate::array::spec_array_size_bytes(d.local_variables.len() as usize, ctx)
        + spec_locals_bytes(d.local_variables, ctx) + crate::array::spec_array_size_bytes(
        d.upvalues.len() as usize,
        ctx,
    ) + crate::string::spec_strings51_bytes(d.upvalues, ctx)
}

impl DebugInfo {
    /// Writes this debug block at `offset`: the line table, the
    /// local-variable table and the upvalue-name table, each behind its
    /// count.  On failure the cursor stops where the room ran out or a
    /// name was not writable; whole tables written before that stay
    /// written.
    #[verifier::rlimit(100)]
    pub fn write(&self, dst: &mut [u8], offset: &mut usize, ctx: CommonCtx) -> (r: Result<
        usize,
        CodecError,
    >)
        requires
            self.line_info.wf(),
            self.local_variables.wf(),
            self.upvalues.wf(),
            forall|j: int|
                0 <= j < self.local_variables.data@.len() ==> (#[trigger] self.local_variables.data@[j]).name@.wf(),
            forall|j: int| 0 <= j < self.upvalues.data@.len() ==> (#[trigger] self.upvalues.data@[j])@.wf(),
        ensures
            r is Ok <==> spec_debug_writable(debug_view(*self), ctx) && *old(offset)
                + spec_debug_bytes(debug_view(*self), ctx).len() <= old(dst)@.len(),
            r is Ok ==> {
                &&& r == Ok::<usize, CodecError>(
                    spec_debug_bytes(debug_view(*self), ctx).len() as usize,
                )
                &&& *final(offset) == *old(offset) + spec_debug_bytes(debug_view(*self), ctx).len()
                &&& final(dst)@ == crate::reader::spec_store(
                    old(dst)@,
                    *old(offset) as int,
                    spec_debug_bytes(debug_view(*self), ctx),
                )
            },
            r is Err ==> (r == Err::<usize, CodecError>(CodecError::Truncated) || r == Err::<
                usize,
                CodecError,
            >(CodecError::InvalidTag) || r == Err::<usize, CodecError>(
                CodecError::UnsupportedVersion,
            ) || r == Err::<usize, CodecError>(CodecError::Unimplemented)) && final(dst)@.len()
                == old(dst)@.len(),
    {
        let start_pos: usize = *offset;
        let ghost d = debug_view(*self);
        let ghost pre = dst@;
        let ghost start = *offset as int;
        let ghost b1 = crate::array::spec_array_size_bytes(d.line_info.len() as usize, ctx);
        let ghost b2 = crate::codec::spec_i32s_bytes(d.line_info, ctx.endianness);
        let ghost b3 = crate::array::spec_array_size_bytes(d.local_variables.len() as usize, ctx);
        let ghost b4 = spec_locals_bytes(d.local_variables, ctx);
        let ghost b5 = crate::array::spec_array_size_bytes(d.upvalues.len() as usize, ctx);
        let ghost b6 = crate::string::spec_strings51_bytes(d.upvalues, ctx);
        proof {
            crate::codec::lemma_i32s_bytes_len(d.line_info, ctx.endianness);
            lemma_local_views_len(self.local_variables.data@);
            crate::string::lemma_string_views_len(self.upvalues.data@);
        }
        if let Err(e) = self.line_info.write_size(dst, offset, ctx) {
            return Err(e);
        }
        if let Err(e) = crate::codec::write_i32_list(
            dst,
            offset,
            self.line_info.data.as_slice(),
            ctx.endianness,
        ) {
            return Err(e);
        }
        proof {
            crate::reader::lemma_store_append(pre, start, b1, b2);
        }
        if let Err(e) = self.local_variables.write_size(dst, offset, ctx) {
            return Err(e);
        }
        proof {
            crate::reader::lemma_store_append(pre, start, b1 + b2, b3);
        }
        if let Err(e) = write_local_list(dst, offset, &self.local_variables.data, ctx) {
            return Err(e);
        }
        proof {
            crate::reader::lemma_store_append(pre, start, b1 + b2 + b3, b4);
        }
        if let Err(e) = self.upvalues.write_size(dst, offset, ctx) {
            return Err(e);
        }
        proof {
            crate::reader::lemma_store_append(pre, start, b1 + b2 + b3 + b4, b5);
        }
        if let Err(e) = crate::string::write_string51_list(dst, offset, &self.upvalues.data, ctx) {
            return Err(e);
        }
        proof {
            crate::reader::lemma_store_append(pre, start, b1 + b2 + b3 + b4 + b5, b6);
            assert(b1 + b2 + b3 + b4 + b5 + b6 =~= spec_debug_bytes(d, ctx));
        }
        let written: usize = *offset - start_pos;
        Ok(written)
    }
}

} // verus!
