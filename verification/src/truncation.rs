//! The truncation law: cutting the input anywhere strictly before the
//! end of a successful decode turns that decode into exactly the
//! truncated-input error — never a panic, a partial value or another
//! error kind.
//!
//! Each specification reader gets a prefix-stability lemma: on the cut
//! buffer it returns the same result when it finished before the cut,
//! and the truncated-input error when it did not.  The lemmas compose up
//! to whole chunks of all four Lua versions.

use vstd::prelude::*;
use crate::CommonCtx;
use crate::error::CodecError;
use crate::reader::spec_read_i32;
use crate::reader::spec_read_i64;
use crate::reader::spec_read_u8;
use crate::reader::spec_read_u32;
use crate::reader::spec_read_u64;
use crate::Endianness;

verus! {

/// One byte: the read lands inside the kept prefix or reports the cut.
pub proof fn lemma_trunc_u8(b: Seq<u8>, pos: int, m: int, v: u8, n: int)
    requires
        0 <= pos,
        0 <= m <= b.len(),
        spec_read_u8(b, pos) == Ok::<(u8, int), CodecError>((v, n)),
    ensures
        pos < n,
        n <= b.len(),
        n <= m ==> spec_read_u8(b.take(m), pos) == Ok::<(u8, int), CodecError>((v, n)),
        n > m ==> spec_read_u8(b.take(m), pos) == Err::<(u8, int), CodecError>(
            CodecError::Truncated,
        ),
{
}

/// A 32-bit scalar under the cut.
pub proof fn lemma_trunc_u32(b: Seq<u8>, pos: int, e: Endianness, m: int, v: u32, n: int)
    requires
        0 <= pos,
        0 <= m <= b.len(),
        spec_read_u32(b, pos, e) == Ok::<(u32, int), CodecError>((v, n)),
    ensures
        pos < n,
        n <= b.len(),
        n <= m ==> spec_read_u32(b.take(m), pos, e) == Ok::<(u32, int), CodecError>((v, n)),
        n > m ==> spec_read_u32(b.take(m), pos, e) == Err::<(u32, int), CodecError>(
            CodecError::Truncated,
        ),
{
}

/// A 64-bit scalar under the cut.
pub proof fn lemma_trunc_u64(b: Seq<u8>, pos: int, e: Endianness, m: int, v: u64, n: int)
    requires
        0 <= pos,
        0 <= m <= b.len(),
        spec_read_u64(b, pos, e) == Ok::<(u64, int), CodecError>((v, n)),
    ensures
        pos < n,
        n <= b.len(),
        n <= m ==> spec_read_u64(b.take(m), pos, e) == Ok::<(u64, int), CodecError>((v, n)),
        n > m ==> spec_read_u64(b.take(m), pos, e) == Err::<(u64, int), CodecError>(
            CodecError::Truncated,
        ),
{
}

/// A signed 32-bit scalar under the cut.
pub proof fn lemma_trunc_i32(b: Seq<u8>, pos: int, e: Endianness, m: int, v: i32, n: int)
    requires
        0 <= pos,
        0 <= m <= b.len(),
        spec_read_i32(b, pos, e) == Ok::<(i32, int), CodecError>((v, n)),
    ensures
        pos < n,
        n <= b.len(),
        n <= m ==> spec_read_i32(b.take(m), pos, e) == Ok::<(i32, int), CodecError>((v, n)),
        n > m ==> spec_read_i32(b.take(m), pos, e) == Err::<(i32, int), CodecError>(
            CodecError::Truncated,
        ),
{
    match spec_read_u32(b, pos, e) {
        Ok((x, q)) => {
            lemma_trunc_u32(b, pos, e, m, x, q);
        },
        Err(err) => {
        },
    }
}

/// A signed 64-bit scalar under the cut.
pub proof fn lemma_trunc_i64(b: Seq<u8>, pos: int, e: Endianness, m: int, v: i64, n: int)
    requires
        0 <= pos,
        0 <= m <= b.len(),
        spec_read_i64(b, pos, e) == Ok::<(i64, int), CodecError>((v, n)),
    ensures
        pos < n,
        n <= b.len(),
        n <= m ==> spec_read_i64(b.take(m), pos, e) == Ok::<(i64, int), CodecError>((v, n)),
        n > m ==> spec_read_i64(b.take(m), pos, e) == Err::<(i64, int), CodecError>(
            CodecError::Truncated,
        ),
{
    match spec_read_u64(b, pos, e) {
        Ok((x, q)) => {
            lemma_trunc_u64(b, pos, e, m, x, q);
        },
        Err(err) => {
        },
    }
}

/// A 5.4 size varint under the cut.
pub proof fn lemma_trunc_unsigned(b: Seq<u8>, pos: int, m: int, v: usize, n: int, acc: usize)
    requires
        0 <= pos,
        0 <= m <= b.len(),
        crate::unsigned::spec_read_unsigned_from(b, pos, acc) == Ok::<(usize, int), CodecError>(
            (v, n),
        ),
    ensures
        pos < n,
        n <= b.len(),
        n <= m ==> crate::unsigned::spec_read_unsigned_from(b.take(m), pos, acc) == Ok::<
            (usize, int),
            CodecError,
        >((v, n)),
        n > m ==> crate::unsigned::spec_read_unsigned_from(b.take(m), pos, acc) == Err::<
            (usize, int),
            CodecError,
        >(CodecError::Truncated),
    decreases b.len() - pos,
{
    let byte = b[pos];
    let acc2 = ((acc << 7) | ((byte & 0x7f) as usize)) as usize;
    if byte & 0x80 == 0 {
        lemma_trunc_unsigned(b, pos + 1, m, v, n, acc2);
    }
}

/// A ULEB128 value under the cut.
pub proof fn lemma_trunc_uleb(b: Seq<u8>, pos: int, m: int, v: u64, n: int, shift: u64, acc: u64)
    requires
        0 <= pos,
        0 <= m <= b.len(),
        crate::leb128::spec_read_uleb_from(b, pos, shift, acc) == Ok::<(u64, int), CodecError>(
            (v, n),
        ),
    ensures
        pos < n,
        n <= b.len(),
        n <= m ==> crate::leb128::spec_read_uleb_from(b.take(m), pos, shift, acc) == Ok::<
            (u64, int),
            CodecError,
        >((v, n)),
        n > m ==> crate::leb128::spec_read_uleb_from(b.take(m), pos, shift, acc) == Err::<
            (u64, int),
            CodecError,
        >(CodecError::Truncated),
    decreases b.len() - pos,
{
    let byte = b[pos];
    let low = (byte & 0x7f) as u64;
    let acc2 = acc | (low << shift);
    if byte & 0x80 != 0 {
        lemma_trunc_uleb(b, pos + 1, m, v, n, (shift + 7) as u64, acc2);
    }
}

} // verus!

verus! {

/// A 5.1/5.2-style string under the cut.
pub proof fn lemma_trunc_string51(
    b: Seq<u8>,
    pos: int,
    ctx: CommonCtx,
    m: int,
    v: crate::string::StringView,
    n: int,
)
    requires
        0 <= pos,
        0 <= m <= b.len(),
        crate::string::spec_read_string51(b, pos, ctx) == Ok::<
            (crate::string::StringView, int),
            CodecError,
        >((v, n)),
    ensures
        pos < n,
        n <= b.len(),
        n <= m ==> crate::string::spec_read_string51(b.take(m), pos, ctx) == Ok::<
            (crate::string::StringView, int),
            CodecError,
        >((v, n)),
        n > m ==> crate::string::spec_read_string51(b.take(m), pos, ctx) == Err::<
            (crate::string::StringView, int),
            CodecError,
        >(CodecError::Truncated),
{
    let width = ctx.size_of_size_t;
    if width == 4 {
        match spec_read_i32(b, pos, ctx.endianness) {
            Ok((x, q)) => {
                lemma_trunc_i32(b, pos, ctx.endianness, m, x, q);
                if x > 0 && q + x <= m {
                    assert(b.take(m).subrange(q, q + x - 1) =~= b.subrange(q, q + x - 1));
                }
            },
            Err(err) => {
            },
        }
    } else if width == 8 {
        match spec_read_i64(b, pos, ctx.endianness) {
            Ok((x, q)) => {
                lemma_trunc_i64(b, pos, ctx.endianness, m, x, q);
                if x > 0 && q + x <= m {
                    assert(b.take(m).subrange(q, q + x - 1) =~= b.subrange(q, q + x - 1));
                }
            },
            Err(err) => {
            },
        }
    }
}

/// A 5.3-style string under the cut.
pub proof fn lemma_trunc_string53(
    b: Seq<u8>,
    pos: int,
    ctx: CommonCtx,
    m: int,
    v: crate::string::StringView,
    n: int,
)
    requires
        0 <= pos,
        0 <= m <= b.len(),
        crate::string::spec_read_string53(b, pos, ctx) == Ok::<
            (crate::string::StringView, int),
            CodecError,
        >((v, n)),
    ensures
        pos < n,
        n <= b.len(),
        n <= m ==> crate::string::spec_read_string53(b.take(m), pos, ctx) == Ok::<
            (crate::string::StringView, int),
            CodecError,
        >((v, n)),
        n > m ==> crate::string::spec_read_string53(b.take(m), pos, ctx) == Err::<
            (crate::string::StringView, int),
            CodecError,
        >(CodecError::Truncated),
{
    match spec_read_u8(b, pos) {
        Ok((k, p1)) => {
            lemma_trunc_u8(b, pos, m, k, p1);
            if k == 0xFF {
                lemma_trunc_string51(b, p1, ctx, m, v, n);
            } else if k > 0 && p1 + (k - 1) <= m {
                assert(b.take(m).subrange(p1, p1 + k - 1) =~= b.subrange(p1, p1 + k - 1));
            }
        },
        Err(err) => {
        },
    }
}

/// A 5.4-style string under the cut.
pub proof fn lemma_trunc_string54(
    b: Seq<u8>,
    pos: int,
    m: int,
    v: crate::string::StringView,
    n: int,
)
    requires
        0 <= pos,
        0 <= m <= b.len(),
        crate::string::spec_read_string54(b, pos) == Ok::<
            (crate::string::StringView, int),
            CodecError,
        >((v, n)),
    ensures
        pos < n,
        n <= b.len(),
        n <= m ==> crate::string::spec_read_string54(b.take(m), pos) == Ok::<
            (crate::string::StringView, int),
            CodecError,
        >((v, n)),
        n > m ==> crate::string::spec_read_string54(b.take(m), pos) == Err::<
            (crate::string::StringView, int),
            CodecError,
        >(CodecError::Truncated),
{
    match crate::unsigned::spec_read_unsigned(b, pos) {
        Ok((k, p1)) => {
            lemma_trunc_unsigned(b, pos, m, k, p1, 0);
            if k > 0 && p1 + (k - 1) <= m {
                assert(b.take(m).subrange(p1, p1 + k - 1) =~= b.subrange(p1, p1 + k - 1));
            }
        },
        Err(err) => {
        },
    }
}

/// A string in whichever encoding the context selects, under the cut.
pub proof fn lemma_trunc_string(
    b: Seq<u8>,
    pos: int,
    ctx: CommonCtx,
    m: int,
    v: crate::string::StringView,
    n: int,
)
    requires
        0 <= pos,
        0 <= m <= b.len(),
        crate::string::spec_read_string(b, pos, ctx) == Ok::<
            (crate::string::StringView, int),
            CodecError,
        >((v, n)),
    ensures
        pos < n,
        n <= b.len(),
        n <= m ==> crate::string::spec_read_string(b.take(m), pos, ctx) == Ok::<
            (crate::string::StringView, int),
            CodecError,
        >((v, n)),
        n > m ==> crate::string::spec_read_string(b.take(m), pos, ctx) == Err::<
            (crate::string::StringView, int),
            CodecError,
        >(CodecError::Truncated),
{
    let ver = ctx.lua_version;
    if ver.major == 5 && (ver.minor == 1 || ver.minor == 2) {
        lemma_trunc_string51(b, pos, ctx, m, v, n);
    } else if ver.major == 5 && ver.minor == 3 {
        lemma_trunc_string53(b, pos, ctx, m, v, n);
    } else if ver.major == 5 && ver.minor == 4 {
        lemma_trunc_string54(b, pos, m, v, n);
    }
}

/// An array's size field under the cut.
pub proof fn lemma_trunc_array_size(b: Seq<u8>, pos: int, ctx: CommonCtx, m: int, v: usize, n: int)
    requires
        0 <= pos,
        0 <= m <= b.len(),
        crate::array::spec_read_array_size(b, pos, ctx) == Ok::<(usize, int), CodecError>((v, n)),
    ensures
        pos < n,
        n <= b.len(),
        n <= m ==> crate::array::spec_read_array_size(b.take(m), pos, ctx) == Ok::<
            (usize, int),
            CodecError,
        >((v, n)),
        n > m ==> crate::array::spec_read_array_size(b.take(m), pos, ctx) == Err::<
            (usize, int),
            CodecError,
        >(CodecError::Truncated),
{
    let ver = ctx.lua_version;
    if ver.major == 5 && (ver.minor == 1 || ver.minor == 2 || ver.minor == 3) {
        match spec_read_i32(b, pos, ctx.endianness) {
            Ok((x, q)) => {
                lemma_trunc_i32(b, pos, ctx.endianness, m, x, q);
            },
            Err(err) => {
            },
        }
    } else if ver.major == 5 && ver.minor == 4 {
        match crate::leb128::spec_read_uleb(b, pos) {
            Ok((x, q)) => {
                lemma_trunc_uleb(b, pos, m, x, q, 0, 0);
            },
            Err(err) => {
            },
        }
    }
}

/// A counted list read never moves the cursor backwards when every
/// element read moves it forwards.
pub proof fn lemma_list_monotone<T>(
    pos: int,
    cnt: nat,
    f: spec_fn(int) -> Result<(T, int), CodecError>,
    acc: Seq<T>,
    s: Seq<T>,
    n: int,
)
    requires
        0 <= pos,
        crate::codec::spec_read_list(pos, cnt, f, acc) == Ok::<(Seq<T>, int), CodecError>((s, n)),
        forall|p: int| 0 <= p ==> ((#[trigger] f(p)) matches Ok(vq) ==> p < vq.1),
    ensures
        pos <= n,
    decreases cnt,
{
    if cnt > 0 {
        match f(pos) {
            Ok((v, q)) => {
                lemma_list_monotone(q, (cnt - 1) as nat, f, acc.push(v), s, n);
            },
            Err(err) => {
            },
        }
    }
}

/// A counted element list under the cut: the element readers over the
/// full and the cut buffer are handed in as a related pair.
pub proof fn lemma_trunc_list<T>(
    pos: int,
    cnt: nat,
    f: spec_fn(int) -> Result<(T, int), CodecError>,
    g: spec_fn(int) -> Result<(T, int), CodecError>,
    acc: Seq<T>,
    m: int,
    hi: int,
    s: Seq<T>,
    n: int,
)
    requires
        0 <= pos <= m,
        crate::codec::spec_read_list(pos, cnt, f, acc) == Ok::<(Seq<T>, int), CodecError>((s, n)),
        forall|p: int|
            0 <= p ==> ((#[trigger] f(p)) matches Ok(vq) ==> p < vq.1 <= hi && (vq.1 <= m ==> g(p)
                == f(p)) && (vq.1 > m ==> g(p) == Err::<(T, int), CodecError>(
                CodecError::Truncated,
            ))),
    ensures
        pos <= n,
        n == pos || n <= hi,
        n <= m ==> crate::codec::spec_read_list(pos, cnt, g, acc) == Ok::<
            (Seq<T>, int),
            CodecError,
        >((s, n)),
        n > m ==> crate::codec::spec_read_list(pos, cnt, g, acc) == Err::<
            (Seq<T>, int),
            CodecError,
        >(CodecError::Truncated),
    decreases cnt,
{
    lemma_list_monotone(pos, cnt, f, acc, s, n);
    if cnt > 0 {
        match f(pos) {
            Ok((v, q)) => {
                if q <= m {
                    lemma_trunc_list(q, (cnt - 1) as nat, f, g, acc.push(v), m, hi, s, n);
                } else {
                    lemma_list_monotone(q, (cnt - 1) as nat, f, acc.push(v), s, n);
                    lemma_list_upper(q, (cnt - 1) as nat, f, acc.push(v), hi, s, n);
                }
            },
            Err(err) => {
            },
        }
    }
}

/// A counted list read ends at its start or within the bound every
/// element read respects.
pub proof fn lemma_list_upper<T>(
    pos: int,
    cnt: nat,
    f: spec_fn(int) -> Result<(T, int), CodecError>,
    acc: Seq<T>,
    hi: int,
    s: Seq<T>,
    n: int,
)
    requires
        0 <= pos,
        crate::codec::spec_read_list(pos, cnt, f, acc) == Ok::<(Seq<T>, int), CodecError>((s, n)),
        forall|p: int| 0 <= p ==> ((#[trigger] f(p)) matches Ok(vq) ==> p < vq.1 <= hi),
    ensures
        n == pos || n <= hi,
    decreases cnt,
{
    if cnt > 0 {
        match f(pos) {
            Ok((v, q)) => {
                lemma_list_upper(q, (cnt - 1) as nat, f, acc.push(v), hi, s, n);
            },
            Err(err) => {
            },
        }
    }
}

} // verus!

verus! {

/// A 5.1 instruction under the cut.
pub proof fn lemma_trunc_instr51(
    b: Seq<u8>,
    pos: int,
    ctx: CommonCtx,
    m: int,
    v: crate::lua51::instructions::Instruction,
    n: int,
)
    requires
        0 <= pos,
        0 <= m <= b.len(),
        crate::lua51::instructions::spec_read_instr(b, pos, ctx) == Ok::<
            (crate::lua51::instructions::Instruction, int),
            CodecError,
        >((v, n)),
    ensures
        pos < n,
        n <= b.len(),
        n <= m ==> crate::lua51::instructions::spec_read_instr(b.take(m), pos, ctx) == Ok::<
            (crate::lua51::instructions::Instruction, int),
            CodecError,
        >((v, n)),
        n > m ==> crate::lua51::instructions::spec_read_instr(b.take(m), pos, ctx) == Err::<
            (crate::lua51::instructions::Instruction, int),
            CodecError,
        >(CodecError::Truncated),
{
    match spec_read_u32(b, pos, ctx.endianness) {
        Ok((w, q)) => {
            lemma_trunc_u32(b, pos, ctx.endianness, m, w, q);
        },
        Err(err) => {
        },
    }
}

/// A 5.1 constant under the cut.
pub proof fn lemma_trunc_constant51(
    b: Seq<u8>,
    pos: int,
    ctx: CommonCtx,
    m: int,
    v: crate::lua51::constants::ConstView,
    n: int,
)
    requires
        0 <= pos,
        0 <= m <= b.len(),
        crate::lua51::constants::spec_read_constant(b, pos, ctx) == Ok::<
            (crate::lua51::constants::ConstView, int),
            CodecError,
        >((v, n)),
    ensures
        pos < n,
        n <= b.len(),
        n <= m ==> crate::lua51::constants::spec_read_constant(b.take(m), pos, ctx) == Ok::<
            (crate::lua51::constants::ConstView, int),
            CodecError,
        >((v, n)),
        n > m ==> crate::lua51::constants::spec_read_constant(b.take(m), pos, ctx) == Err::<
            (crate::lua51::constants::ConstView, int),
            CodecError,
        >(CodecError::Truncated),
{
    match spec_read_u8(b, pos) {
        Err(err) => {
        },
        Ok((tag, p1)) => {
            lemma_trunc_u8(b, pos, m, tag, p1);
            if tag == 1 {
                match spec_read_u8(b, p1) {
                    Ok((x, q)) => {
                        lemma_trunc_u8(b, p1, m, x, q);
                    },
                    Err(err) => {
                    },
                }
            } else if tag == 3 {
                match spec_read_u64(b, p1, ctx.endianness) {
                    Ok((x, q)) => {
                        lemma_trunc_u64(b, p1, ctx.endianness, m, x, q);
                    },
                    Err(err) => {
                    },
                }
            } else if tag == 4 {
                match crate::string::spec_read_string(b, p1, ctx) {
                    Ok((s, q)) => {
                        lemma_trunc_string(b, p1, ctx, m, s, q);
                    },
                    Err(err) => {
                    },
                }
            }
        },
    }
}

/// A 5.1 local-variable record under the cut.
pub proof fn lemma_trunc_localvar51(
    b: Seq<u8>,
    pos: int,
    ctx: CommonCtx,
    m: int,
    v: crate::lua51::debug_info::LocalView,
    n: int,
)
    requires
        0 <= pos,
        0 <= m <= b.len(),
        crate::lua51::debug_info::spec_read_localvar(b, pos, ctx) == Ok::<
            (crate::lua51::debug_info::LocalView, int),
            CodecError,
        >((v, n)),
    ensures
        pos < n,
        n <= b.len(),
        n <= m ==> crate::lua51::debug_info::spec_read_localvar(b.take(m), pos, ctx) == Ok::<
            (crate::lua51::debug_info::LocalView, int),
            CodecError,
        >((v, n)),
        n > m ==> crate::lua51::debug_info::spec_read_localvar(b.take(m), pos, ctx) == Err::<
            (crate::lua51::debug_info::LocalView, int),
            CodecError,
        >(CodecError::Truncated),
{
    match crate::string::spec_read_string(b, pos, ctx) {
        Err(err) => {
        },
        Ok((name, p1)) => {
            lemma_trunc_string(b, pos, ctx, m, name, p1);
            match spec_read_i32(b, p1, ctx.endianness) {
                Err(err) => {
                },
                Ok((x1, p2)) => {
                    lemma_trunc_i32(b, p1, ctx.endianness, m, x1, p2);
                    match spec_read_i32(b, p2, ctx.endianness) {
                        Err(err) => {
                        },
                        Ok((x2, p3)) => {
                            lemma_trunc_i32(b, p2, ctx.endianness, m, x2, p3);
                        },
                    }
                },
            }
        },
    }
}

} // verus!

verus! {

/// A 5.1 debug block under the cut.
pub proof fn lemma_trunc_debug51(
    b: Seq<u8>,
    pos: int,
    ctx: CommonCtx,
    m: int,
    v: crate::lua51::debug_info::DebugView,
    n: int,
)
    requires
        0 <= pos <= m <= b.len(),
        crate::lua51::debug_info::spec_read_debug(b, pos, ctx) == Ok::<
            (crate::lua51::debug_info::DebugView, int),
            CodecError,
        >((v, n)),
    ensures
        pos < n,
        n <= b.len(),
        n <= m ==> crate::lua51::debug_info::spec_read_debug(b.take(m), pos, ctx) == Ok::<
            (crate::lua51::debug_info::DebugView, int),
            CodecError,
        >((v, n)),
        n > m ==> crate::lua51::debug_info::spec_read_debug(b.take(m), pos, ctx) == Err::<
            (crate::lua51::debug_info::DebugView, int),
            CodecError,
        >(CodecError::Truncated),
{
    let bp = b.take(m);
    let f1 = |p: int| spec_read_i32(b, p, ctx.endianness);
    let g1 = |p: int| spec_read_i32(bp, p, ctx.endianness);
    let f2 = |p: int| crate::lua51::debug_info::spec_read_localvar(b, p, ctx);
    let g2 = |p: int| crate::lua51::debug_info::spec_read_localvar(bp, p, ctx);
    let f3 = |p: int| crate::string::spec_read_string(b, p, ctx);
    let g3 = |p: int| crate::string::spec_read_string(bp, p, ctx);
    assert forall|p: int|
        0 <= p implies ((#[trigger] f1(p)) matches Ok(vq) ==> p < vq.1 <= b.len() && (vq.1 <= m
        ==> g1(p) == f1(p)) && (vq.1 > m ==> g1(p) == Err::<(i32, int), CodecError>(
        CodecError::Truncated,
    ))) by {
        match spec_read_i32(b, p, ctx.endianness) {
            Ok((x, q)) => {
                lemma_trunc_i32(b, p, ctx.endianness, m, x, q);
            },
            Err(err) => {
            },
        }
    }
    assert forall|p: int|
        0 <= p implies ((#[trigger] f2(p)) matches Ok(vq) ==> p < vq.1 <= b.len() && (vq.1 <= m
        ==> g2(p) == f2(p)) && (vq.1 > m ==> g2(p) == Err::<
        (crate::lua51::debug_info::LocalView, int),
        CodecError,
    >(CodecError::Truncated))) by {
        match crate::lua51::debug_info::spec_read_localvar(b, p, ctx) {
            Ok((x, q)) => {
                lemma_trunc_localvar51(b, p, ctx, m, x, q);
            },
            Err(err) => {
            },
        }
    }
    assert forall|p: int|
        0 <= p implies ((#[trigger] f3(p)) matches Ok(vq) ==> p < vq.1 <= b.len() && (vq.1 <= m
        ==> g3(p) == f3(p)) && (vq.1 > m ==> g3(p) == Err::<
        (crate::string::StringView, int),
        CodecError,
    >(CodecError::Truncated))) by {
        match crate::string::spec_read_string(b, p, ctx) {
            Ok((x, q)) => {
                lemma_trunc_string(b, p, ctx, m, x, q);
            },
            Err(err) => {
            },
        }
    }
    match crate::array::spec_read_array_size(b, pos, ctx) {
        Err(err) => {
        },
        Ok((n1, p1)) => {
            lemma_trunc_array_size(b, pos, ctx, m, n1, p1);
            match crate::codec::spec_read_list(p1, n1 as nat, f1, Seq::<i32>::empty()) {
                Err(err) => {
                },
                Ok((lines, p2)) => {
                    if p1 <= m {
                        lemma_trunc_list(
                            p1,
                            n1 as nat,
                            f1,
                            g1,
                            Seq::<i32>::empty(),
                            m,
                            b.len() as int,
                            lines,
                            p2,
                        );
                    } else {
                        lemma_list_monotone(p1, n1 as nat, f1, Seq::<i32>::empty(), lines, p2);
                        lemma_list_upper(
                            p1,
                            n1 as nat,
                            f1,
                            Seq::<i32>::empty(),
                            b.len() as int,
                            lines,
                            p2,
                        );
                    }
                    match crate::array::spec_read_array_size(b, p2, ctx) {
                        Err(err) => {
                        },
                        Ok((n2, p3)) => {
                            lemma_trunc_array_size(b, p2, ctx, m, n2, p3);
                            match crate::codec::spec_read_list(
                                p3,
                                n2 as nat,
                                f2,
                                Seq::<crate::lua51::debug_info::LocalView>::empty(),
                            ) {
                                Err(err) => {
                                },
                                Ok((locals, p4)) => {
                                    if p3 <= m {
                                        lemma_trunc_list(
                                            p3,
                                            n2 as nat,
                                            f2,
                                            g2,
                                            Seq::<crate::lua51::debug_info::LocalView>::empty(),
                                            m,
                                            b.len() as int,
                                            locals,
                                            p4,
                                        );
                                    } else {
                                        lemma_list_monotone(
                                            p3,
                                            n2 as nat,
                                            f2,
                                            Seq::<crate::lua51::debug_info::LocalView>::empty(),
                                            locals,
                                            p4,
                                        );
                                        lemma_list_upper(
                                            p3,
                                            n2 as nat,
                                            f2,
                                            Seq::<crate::lua51::debug_info::LocalView>::empty(),
                                            b.len() as int,
                                            locals,
                                            p4,
                                        );
                                    }
                                    match crate::array::spec_read_array_size(b, p4, ctx) {
                                        Err(err) => {
                                        },
                                        Ok((n3, p5)) => {
                                            lemma_trunc_array_size(b, p4, ctx, m, n3, p5);
                                            match crate::codec::spec_read_list(
                                                p5,
                                                n3 as nat,
                                                f3,
                                                Seq::<crate::string::StringView>::empty(),
                                            ) {
                                                Err(err) => {
                                                },
                                                Ok((ups, p6)) => {
                                                    if p5 <= m {
                                                        lemma_trunc_list(
                                                            p5,
                                                            n3 as nat,
                                                            f3,
                                                            g3,
                                                            Seq::<
                                                                crate::string::StringView,
                                                            >::empty(),
                                                            m,
                                                            b.len() as int,
                                                            ups,
                                                            p6,
                                                        );
                                                    } else {
                                                        lemma_list_monotone(
                                                            p5,
                                                            n3 as nat,
                                                            f3,
                                                            Seq::<
                                                                crate::string::StringView,
                                                            >::empty(),
                                                            ups,
                                                            p6,
                                                        );
                                                        lemma_list_upper(
                                                            p5,
                                                            n3 as nat,
                                                            f3,
                                                            Seq::<
                                                                crate::string::StringView,
                                                            >::empty(),
                                                            b.len() as int,
                                                            ups,
                                                            p6,
                                                        );
                                                    }
                                                },
                                            }
                                        },
                                    }
                                },
                            }
                        },
                    }
                },
            }
        },
    }
}

} // verus!

verus! {

/// A 5.1 prototype under the cut.  The fuel for the cut buffer only
/// needs to exceed the bytes remaining there, exactly as for the full
/// buffer.
pub proof fn lemma_trunc_proto51(
    b: Seq<u8>,
    pos: int,
    ctx: CommonCtx,
    fl: nat,
    flp: nat,
    m: int,
    pv: crate::lua51::ProtoView,
    n: int,
)
    requires
        0 <= pos <= m <= b.len(),
        crate::lua51::spec_read_proto(b, pos, ctx, fl) == Some(
            Ok::<(crate::lua51::ProtoView, int), CodecError>((pv, n)),
        ),
        flp > m - pos,
    ensures
        pos < n,
        n <= b.len(),
        n <= m ==> crate::lua51::spec_read_proto(b.take(m), pos, ctx, flp) == Some(
            Ok::<(crate::lua51::ProtoView, int), CodecError>((pv, n)),
        ),
        n > m ==> crate::lua51::spec_read_proto(b.take(m), pos, ctx, flp) == Some(
            Err::<(crate::lua51::ProtoView, int), CodecError>(CodecError::Truncated),
        ),
    decreases fl, 0nat, 1nat,
{
    match crate::string::spec_read_string(b, pos, ctx) {
        Err(err) => {
        },
        Ok((source, p1)) => {
            lemma_trunc_string(b, pos, ctx, m, source, p1);
            match spec_read_i32(b, p1, ctx.endianness) {
                Err(err) => {
                },
                Ok((ld, p2)) => {
                    lemma_trunc_i32(b, p1, ctx.endianness, m, ld, p2);
                    match spec_read_i32(b, p2, ctx.endianness) {
                        Err(err) => {
                        },
                        Ok((lld, p3)) => {
                            lemma_trunc_i32(b, p2, ctx.endianness, m, lld, p3);
                            match spec_read_u8(b, p3) {
                                Err(err) => {
                                },
                                Ok((nups, p4)) => {
                                    lemma_trunc_u8(b, p3, m, nups, p4);
                                    match spec_read_u8(b, p4) {
                                        Err(err) => {
                                        },
                                        Ok((nparams, p5)) => {
                                            lemma_trunc_u8(b, p4, m, nparams, p5);
                                            match spec_read_u8(b, p5) {
                                                Err(err) => {
                                                },
                                                Ok((va, p6)) => {
                                                    lemma_trunc_u8(b, p5, m, va, p6);
                                                    match spec_read_u8(b, p6) {
                                                        Err(err) => {
                                                        },
                                                        Ok((ms, p7)) => {
                                                            lemma_trunc_u8(b, p6, m, ms, p7);
                                                            if p7 <= m {
                                                                lemma_trunc_proto_body51(
                                                                    b, p7, ctx, fl, flp, m, source,
                                                                    ld, lld, nups, nparams, va,
                                                                    ms, pv, n,
                                                                );
                                                            } else {
                                                                lemma_trunc_proto_body51(
                                                                    b,
                                                                    p7,
                                                                    ctx,
                                                                    fl,
                                                                    (b.len() - p7 + 1) as nat,
                                                                    b.len() as int,
                                                                    source,
                                                                    ld,
                                                                    lld,
                                                                    nups,
                                                                    nparams,
                                                                    va,
                                                                    ms,
                                                                    pv,
                                                                    n,
                                                                );
                                                            }
                                                        },
                                                    }
                                                },
                                            }
                                        },
                                    }
                                },
                            }
                        },
                    }
                },
            }
        },
    }
}

/// The arrays and debug block of a 5.1 prototype under the cut.
#[verifier::rlimit(100)]
pub proof fn lemma_trunc_proto_body51(
    b: Seq<u8>,
    p7: int,
    ctx: CommonCtx,
    fl: nat,
    flp: nat,
    m: int,
    source: crate::string::StringView,
    ld: i32,
    lld: i32,
    nups: u8,
    nparams: u8,
    va: u8,
    ms: u8,
    pv: crate::lua51::ProtoView,
    n: int,
)
    requires
        0 <= p7 <= m <= b.len(),
        crate::lua51::spec_read_proto_body(b, p7, ctx, fl, source, ld, lld, nups, nparams, va, ms)
            == Some(Ok::<(crate::lua51::ProtoView, int), CodecError>((pv, n))),
        flp > m - p7,
    ensures
        p7 < n,
        n <= b.len(),
        n <= m ==> crate::lua51::spec_read_proto_body(
            b.take(m),
            p7,
            ctx,
            flp,
            source,
            ld,
            lld,
            nups,
            nparams,
            va,
            ms,
        ) == Some(Ok::<(crate::lua51::ProtoView, int), CodecError>((pv, n))),
        n > m ==> crate::lua51::spec_read_proto_body(
            b.take(m),
            p7,
            ctx,
            flp,
            source,
            ld,
            lld,
            nups,
            nparams,
            va,
            ms,
        ) == Some(Err::<(crate::lua51::ProtoView, int), CodecError>(CodecError::Truncated)),
    decreases fl, 0nat, 0nat,
{
    let bp = b.take(m);
    let fi = |p: int| crate::lua51::instructions::spec_read_instr(b, p, ctx);
    let gi = |p: int| crate::lua51::instructions::spec_read_instr(bp, p, ctx);
    let fc = |p: int| crate::lua51::constants::spec_read_constant(b, p, ctx);
    let gc = |p: int| crate::lua51::constants::spec_read_constant(bp, p, ctx);
    assert forall|p: int|
        0 <= p implies ((#[trigger] fi(p)) matches Ok(vq) ==> p < vq.1 <= b.len() && (vq.1 <= m
        ==> gi(p) == fi(p)) && (vq.1 > m ==> gi(p) == Err::<
        (crate::lua51::instructions::Instruction, int),
        CodecError,
    >(CodecError::Truncated))) by {
        match crate::lua51::instructions::spec_read_instr(b, p, ctx) {
            Ok((x, q)) => {
                lemma_trunc_instr51(b, p, ctx, m, x, q);
            },
            Err(err) => {
            },
        }
    }
    assert forall|p: int|
        0 <= p implies ((#[trigger] fc(p)) matches Ok(vq) ==> p < vq.1 <= b.len() && (vq.1 <= m
        ==> gc(p) == fc(p)) && (vq.1 > m ==> gc(p) == Err::<
        (crate::lua51::constants::ConstView, int),
        CodecError,
    >(CodecError::Truncated))) by {
        match crate::lua51::constants::spec_read_constant(b, p, ctx) {
            Ok((x, q)) => {
                lemma_trunc_constant51(b, p, ctx, m, x, q);
            },
            Err(err) => {
            },
        }
    }
    match crate::array::spec_read_array_size(b, p7, ctx) {
        Err(err) => {
        },
        Ok((n_code, p8)) => {
            lemma_trunc_array_size(b, p7, ctx, m, n_code, p8);
            match crate::codec::spec_read_list(
                p8,
                n_code as nat,
                fi,
                Seq::<crate::lua51::instructions::Instruction>::empty(),
            ) {
                Err(err) => {
                },
                Ok((code, p9)) => {
                    if p8 <= m {
                        lemma_trunc_list(
                            p8,
                            n_code as nat,
                            fi,
                            gi,
                            Seq::<crate::lua51::instructions::Instruction>::empty(),
                            m,
                            b.len() as int,
                            code,
                            p9,
                        );
                    } else {
                        lemma_list_monotone(
                            p8,
                            n_code as nat,
                            fi,
                            Seq::<crate::lua51::instructions::Instruction>::empty(),
                            code,
                            p9,
                        );
                        lemma_list_upper(
                            p8,
                            n_code as nat,
                            fi,
                            Seq::<crate::lua51::instructions::Instruction>::empty(),
                            b.len() as int,
                            code,
                            p9,
                        );
                    }
                    match crate::array::spec_read_array_size(b, p9, ctx) {
                        Err(err) => {
                        },
                        Ok((n_const, p10)) => {
                            lemma_trunc_array_size(b, p9, ctx, m, n_const, p10);
                            match crate::codec::spec_read_list(
                                p10,
                                n_const as nat,
                                fc,
                                Seq::<crate::lua51::constants::ConstView>::empty(),
                            ) {
                                Err(err) => {
                                },
                                Ok((consts, p11)) => {
                                    if p10 <= m {
                                        lemma_trunc_list(
                                            p10,
                                            n_const as nat,
                                            fc,
                                            gc,
                                            Seq::<crate::lua51::constants::ConstView>::empty(),
                                            m,
                                            b.len() as int,
                                            consts,
                                            p11,
                                        );
                                    } else {
                                        lemma_list_monotone(
                                            p10,
                                            n_const as nat,
                                            fc,
                                            Seq::<crate::lua51::constants::ConstView>::empty(),
                                            consts,
                                            p11,
                                        );
                                        lemma_list_upper(
                                            p10,
                                            n_const as nat,
                                            fc,
                                            Seq::<crate::lua51::constants::ConstView>::empty(),
                                            b.len() as int,
                                            consts,
                                            p11,
                                        );
                                    }
                                    match crate::array::spec_read_array_size(b, p11, ctx) {
                                        Err(err) => {
                                        },
                                        Ok((n_protos, p12)) => {
                                            lemma_trunc_array_size(b, p11, ctx, m, n_protos, p12);
                                            match crate::lua51::spec_read_protos(
                                                b,
                                                p12,
                                                ctx,
                                                n_protos as nat,
                                                (fl - 1) as nat,
                                                Seq::<crate::lua51::ProtoView>::empty(),
                                            ) {
                                                None => {
                                                },
                                                Some(Err(err)) => {
                                                },
                                                Some(Ok((protos, p13))) => {
                                                    if p12 <= m {
                                                        lemma_trunc_protos51(
                                                            b,
                                                            p12,
                                                            ctx,
                                                            n_protos as nat,
                                                            (fl - 1) as nat,
                                                            (flp - 1) as nat,
                                                            Seq::<crate::lua51::ProtoView>::empty(),
                                                            m,
                                                            protos,
                                                            p13,
                                                        );
                                                    } else {
                                                        lemma_trunc_protos51(
                                                            b,
                                                            p12,
                                                            ctx,
                                                            n_protos as nat,
                                                            (fl - 1) as nat,
                                                            (b.len() - p12 + 1) as nat,
                                                            Seq::<crate::lua51::ProtoView>::empty(),
                                                            b.len() as int,
                                                            protos,
                                                            p13,
                                                        );
                                                    }
                                                    match crate::lua51::debug_info::spec_read_debug(
                                                        b,
                                                        p13,
                                                        ctx,
                                                    ) {
                                                        Err(err) => {
                                                        },
                                                        Ok((dbg, p14)) => {
                                                            if p13 <= m {
                                                                lemma_trunc_debug51(
                                                                    b, p13, ctx, m, dbg, p14,
                                                                );
                                                            } else {
                                                                lemma_trunc_debug51(
                                                                    b,
                                                                    p13,
                                                                    ctx,
                                                                    b.len() as int,
                                                                    dbg,
                                                                    p14,
                                                                );
                                                            }
                                                        },
                                                    }
                                                },
                                            }
                                        },
                                    }
                                },
                            }
                        },
                    }
                },
            }
        },
    }
}

/// A run of nested 5.1 prototypes under the cut.
pub proof fn lemma_trunc_protos51(
    b: Seq<u8>,
    pos: int,
    ctx: CommonCtx,
    cnt: nat,
    fl: nat,
    flp: nat,
    acc: Seq<crate::lua51::ProtoView>,
    m: int,
    s: Seq<crate::lua51::ProtoView>,
    n: int,
)
    requires
        0 <= pos <= m <= b.len(),
        crate::lua51::spec_read_protos(b, pos, ctx, cnt, fl, acc) == Some(
            Ok::<(Seq<crate::lua51::ProtoView>, int), CodecError>((s, n)),
        ),
        flp > m - pos,
    ensures
        pos <= n,
        n <= b.len(),
        n <= m ==> crate::lua51::spec_read_protos(b.take(m), pos, ctx, cnt, flp, acc) == Some(
            Ok::<(Seq<crate::lua51::ProtoView>, int), CodecError>((s, n)),
        ),
        n > m ==> crate::lua51::spec_read_protos(b.take(m), pos, ctx, cnt, flp, acc) == Some(
            Err::<(Seq<crate::lua51::ProtoView>, int), CodecError>(CodecError::Truncated),
        ),
    decreases fl, cnt, 2nat,
{
    if cnt > 0 {
        match crate::lua51::spec_read_proto(b, pos, ctx, fl) {
            None => {
            },
            Some(Err(err)) => {
            },
            Some(Ok((pc, q))) => {
                lemma_trunc_proto51(b, pos, ctx, fl, flp, m, pc, q);
                if q <= m {
                    lemma_trunc_protos51(
                        b,
                        q,
                        ctx,
                        (cnt - 1) as nat,
                        fl,
                        flp,
                        acc.push(pc),
                        m,
                        s,
                        n,
                    );
                } else {
                    lemma_trunc_protos51(
                        b,
                        q,
                        ctx,
                        (cnt - 1) as nat,
                        fl,
                        (b.len() - q + 1) as nat,
                        acc.push(pc),
                        b.len() as int,
                        s,
                        n,
                    );
                }
            },
        }
    }
}

/// A 5.1 header under the cut.
pub proof fn lemma_trunc_header51(
    b: Seq<u8>,
    pos: int,
    m: int,
    hv: crate::lua51::HeaderView,
    n: int,
)
    requires
        0 <= pos,
        0 <= m <= b.len(),
        crate::lua51::spec_read_header(b, pos) == Ok::<
            (crate::lua51::HeaderView, int),
            CodecError,
        >((hv, n)),
    ensures
        pos < n,
        n <= b.len(),
        n <= m ==> crate::lua51::spec_read_header(b.take(m), pos) == Ok::<
            (crate::lua51::HeaderView, int),
            CodecError,
        >((hv, n)),
        n > m ==> crate::lua51::spec_read_header(b.take(m), pos) == Err::<
            (crate::lua51::HeaderView, int),
            CodecError,
        >(CodecError::Truncated),
{
    if n <= m {
        assert(b.take(m).subrange(pos, pos + 4) =~= b.subrange(pos, pos + 4));
    }
}

/// The truncation law for whole 5.1 chunks: cut a successfully decoded
/// chunk anywhere strictly before its end, and decoding the remaining
/// prefix reports exactly the truncated-input error.
pub proof fn lemma_chunk_truncation51(b: Seq<u8>, m: int, bv: crate::lua51::BytecodeView, n: int)
    requires
        crate::lua51::spec_read_chunk(b) == Ok::<(crate::lua51::BytecodeView, int), CodecError>(
            (bv, n),
        ),
        0 <= m < n,
    ensures
        crate::lua51::spec_read_chunk(b.take(m)) == Err::<
            (crate::lua51::BytecodeView, int),
            CodecError,
        >(CodecError::Truncated),
{
    match crate::lua51::spec_read_header(b, 0) {
        Err(err) => {
        },
        Ok((h, p)) => {
            let ctx = CommonCtx {
                size_of_size_t: h.size_of_size_t,
                lua_version: h.version,
                endianness: crate::Endianness::Little,
            };
            match crate::lua51::spec_read_proto(b, p, ctx, (b.len() + 1) as nat) {
                None => {
                },
                Some(Err(err)) => {
                },
                Some(Ok((pvv, nn))) => {
                    lemma_trunc_proto51(
                        b,
                        p,
                        ctx,
                        (b.len() + 1) as nat,
                        (b.len() + 1) as nat,
                        b.len() as int,
                        pvv,
                        nn,
                    );
                    lemma_trunc_header51(b, 0, m, h, p);
                    if p <= m {
                        lemma_trunc_proto51(
                            b,
                            p,
                            ctx,
                            (b.len() + 1) as nat,
                            (m + 1) as nat,
                            m,
                            pvv,
                            nn,
                        );
                        assert(b.take(m).len() == m);
                    }
                },
            }
        },
    }
}

} // verus!

verus! {

/// A 5.2 instruction under the cut.
pub proof fn lemma_trunc_instr52(
    b: Seq<u8>,
    pos: int,
    ctx: CommonCtx,
    m: int,
    v: crate::lua52::instructions::Instruction,
    n: int,
)
    requires
        0 <= pos,
        0 <= m <= b.len(),
        crate::lua52::instructions::spec_read_instr(b, pos, ctx) == Ok::<
            (crate::lua52::instructions::Instruction, int),
            CodecError,
        >((v, n)),
    ensures
        pos < n,
        n <= b.len(),
        n <= m ==> crate::lua52::instructions::spec_read_instr(b.take(m), pos, ctx) == Ok::<
            (crate::lua52::instructions::Instruction, int),
            CodecError,
        >((v, n)),
        n > m ==> crate::lua52::instructions::spec_read_instr(b.take(m), pos, ctx) == Err::<
            (crate::lua52::instructions::Instruction, int),
            CodecError,
        >(CodecError::Truncated),
{
    match spec_read_u32(b, pos, ctx.endianness) {
        Ok((w, q)) => {
            lemma_trunc_u32(b, pos, ctx.endianness, m, w, q);
        },
        Err(err) => {
        },
    }
}

/// A 5.2 constant under the cut.
pub proof fn lemma_trunc_constant52(
    b: Seq<u8>,
    pos: int,
    ctx: CommonCtx,
    m: int,
    v: crate::lua52::constants::ConstView,
    n: int,
)
    requires
        0 <= pos,
        0 <= m <= b.len(),
        crate::lua52::constants::spec_read_constant(b, pos, ctx) == Ok::<
            (crate::lua52::constants::ConstView, int),
            CodecError,
        >((v, n)),
    ensures
        pos < n,
        n <= b.len(),
        n <= m ==> crate::lua52::constants::spec_read_constant(b.take(m), pos, ctx) == Ok::<
            (crate::lua52::constants::ConstView, int),
            CodecError,
        >((v, n)),
        n > m ==> crate::lua52::constants::spec_read_constant(b.take(m), pos, ctx) == Err::<
            (crate::lua52::constants::ConstView, int),
            CodecError,
        >(CodecError::Truncated),
{
    match spec_read_u8(b, pos) {
        Err(err) => {
        },
        Ok((tag, p1)) => {
            lemma_trunc_u8(b, pos, m, tag, p1);
            if tag == 1 {
                match spec_read_u8(b, p1) {
                    Ok((x, q)) => {
                        lemma_trunc_u8(b, p1, m, x, q);
                    },
                    Err(err) => {
                    },
                }
            } else if tag == 3 {
                match spec_read_u64(b, p1, ctx.endianness) {
                    Ok((x, q)) => {
                        lemma_trunc_u64(b, p1, ctx.endianness, m, x, q);
                    },
                    Err(err) => {
                    },
                }
            } else if tag == 4 {
                match crate::string::spec_read_string(b, p1, ctx) {
                    Ok((s, q)) => {
                        lemma_trunc_string(b, p1, ctx, m, s, q);
                    },
                    Err(err) => {
                    },
                }
            }
        },
    }
}

/// A two-byte upvalue descriptor under the cut, for 5.2 and 5.3.
pub proof fn lemma_trunc_upvalue52(
    b: Seq<u8>,
    pos: int,
    m: int,
    v: crate::lua52::upvalues::Upvalue,
    n: int,
)
    requires
        0 <= pos,
        0 <= m <= b.len(),
        crate::lua52::upvalues::spec_read_upvalue(b, pos) == Ok::<
            (crate::lua52::upvalues::Upvalue, int),
            CodecError,
        >((v, n)),
    ensures
        pos < n,
        n <= b.len(),
        n <= m ==> crate::lua52::upvalues::spec_read_upvalue(b.take(m), pos) == Ok::<
            (crate::lua52::upvalues::Upvalue, int),
            CodecError,
        >((v, n)),
        n > m ==> crate::lua52::upvalues::spec_read_upvalue(b.take(m), pos) == Err::<
            (crate::lua52::upvalues::Upvalue, int),
            CodecError,
        >(CodecError::Truncated),
{
    match spec_read_u8(b, pos) {
        Err(err) => {
        },
        Ok((x1, p1)) => {
            lemma_trunc_u8(b, pos, m, x1, p1);
            match spec_read_u8(b, p1) {
                Err(err) => {
                },
                Ok((x2, p2)) => {
                    lemma_trunc_u8(b, p1, m, x2, p2);
                },
            }
        },
    }
}

/// A 5.2 local-variable record under the cut.
pub proof fn lemma_trunc_localvar52(
    b: Seq<u8>,
    pos: int,
    ctx: CommonCtx,
    m: int,
    v: crate::lua52::debug_info::LocalView,
    n: int,
)
    requires
        0 <= pos,
        0 <= m <= b.len(),
        crate::lua52::debug_info::spec_read_localvar(b, pos, ctx) == Ok::<
            (crate::lua52::debug_info::LocalView, int),
            CodecError,
        >((v, n)),
    ensures
        pos < n,
        n <= b.len(),
        n <= m ==> crate::lua52::debug_info::spec_read_localvar(b.take(m), pos, ctx) == Ok::<
            (crate::lua52::debug_info::LocalView, int),
            CodecError,
        >((v, n)),
        n > m ==> crate::lua52::debug_info::spec_read_localvar(b.take(m), pos, ctx) == Err::<
            (crate::lua52::debug_info::LocalView, int),
            CodecError,
        >(CodecError::Truncated),
{
    match crate::string::spec_read_string(b, pos, ctx) {
        Err(err) => {
        },
        Ok((name, p1)) => {
            lemma_trunc_string(b, pos, ctx, m, name, p1);
            match spec_read_i32(b, p1, ctx.endianness) {
                Err(err) => {
                },
                Ok((x1, p2)) => {
                    lemma_trunc_i32(b, p1, ctx.endianness, m, x1, p2);
                    match spec_read_i32(b, p2, ctx.endianness) {
                        Err(err) => {
                        },
                        Ok((x2, p3)) => {
                            lemma_trunc_i32(b, p2, ctx.endianness, m, x2, p3);
                        },
                    }
                },
            }
        },
    }
}

/// A 5.2 debug block under the cut: the source name, then the three
/// tables.
pub proof fn lemma_trunc_debug52(
    b: Seq<u8>,
    pos: int,
    ctx: CommonCtx,
    m: int,
    v: crate::lua52::debug_info::DebugView,
    n: int,
)
    requires
        0 <= pos <= m <= b.len(),
        crate::lua52::debug_info::spec_read_debug(b, pos, ctx) == Ok::<
            (crate::lua52::debug_info::DebugView, int),
            CodecError,
        >((v, n)),
    ensures
        pos < n,
        n <= b.len(),
        n <= m ==> crate::lua52::debug_info::spec_read_debug(b.take(m), pos, ctx) == Ok::<
            (crate::lua52::debug_info::DebugView, int),
            CodecError,
        >((v, n)),
        n > m ==> crate::lua52::debug_info::spec_read_debug(b.take(m), pos, ctx) == Err::<
            (crate::lua52::debug_info::DebugView, int),
            CodecError,
        >(CodecError::Truncated),
{
    match crate::string::spec_read_string(b, pos, ctx) {
        Err(err) => {
        },
        Ok((source, ps)) => {
            lemma_trunc_string(b, pos, ctx, m, source, ps);
            if ps <= m {
                lemma_trunc_debug52_tables(b, ps, ctx, m, source, v, n);
            } else {
                lemma_trunc_debug52_tables(b, ps, ctx, b.len() as int, source, v, n);
            }
        },
    }
}

/// The three tables of a 5.2 debug block under the cut.
pub proof fn lemma_trunc_debug52_tables(
    b: Seq<u8>,
    pos: int,
    ctx: CommonCtx,
    m: int,
    source: crate::string::StringView,
    v: crate::lua52::debug_info::DebugView,
    n: int,
)
    requires
        0 <= pos <= m <= b.len(),
        crate::lua52::debug_info::spec_read_debug_tables(b, pos, ctx, source) == Ok::<
            (crate::lua52::debug_info::DebugView, int),
            CodecError,
        >((v, n)),
    ensures
        pos < n,
        n <= b.len(),
        n <= m ==> crate::lua52::debug_info::spec_read_debug_tables(b.take(m), pos, ctx, source)
            == Ok::<(crate::lua52::debug_info::DebugView, int), CodecError>((v, n)),
        n > m ==> crate::lua52::debug_info::spec_read_debug_tables(b.take(m), pos, ctx, source)
            == Err::<(crate::lua52::debug_info::DebugView, int), CodecError>(
            CodecError::Truncated,
        ),
{
    let bp = b.take(m);
    let f1 = |p: int| spec_read_i32(b, p, ctx.endianness);
    let g1 = |p: int| spec_read_i32(bp, p, ctx.endianness);
    let f2 = |p: int| crate::lua52::debug_info::spec_read_localvar(b, p, ctx);
    let g2 = |p: int| crate::lua52::debug_info::spec_read_localvar(bp, p, ctx);
    let f3 = |p: int| crate::string::spec_read_string(b, p, ctx);
    let g3 = |p: int| crate::string::spec_read_string(bp, p, ctx);
    assert forall|p: int|
        0 <= p implies ((#[trigger] f1(p)) matches Ok(vq) ==> p < vq.1 <= b.len() && (vq.1 <= m
        ==> g1(p) == f1(p)) && (vq.1 > m ==> g1(p) == Err::<(i32, int), CodecError>(
        CodecError::Truncated,
    ))) by {
        match spec_read_i32(b, p, ctx.endianness) {
            Ok((x, q)) => {
                lemma_trunc_i32(b, p, ctx.endianness, m, x, q);
            },
            Err(err) => {
            },
        }
    }
    assert forall|p: int|
        0 <= p implies ((#[trigger] f2(p)) matches Ok(vq) ==> p < vq.1 <= b.len() && (vq.1 <= m
        ==> g2(p) == f2(p)) && (vq.1 > m ==> g2(p) == Err::<
        (crate::lua52::debug_info::LocalView, int),
        CodecError,
    >(CodecError::Truncated))) by {
        match crate::lua52::debug_info::spec_read_localvar(b, p, ctx) {
            Ok((x, q)) => {
                lemma_trunc_localvar52(b, p, ctx, m, x, q);
            },
            Err(err) => {
            },
        }
    }
    assert forall|p: int|
        0 <= p implies ((#[trigger] f3(p)) matches Ok(vq) ==> p < vq.1 <= b.len() && (vq.1 <= m
        ==> g3(p) == f3(p)) && (vq.1 > m ==> g3(p) == Err::<
        (crate::string::StringView, int),
        CodecError,
    >(CodecError::Truncated))) by {
        match crate::string::spec_read_string(b, p, ctx) {
            Ok((x, q)) => {
                lemma_trunc_string(b, p, ctx, m, x, q);
            },
            Err(err) => {
            },
        }
    }
    match crate::array::spec_read_array_size(b, pos, ctx) {
        Err(err) => {
        },
        Ok((n1, p1)) => {
            lemma_trunc_array_size(b, pos, ctx, m, n1, p1);
            match crate::codec::spec_read_list(p1, n1 as nat, f1, Seq::<i32>::empty()) {
                Err(err) => {
                },
                Ok((lines, p2)) => {
                    if p1 <= m {
                        lemma_trunc_list(
                            p1,
                            n1 as nat,
                            f1,
                            g1,
                            Seq::<i32>::empty(),
                            m,
                            b.len() as int,
                            lines,
                            p2,
                        );
                    } else {
                        lemma_list_monotone(p1, n1 as nat, f1, Seq::<i32>::empty(), lines, p2);
                        lemma_list_upper(
                            p1,
                            n1 as nat,
                            f1,
                            Seq::<i32>::empty(),
                            b.len() as int,
                            lines,
                            p2,
                        );
                    }
                    match crate::array::spec_read_array_size(b, p2, ctx) {
                        Err(err) => {
                        },
                        Ok((n2, p3)) => {
                            lemma_trunc_array_size(b, p2, ctx, m, n2, p3);
                            match crate::codec::spec_read_list(
                                p3,
                                n2 as nat,
                                f2,
                                Seq::<crate::lua52::debug_info::LocalView>::empty(),
                            ) {
                                Err(err) => {
                                },
                                Ok((locals, p4)) => {
                                    if p3 <= m {
                                        lemma_trunc_list(
                                            p3,
                                            n2 as nat,
                                            f2,
                                            g2,
                                            Seq::<crate::lua52::debug_info::LocalView>::empty(),
                                            m,
                                            b.len() as int,
                                            locals,
                                            p4,
                                        );
                                    } else {
                                        lemma_list_monotone(
                                            p3,
                                            n2 as nat,
                                            f2,
                                            Seq::<crate::lua52::debug_info::LocalView>::empty(),
                                            locals,
                                            p4,
                                        );
                                        lemma_list_upper(
                                            p3,
                                            n2 as nat,
                                            f2,
                                            Seq::<crate::lua52::debug_info::LocalView>::empty(),
                                            b.len() as int,
                                            locals,
                                            p4,
                                        );
                                    }
                                    match crate::array::spec_read_array_size(b, p4, ctx) {
                                        Err(err) => {
                                        },
                                        Ok((n3, p5)) => {
                                            lemma_trunc_array_size(b, p4, ctx, m, n3, p5);
                                            match crate::codec::spec_read_list(
                                                p5,
                                                n3 as nat,
                                                f3,
                                                Seq::<crate::string::StringView>::empty(),
                                            ) {
                                                Err(err) => {
                                                },
                                                Ok((ups, p6)) => {
                                                    if p5 <= m {
                                                        lemma_trunc_list(
                                                            p5,
                                                            n3 as nat,
                                                            f3,
                                                            g3,
                                                            Seq::<
                                                                crate::string::StringView,
                                                            >::empty(),
                                                            m,
                                                            b.len() as int,
                                                            ups,
                                                            p6,
                                                        );
                                                    } else {
                                                        lemma_list_monotone(
                                                            p5,
                                                            n3 as nat,
                                                            f3,
                                                            Seq::<
                                                                crate::string::StringView,
                                                            >::empty(),
                                                            ups,
                                                            p6,
                                                        );
                                                        lemma_list_upper(
                                                            p5,
                                                            n3 as nat,
                                                            f3,
                                                            Seq::<
                                                                crate::string::StringView,
                                                            >::empty(),
                                                            b.len() as int,
                                                            ups,
                                                            p6,
                                                        );
                                                    }
                                                },
                                            }
                                        },
                                    }
                                },
                            }
                        },
                    }
                },
            }
        },
    }
}

} // verus!

verus! {

/// A 5.2 prototype under the cut.
pub proof fn lemma_trunc_proto52(
    b: Seq<u8>,
    pos: int,
    ctx: CommonCtx,
    fl: nat,
    flp: nat,
    m: int,
    pv: crate::lua52::ProtoView,
    n: int,
)
    requires
        0 <= pos <= m <= b.len(),
        crate::lua52::spec_read_proto(b, pos, ctx, fl) == Some(
            Ok::<(crate::lua52::ProtoView, int), CodecError>((pv, n)),
        ),
        flp > m - pos,
    ensures
        pos < n,
        n <= b.len(),
        n <= m ==> crate::lua52::spec_read_proto(b.take(m), pos, ctx, flp) == Some(
            Ok::<(crate::lua52::ProtoView, int), CodecError>((pv, n)),
        ),
        n > m ==> crate::lua52::spec_read_proto(b.take(m), pos, ctx, flp) == Some(
            Err::<(crate::lua52::ProtoView, int), CodecError>(CodecError::Truncated),
        ),
    decreases fl, 0nat, 1nat,
{
    match spec_read_i32(b, pos, ctx.endianness) {
        Err(err) => {
        },
        Ok((ld, p2)) => {
            lemma_trunc_i32(b, pos, ctx.endianness, m, ld, p2);
            match spec_read_i32(b, p2, ctx.endianness) {
                Err(err) => {
                },
                Ok((lld, p3)) => {
                    lemma_trunc_i32(b, p2, ctx.endianness, m, lld, p3);
                    match spec_read_u8(b, p3) {
                        Err(err) => {
                        },
                        Ok((nparams, p4)) => {
                            lemma_trunc_u8(b, p3, m, nparams, p4);
                            match spec_read_u8(b, p4) {
                                Err(err) => {
                                },
                                Ok((va, p5)) => {
                                    lemma_trunc_u8(b, p4, m, va, p5);
                                    match spec_read_u8(b, p5) {
                                        Err(err) => {
                                        },
                                        Ok((ms, p6)) => {
                                            lemma_trunc_u8(b, p5, m, ms, p6);
                                            if p6 <= m {
                                                lemma_trunc_proto_body52(
                                                    b, p6, ctx, fl, flp, m, ld, lld, nparams, va,
                                                    ms, pv, n,
                                                );
                                            } else {
                                                lemma_trunc_proto_body52(
                                                    b,
                                                    p6,
                                                    ctx,
                                                    fl,
                                                    (b.len() - p6 + 1) as nat,
                                                    b.len() as int,
                                                    ld,
                                                    lld,
                                                    nparams,
                                                    va,
                                                    ms,
                                                    pv,
                                                    n,
                                                );
                                            }
                                        },
                                    }
                                },
                            }
                        },
                    }
                },
            }
        },
    }
}

/// The arrays and debug block of a 5.2 prototype under the cut.
#[verifier::rlimit(100)]
pub proof fn lemma_trunc_proto_body52(
    b: Seq<u8>,
    p6: int,
    ctx: CommonCtx,
    fl: nat,
    flp: nat,
    m: int,
    ld: i32,
    lld: i32,
    nparams: u8,
    va: u8,
    ms: u8,
    pv: crate::lua52::ProtoView,
    n: int,
)
    requires
        0 <= p6 <= m <= b.len(),
        crate::lua52::spec_read_proto_body(b, p6, ctx, fl, ld, lld, nparams, va, ms) == Some(
            Ok::<(crate::lua52::ProtoView, int), CodecError>((pv, n)),
        ),
        flp > m - p6,
    ensures
        p6 < n,
        n <= b.len(),
        n <= m ==> crate::lua52::spec_read_proto_body(b.take(m), p6, ctx, flp, ld, lld, nparams, va, ms)
            == Some(Ok::<(crate::lua52::ProtoView, int), CodecError>((pv, n))),
        n > m ==> crate::lua52::spec_read_proto_body(b.take(m), p6, ctx, flp, ld, lld, nparams, va, ms)
            == Some(Err::<(crate::lua52::ProtoView, int), CodecError>(CodecError::Truncated)),
    decreases fl, 0nat, 0nat,
{
    let bp = b.take(m);
    let fi = |p: int| crate::lua52::instructions::spec_read_instr(b, p, ctx);
    let gi = |p: int| crate::lua52::instructions::spec_read_instr(bp, p, ctx);
    let fc = |p: int| crate::lua52::constants::spec_read_constant(b, p, ctx);
    let gc = |p: int| crate::lua52::constants::spec_read_constant(bp, p, ctx);
    let fu = |p: int| crate::lua52::upvalues::spec_read_upvalue(b, p);
    let gu = |p: int| crate::lua52::upvalues::spec_read_upvalue(bp, p);
    assert forall|p: int|
        0 <= p implies ((#[trigger] fi(p)) matches Ok(vq) ==> p < vq.1 <= b.len() && (vq.1 <= m
        ==> gi(p) == fi(p)) && (vq.1 > m ==> gi(p) == Err::<
        (crate::lua52::instructions::Instruction, int),
        CodecError,
    >(CodecError::Truncated))) by {
        match crate::lua52::instructions::spec_read_instr(b, p, ctx) {
            Ok((x, q)) => {
                lemma_trunc_instr52(b, p, ctx, m, x, q);
            },
            Err(err) => {
            },
        }
    }
    assert forall|p: int|
        0 <= p implies ((#[trigger] fc(p)) matches Ok(vq) ==> p < vq.1 <= b.len() && (vq.1 <= m
        ==> gc(p) == fc(p)) && (vq.1 > m ==> gc(p) == Err::<
        (crate::lua52::constants::ConstView, int),
        CodecError,
    >(CodecError::Truncated))) by {
        match crate::lua52::constants::spec_read_constant(b, p, ctx) {
            Ok((x, q)) => {
                lemma_trunc_constant52(b, p, ctx, m, x, q);
            },
            Err(err) => {
            },
        }
    }
    assert forall|p: int|
        0 <= p implies ((#[trigger] fu(p)) matches Ok(vq) ==> p < vq.1 <= b.len() && (vq.1 <= m
        ==> gu(p) == fu(p)) && (vq.1 > m ==> gu(p) == Err::<
        (crate::lua52::upvalues::Upvalue, int),
        CodecError,
    >(CodecError::Truncated))) by {
        match crate::lua52::upvalues::spec_read_upvalue(b, p) {
            Ok((x, q)) => {
                lemma_trunc_upvalue52(b, p, m, x, q);
            },
            Err(err) => {
            },
        }
    }
    match crate::array::spec_read_array_size(b, p6, ctx) {
        Err(err) => {
        },
        Ok((n_code, p7)) => {
            lemma_trunc_array_size(b, p6, ctx, m, n_code, p7);
            match crate::codec::spec_read_list(
                p7,
                n_code as nat,
                fi,
                Seq::<crate::lua52::instructions::Instruction>::empty(),
            ) {
                Err(err) => {
                },
                Ok((code, p8)) => {
                    if p7 <= m {
                        lemma_trunc_list(
                            p7,
                            n_code as nat,
                            fi,
                            gi,
                            Seq::<crate::lua52::instructions::Instruction>::empty(),
                            m,
                            b.len() as int,
                            code,
                            p8,
                        );
                    } else {
                        lemma_list_monotone(
                            p7,
                            n_code as nat,
                            fi,
                            Seq::<crate::lua52::instructions::Instruction>::empty(),
                            code,
                            p8,
                        );
                        lemma_list_upper(
                            p7,
                            n_code as nat,
                            fi,
                            Seq::<crate::lua52::instructions::Instruction>::empty(),
                            b.len() as int,
                            code,
                            p8,
                        );
                    }
                    match crate::array::spec_read_array_size(b, p8, ctx) {
                        Err(err) => {
                        },
                        Ok((n_const, p9)) => {
                            lemma_trunc_array_size(b, p8, ctx, m, n_const, p9);
                            match crate::codec::spec_read_list(
                                p9,
                                n_const as nat,
                                fc,
                                Seq::<crate::lua52::constants::ConstView>::empty(),
                            ) {
                                Err(err) => {
                                },
                                Ok((consts, p10)) => {
                                    if p9 <= m {
                                        lemma_trunc_list(
                                            p9,
                                            n_const as nat,
                                            fc,
                                            gc,
                                            Seq::<crate::lua52::constants::ConstView>::empty(),
                                            m,
                                            b.len() as int,
                                            consts,
                                            p10,
                                        );
                                    } else {
                                        lemma_list_monotone(
                                            p9,
                                            n_const as nat,
                                            fc,
                                            Seq::<crate::lua52::constants::ConstView>::empty(),
                                            consts,
                                            p10,
                                        );
                                        lemma_list_upper(
                                            p9,
                                            n_const as nat,
                                            fc,
                                            Seq::<crate::lua52::constants::ConstView>::empty(),
                                            b.len() as int,
                                            consts,
                                            p10,
                                        );
                                    }
                                    match crate::array::spec_read_array_size(b, p10, ctx) {
                                        Err(err) => {
                                        },
                                        Ok((n_protos, p11)) => {
                                            lemma_trunc_array_size(b, p10, ctx, m, n_protos, p11);
                                            match crate::lua52::spec_read_protos(
                                                b,
                                                p11,
                                                ctx,
                                                n_protos as nat,
                                                (fl - 1) as nat,
                                                Seq::<crate::lua52::ProtoView>::empty(),
                                            ) {
                                                None => {
                                                },
                                                Some(Err(err)) => {
                                                },
                                                Some(Ok((protos, p12))) => {
                                                    if p11 <= m {
                                                        lemma_trunc_protos52(
                                                            b,
                                                            p11,
                                                            ctx,
                                                            n_protos as nat,
                                                            (fl - 1) as nat,
                                                            (flp - 1) as nat,
                                                            Seq::<crate::lua52::ProtoView>::empty(),
                                                            m,
                                                            protos,
                                                            p12,
                                                        );
                                                    } else {
                                                        lemma_trunc_protos52(
                                                            b,
                                                            p11,
                                                            ctx,
                                                            n_protos as nat,
                                                            (fl - 1) as nat,
                                                            (b.len() - p11 + 1) as nat,
                                                            Seq::<crate::lua52::ProtoView>::empty(),
                                                            b.len() as int,
                                                            protos,
                                                            p12,
                                                        );
                                                    }
                                                    match crate::array::spec_read_array_size(
                                                        b,
                                                        p12,
                                                        ctx,
                                                    ) {
                                                        Err(err) => {
                                                        },
                                                        Ok((n_ups, p13)) => {
                                                            lemma_trunc_array_size(
                                                                b, p12, ctx, m, n_ups, p13,
                                                            );
                                                            match crate::codec::spec_read_list(
                                                                p13,
                                                                n_ups as nat,
                                                                fu,
                                                                Seq::<
                                                                    crate::lua52::upvalues::Upvalue,
                                                                >::empty(),
                                                            ) {
                                                                Err(err) => {
                                                                },
                                                                Ok((ups, p14)) => {
                                                                    if p13 <= m {
                                                                        lemma_trunc_list(
                                                                            p13,
                                                                            n_ups as nat,
                                                                            fu,
                                                                            gu,
                                                                            Seq::<
                                                                                crate::lua52::upvalues::Upvalue,
                                                                            >::empty(),
                                                                            m,
                                                                            b.len() as int,
                                                                            ups,
                                                                            p14,
                                                                        );
                                                                    } else {
                                                                        lemma_list_monotone(
                                                                            p13,
                                                                            n_ups as nat,
                                                                            fu,
                                                                            Seq::<
                                                                                crate::lua52::upvalues::Upvalue,
                                                                            >::empty(),
                                                                            ups,
                                                                            p14,
                                                                        );
                                                                        lemma_list_upper(
                                                                            p13,
                                                                            n_ups as nat,
                                                                            fu,
                                                                            Seq::<
                                                                                crate::lua52::upvalues::Upvalue,
                                                                            >::empty(),
                                                                            b.len() as int,
                                                                            ups,
                                                                            p14,
                                                                        );
                                                                    }
                                                                    match crate::lua52::debug_info::spec_read_debug(
                                                                        b,
                                                                        p14,
                                                                        ctx,
                                                                    ) {
                                                                        Err(err) => {
                                                                        },
                                                                        Ok((dbg, p15)) => {
                                                                            if p14 <= m {
                                                                                lemma_trunc_debug52(
                                                                                    b, p14, ctx, m,
                                                                                    dbg, p15,
                                                                                );
                                                                            } else {
                                                                                lemma_trunc_debug52(
                                                                                    b,
                                                                                    p14,
                                                                                    ctx,
                                                                                    b.len() as int,
                                                                                    dbg,
                                                                                    p15,
                                                                                );
                                                                            }
                                                                        },
                                                                    }
                                                                },
                                                            }
                                                        },
                                                    }
                                                },
                                            }
                                        },
                                    }
                                },
                            }
                        },
                    }
                },
            }
        },
    }
}

/// A run of nested 5.2 prototypes under the cut.
pub proof fn lemma_trunc_protos52(
    b: Seq<u8>,
    pos: int,
    ctx: CommonCtx,
    cnt: nat,
    fl: nat,
    flp: nat,
    acc: Seq<crate::lua52::ProtoView>,
    m: int,
    s: Seq<crate::lua52::ProtoView>,
    n: int,
)
    requires
        0 <= pos <= m <= b.len(),
        crate::lua52::spec_read_protos(b, pos, ctx, cnt, fl, acc) == Some(
            Ok::<(Seq<crate::lua52::ProtoView>, int), CodecError>((s, n)),
        ),
        flp > m - pos,
    ensures
        pos <= n,
        n <= b.len(),
        n <= m ==> crate::lua52::spec_read_protos(b.take(m), pos, ctx, cnt, flp, acc) == Some(
            Ok::<(Seq<crate::lua52::ProtoView>, int), CodecError>((s, n)),
        ),
        n > m ==> crate::lua52::spec_read_protos(b.take(m), pos, ctx, cnt, flp, acc) == Some(
            Err::<(Seq<crate::lua52::ProtoView>, int), CodecError>(CodecError::Truncated),
        ),
    decreases fl, cnt, 2nat,
{
    if cnt > 0 {
        match crate::lua52::spec_read_proto(b, pos, ctx, fl) {
            None => {
            },
            Some(Err(err)) => {
            },
            Some(Ok((pc, q))) => {
                lemma_trunc_proto52(b, pos, ctx, fl, flp, m, pc, q);
                if q <= m {
                    lemma_trunc_protos52(
                        b,
                        q,
                        ctx,
                        (cnt - 1) as nat,
                        fl,
                        flp,
                        acc.push(pc),
                        m,
                        s,
                        n,
                    );
                } else {
                    lemma_trunc_protos52(
                        b,
                        q,
                        ctx,
                        (cnt - 1) as nat,
                        fl,
                        (b.len() - q + 1) as nat,
                        acc.push(pc),
                        b.len() as int,
                        s,
                        n,
                    );
                }
            },
        }
    }
}

/// A 5.2 header under the cut.
pub proof fn lemma_trunc_header52(
    b: Seq<u8>,
    pos: int,
    m: int,
    hv: crate::lua52::HeaderView,
    n: int,
)
    requires
        0 <= pos,
        0 <= m <= b.len(),
        crate::lua52::spec_read_header(b, pos) == Ok::<
            (crate::lua52::HeaderView, int),
            CodecError,
        >((hv, n)),
    ensures
        pos < n,
        n <= b.len(),
        n <= m ==> crate::lua52::spec_read_header(b.take(m), pos) == Ok::<
            (crate::lua52::HeaderView, int),
            CodecError,
        >((hv, n)),
        n > m ==> crate::lua52::spec_read_header(b.take(m), pos) == Err::<
            (crate::lua52::HeaderView, int),
            CodecError,
        >(CodecError::Truncated),
{
    if n <= m {
        assert(b.take(m).subrange(pos, pos + 4) =~= b.subrange(pos, pos + 4));
        assert(b.take(m).subrange(pos + 12, pos + 18) =~= b.subrange(pos + 12, pos + 18));
    }
}

/// The truncation law for whole 5.2 chunks.
pub proof fn lemma_chunk_truncation52(b: Seq<u8>, m: int, bv: crate::lua52::BytecodeView, n: int)
    requires
        crate::lua52::spec_read_chunk(b) == Ok::<(crate::lua52::BytecodeView, int), CodecError>(
            (bv, n),
        ),
        0 <= m < n,
    ensures
        crate::lua52::spec_read_chunk(b.take(m)) == Err::<
            (crate::lua52::BytecodeView, int),
            CodecError,
        >(CodecError::Truncated),
{
    match crate::lua52::spec_read_header(b, 0) {
        Err(err) => {
        },
        Ok((h, p)) => {
            let ctx = CommonCtx {
                size_of_size_t: h.size_of_size_t,
                lua_version: h.version,
                endianness: crate::Endianness::Little,
            };
            match crate::lua52::spec_read_proto(b, p, ctx, (b.len() + 1) as nat) {
                None => {
                },
                Some(Err(err)) => {
                },
                Some(Ok((pvv, nn))) => {
                    lemma_trunc_proto52(
                        b,
                        p,
                        ctx,
                        (b.len() + 1) as nat,
                        (b.len() + 1) as nat,
                        b.len() as int,
                        pvv,
                        nn,
                    );
                    lemma_trunc_header52(b, 0, m, h, p);
                    if p <= m {
                        lemma_trunc_proto52(
                            b,
                            p,
                            ctx,
                            (b.len() + 1) as nat,
                            (m + 1) as nat,
                            m,
                            pvv,
                            nn,
                        );
                        assert(b.take(m).len() == m);
                    }
                },
            }
        },
    }
}

} // verus!

verus! {

/// A 5.3 constant under the cut.
pub proof fn lemma_trunc_constant53(
    b: Seq<u8>,
    pos: int,
    ctx: CommonCtx,
    m: int,
    v: crate::lua53::constants::ConstView,
    n: int,
)
    requires
        0 <= pos,
        0 <= m <= b.len(),
        crate::lua53::constants::spec_read_constant(b, pos, ctx) == Ok::<
            (crate::lua53::constants::ConstView, int),
            CodecError,
        >((v, n)),
    ensures
        pos < n,
        n <= b.len(),
        n <= m ==> crate::lua53::constants::spec_read_constant(b.take(m), pos, ctx) == Ok::<
            (crate::lua53::constants::ConstView, int),
            CodecError,
        >((v, n)),
        n > m ==> crate::lua53::constants::spec_read_constant(b.take(m), pos, ctx) == Err::<
            (crate::lua53::constants::ConstView, int),
            CodecError,
        >(CodecError::Truncated),
{
    match spec_read_u8(b, pos) {
        Err(err) => {
        },
        Ok((tag, p1)) => {
            lemma_trunc_u8(b, pos, m, tag, p1);
            if tag == 1 {
                match spec_read_u8(b, p1) {
                    Ok((x, q)) => {
                        lemma_trunc_u8(b, p1, m, x, q);
                    },
                    Err(err) => {
                    },
                }
            } else if tag == 3 {
                match spec_read_u64(b, p1, ctx.endianness) {
                    Ok((x, q)) => {
                        lemma_trunc_u64(b, p1, ctx.endianness, m, x, q);
                    },
                    Err(err) => {
                    },
                }
            } else if tag == 19 {
                match spec_read_i64(b, p1, ctx.endianness) {
                    Ok((x, q)) => {
                        lemma_trunc_i64(b, p1, ctx.endianness, m, x, q);
                    },
                    Err(err) => {
                    },
                }
            } else if tag == 4 || tag == 20 {
                match crate::string::spec_read_string(b, p1, ctx) {
                    Ok((s, q)) => {
                        lemma_trunc_string(b, p1, ctx, m, s, q);
                    },
                    Err(err) => {
                    },
                }
            }
        },
    }
}

/// A two-byte upvalue descriptor under the cut, as 5.3 declares it.
pub proof fn lemma_trunc_upvalue53(
    b: Seq<u8>,
    pos: int,
    m: int,
    v: crate::lua53::upvalues::Upvalue,
    n: int,
)
    requires
        0 <= pos,
        0 <= m <= b.len(),
        crate::lua53::upvalues::spec_read_upvalue(b, pos) == Ok::<
            (crate::lua53::upvalues::Upvalue, int),
            CodecError,
        >((v, n)),
    ensures
        pos < n,
        n <= b.len(),
        n <= m ==> crate::lua53::upvalues::spec_read_upvalue(b.take(m), pos) == Ok::<
            (crate::lua53::upvalues::Upvalue, int),
            CodecError,
        >((v, n)),
        n > m ==> crate::lua53::upvalues::spec_read_upvalue(b.take(m), pos) == Err::<
            (crate::lua53::upvalues::Upvalue, int),
            CodecError,
        >(CodecError::Truncated),
{
    match spec_read_u8(b, pos) {
        Err(err) => {
        },
        Ok((x1, p1)) => {
            lemma_trunc_u8(b, pos, m, x1, p1);
            match spec_read_u8(b, p1) {
                Err(err) => {
                },
                Ok((x2, p2)) => {
                    lemma_trunc_u8(b, p1, m, x2, p2);
                },
            }
        },
    }
}

/// A 5.3 local-variable record under the cut.
pub proof fn lemma_trunc_localvar53(
    b: Seq<u8>,
    pos: int,
    ctx: CommonCtx,
    m: int,
    v: crate::lua53::debug_info::LocalView,
    n: int,
)
    requires
        0 <= pos,
        0 <= m <= b.len(),
        crate::lua53::debug_info::spec_read_localvar(b, pos, ctx) == Ok::<
            (crate::lua53::debug_info::LocalView, int),
            CodecError,
        >((v, n)),
    ensures
        pos < n,
        n <= b.len(),
        n <= m ==> crate::lua53::debug_info::spec_read_localvar(b.take(m), pos, ctx) == Ok::<
            (crate::lua53::debug_info::LocalView, int),
            CodecError,
        >((v, n)),
        n > m ==> crate::lua53::debug_info::spec_read_localvar(b.take(m), pos, ctx) == Err::<
            (crate::lua53::debug_info::LocalView, int),
            CodecError,
        >(CodecError::Truncated),
{
    match crate::string::spec_read_string(b, pos, ctx) {
        Err(err) => {
        },
        Ok((name, p1)) => {
            lemma_trunc_string(b, pos, ctx, m, name, p1);
            match spec_read_i32(b, p1, ctx.endianness) {
                Err(err) => {
                },
                Ok((x1, p2)) => {
                    lemma_trunc_i32(b, p1, ctx.endianness, m, x1, p2);
                    match spec_read_i32(b, p2, ctx.endianness) {
                        Err(err) => {
                        },
                        Ok((x2, p3)) => {
                            lemma_trunc_i32(b, p2, ctx.endianness, m, x2, p3);
                        },
                    }
                },
            }
        },
    }
}


/// A 5.3 debug block under the cut.
pub proof fn lemma_trunc_debug53(
    b: Seq<u8>,
    pos: int,
    ctx: CommonCtx,
    m: int,
    v: crate::lua53::debug_info::DebugView,
    n: int,
)
    requires
        0 <= pos <= m <= b.len(),
        crate::lua53::debug_info::spec_read_debug(b, pos, ctx) == Ok::<
            (crate::lua53::debug_info::DebugView, int),
            CodecError,
        >((v, n)),
    ensures
        pos < n,
        n <= b.len(),
        n <= m ==> crate::lua53::debug_info::spec_read_debug(b.take(m), pos, ctx) == Ok::<
            (crate::lua53::debug_info::DebugView, int),
            CodecError,
        >((v, n)),
        n > m ==> crate::lua53::debug_info::spec_read_debug(b.take(m), pos, ctx) == Err::<
            (crate::lua53::debug_info::DebugView, int),
            CodecError,
        >(CodecError::Truncated),
{
    let bp = b.take(m);
    let f1 = |p: int| spec_read_i32(b, p, ctx.endianness);
    let g1 = |p: int| spec_read_i32(bp, p, ctx.endianness);
    let f2 = |p: int| crate::lua53::debug_info::spec_read_localvar(b, p, ctx);
    let g2 = |p: int| crate::lua53::debug_info::spec_read_localvar(bp, p, ctx);
    let f3 = |p: int| crate::string::spec_read_string(b, p, ctx);
    let g3 = |p: int| crate::string::spec_read_string(bp, p, ctx);
    assert forall|p: int|
        0 <= p implies ((#[trigger] f1(p)) matches Ok(vq) ==> p < vq.1 <= b.len() && (vq.1 <= m
        ==> g1(p) == f1(p)) && (vq.1 > m ==> g1(p) == Err::<(i32, int), CodecError>(
        CodecError::Truncated,
    ))) by {
        match spec_read_i32(b, p, ctx.endianness) {
            Ok((x, q)) => {
                lemma_trunc_i32(b, p, ctx.endianness, m, x, q);
            },
            Err(err) => {
            },
        }
    }
    assert forall|p: int|
        0 <= p implies ((#[trigger] f2(p)) matches Ok(vq) ==> p < vq.1 <= b.len() && (vq.1 <= m
        ==> g2(p) == f2(p)) && (vq.1 > m ==> g2(p) == Err::<
        (crate::lua53::debug_info::LocalView, int),
        CodecError,
    >(CodecError::Truncated))) by {
        match crate::lua53::debug_info::spec_read_localvar(b, p, ctx) {
            Ok((x, q)) => {
                lemma_trunc_localvar53(b, p, ctx, m, x, q);
            },
            Err(err) => {
            },
        }
    }
    assert forall|p: int|
        0 <= p implies ((#[trigger] f3(p)) matches Ok(vq) ==> p < vq.1 <= b.len() && (vq.1 <= m
        ==> g3(p) == f3(p)) && (vq.1 > m ==> g3(p) == Err::<
        (crate::string::StringView, int),
        CodecError,
    >(CodecError::Truncated))) by {
        match crate::string::spec_read_string(b, p, ctx) {
            Ok((x, q)) => {
                lemma_trunc_string(b, p, ctx, m, x, q);
            },
            Err(err) => {
            },
        }
    }
    match crate::array::spec_read_array_size(b, pos, ctx) {
        Err(err) => {
        },
        Ok((n1, p1)) => {
            lemma_trunc_array_size(b, pos, ctx, m, n1, p1);
            match crate::codec::spec_read_list(p1, n1 as nat, f1, Seq::<i32>::empty()) {
                Err(err) => {
                },
                Ok((lines, p2)) => {
                    if p1 <= m {
                        lemma_trunc_list(
                            p1,
                            n1 as nat,
                            f1,
                            g1,
                            Seq::<i32>::empty(),
                            m,
                            b.len() as int,
                            lines,
                            p2,
                        );
                    } else {
                        lemma_list_monotone(p1, n1 as nat, f1, Seq::<i32>::empty(), lines, p2);
                        lemma_list_upper(
                            p1,
                            n1 as nat,
                            f1,
                            Seq::<i32>::empty(),
                            b.len() as int,
                            lines,
                            p2,
                        );
                    }
                    match crate::array::spec_read_array_size(b, p2, ctx) {
                        Err(err) => {
                        },
                        Ok((n2, p3)) => {
                            lemma_trunc_array_size(b, p2, ctx, m, n2, p3);
                            match crate::codec::spec_read_list(
                                p3,
                                n2 as nat,
                                f2,
                                Seq::<crate::lua53::debug_info::LocalView>::empty(),
                            ) {
                                Err(err) => {
                                },
                                Ok((locals, p4)) => {
                                    if p3 <= m {
                                        lemma_trunc_list(
                                            p3,
                                            n2 as nat,
                                            f2,
                                            g2,
                                            Seq::<crate::lua53::debug_info::LocalView>::empty(),
                                            m,
                                            b.len() as int,
                                            locals,
                                            p4,
                                        );
                                    } else {
                                        lemma_list_monotone(
                                            p3,
                                            n2 as nat,
                                            f2,
                                            Seq::<crate::lua53::debug_info::LocalView>::empty(),
                                            locals,
                                            p4,
                                        );
                                        lemma_list_upper(
                                            p3,
                                            n2 as nat,
                                            f2,
                                            Seq::<crate::lua53::debug_info::LocalView>::empty(),
                                            b.len() as int,
                                            locals,
                                            p4,
                                        );
                                    }
                                    match crate::array::spec_read_array_size(b, p4, ctx) {
                                        Err(err) => {
                                        },
                                        Ok((n3, p5)) => {
                                            lemma_trunc_array_size(b, p4, ctx, m, n3, p5);
                                            match crate::codec::spec_read_list(
                                                p5,
                                                n3 as nat,
                                                f3,
                                                Seq::<crate::string::StringView>::empty(),
                                            ) {
                                                Err(err) => {
                                                },
                                                Ok((ups, p6)) => {
                                                    if p5 <= m {
                                                        lemma_trunc_list(
                                                            p5,
                                                            n3 as nat,
                                                            f3,
                                                            g3,
                                                            Seq::<
                                                                crate::string::StringView,
                                                            >::empty(),
                                                            m,
                                                            b.len() as int,
                                                            ups,
                                                            p6,
                                                        );
                                                    } else {
                                                        lemma_list_monotone(
                                                            p5,
                                                            n3 as nat,
                                                            f3,
                                                            Seq::<
                                                                crate::string::StringView,
                                                            >::empty(),
                                                            ups,
                                                            p6,
                                                        );
                                                        lemma_list_upper(
                                                            p5,
                                                            n3 as nat,
                                                            f3,
                                                            Seq::<
                                                                crate::string::StringView,
                                                            >::empty(),
                                                            b.len() as int,
                                                            ups,
                                                            p6,
                                                        );
                                                    }
                                                },
                                            }
                                        },
                                    }
                                },
                            }
                        },
                    }
                },
            }
        },
    }
}


} // verus!

verus! {

/// A 5.3 prototype under the cut.
pub proof fn lemma_trunc_proto53(
    b: Seq<u8>,
    pos: int,
    ctx: CommonCtx,
    fl: nat,
    flp: nat,
    m: int,
    pv: crate::lua53::ProtoView,
    n: int,
)
    requires
        0 <= pos <= m <= b.len(),
        crate::lua53::spec_read_proto(b, pos, ctx, fl) == Some(
            Ok::<(crate::lua53::ProtoView, int), CodecError>((pv, n)),
        ),
        flp > m - pos,
    ensures
        pos < n,
        n <= b.len(),
        n <= m ==> crate::lua53::spec_read_proto(b.take(m), pos, ctx, flp) == Some(
            Ok::<(crate::lua53::ProtoView, int), CodecError>((pv, n)),
        ),
        n > m ==> crate::lua53::spec_read_proto(b.take(m), pos, ctx, flp) == Some(
            Err::<(crate::lua53::ProtoView, int), CodecError>(CodecError::Truncated),
        ),
    decreases fl, 0nat, 1nat,
{
    match crate::string::spec_read_string(b, pos, ctx) {
        Err(err) => {
        },
        Ok((source, p1)) => {
            lemma_trunc_string(b, pos, ctx, m, source, p1);
            match spec_read_u32(b, p1, ctx.endianness) {
                Err(err) => {
                },
                Ok((ld, p2)) => {
                    lemma_trunc_u32(b, p1, ctx.endianness, m, ld, p2);
                    match spec_read_u32(b, p2, ctx.endianness) {
                        Err(err) => {
                        },
                        Ok((lld, p3)) => {
                            lemma_trunc_u32(b, p2, ctx.endianness, m, lld, p3);
                            match spec_read_u8(b, p3) {
                                Err(err) => {
                                },
                                Ok((nparams, p4)) => {
                                    lemma_trunc_u8(b, p3, m, nparams, p4);
                                    match spec_read_u8(b, p4) {
                                        Err(err) => {
                                        },
                                        Ok((va, p5)) => {
                                            lemma_trunc_u8(b, p4, m, va, p5);
                                            match spec_read_u8(b, p5) {
                                                Err(err) => {
                                                },
                                                Ok((ms, p6)) => {
                                                    lemma_trunc_u8(b, p5, m, ms, p6);
                                                    if p6 <= m {
                                                        lemma_trunc_proto_body53(
                                                            b, p6, ctx, fl, flp, m, source, ld,
                                                            lld, nparams, va, ms, pv, n,
                                                        );
                                                    } else {
                                                        lemma_trunc_proto_body53(
                                                            b,
                                                            p6,
                                                            ctx,
                                                            fl,
                                                            (b.len() - p6 + 1) as nat,
                                                            b.len() as int,
                                                            source,
                                                            ld,
                                                            lld,
                                                            nparams,
                                                            va,
                                                            ms,
                                                            pv,
                                                            n,
                                                        );
                                                    }
                                                },
                                            }
                                        },
                                    }
                                },
                            }
                        },
                    }
                },
            }
        },
    }
}

/// The arrays and debug block of a 5.3 prototype under the cut.
#[verifier::rlimit(100)]
pub proof fn lemma_trunc_proto_body53(
    b: Seq<u8>,
    p6: int,
    ctx: CommonCtx,
    fl: nat,
    flp: nat,
    m: int,
    source: crate::string::StringView,
    ld: u32,
    lld: u32,
    nparams: u8,
    va: u8,
    ms: u8,
    pv: crate::lua53::ProtoView,
    n: int,
)
    requires
        0 <= p6 <= m <= b.len(),
        crate::lua53::spec_read_proto_body(b, p6, ctx, fl, source, ld, lld, nparams, va, ms)
            == Some(Ok::<(crate::lua53::ProtoView, int), CodecError>((pv, n))),
        flp > m - p6,
    ensures
        p6 < n,
        n <= b.len(),
        n <= m ==> crate::lua53::spec_read_proto_body(
            b.take(m),
            p6,
            ctx,
            flp,
            source,
            ld,
            lld,
            nparams,
            va,
            ms,
        ) == Some(Ok::<(crate::lua53::ProtoView, int), CodecError>((pv, n))),
        n > m ==> crate::lua53::spec_read_proto_body(
            b.take(m),
            p6,
            ctx,
            flp,
            source,
            ld,
            lld,
            nparams,
            va,
            ms,
        ) == Some(Err::<(crate::lua53::ProtoView, int), CodecError>(CodecError::Truncated)),
    decreases fl, 0nat, 0nat,
{
    let bp = b.take(m);
    let fi = |p: int| crate::lua53::instructions::spec_read_instr(b, p, ctx);
    let gi = |p: int| crate::lua53::instructions::spec_read_instr(bp, p, ctx);
    let fc = |p: int| crate::lua53::constants::spec_read_constant(b, p, ctx);
    let gc = |p: int| crate::lua53::constants::spec_read_constant(bp, p, ctx);
    let fu = |p: int| crate::lua53::upvalues::spec_read_upvalue(b, p);
    let gu = |p: int| crate::lua53::upvalues::spec_read_upvalue(bp, p);
    assert forall|p: int|
        0 <= p implies ((#[trigger] fi(p)) matches Ok(vq) ==> p < vq.1 <= b.len() && (vq.1 <= m
        ==> gi(p) == fi(p)) && (vq.1 > m ==> gi(p) == Err::<
        (crate::lua53::instructions::Instruction, int),
        CodecError,
    >(CodecError::Truncated))) by {
        match crate::lua53::instructions::spec_read_instr(b, p, ctx) {
            Ok((x, q)) => {
                match spec_read_u32(b, p, ctx.endianness) {
                    Ok((w, q2)) => {
                        lemma_trunc_u32(b, p, ctx.endianness, m, w, q2);
                    },
                    Err(err) => {
                    },
                }
            },
            Err(err) => {
            },
        }
    }
    assert forall|p: int|
        0 <= p implies ((#[trigger] fc(p)) matches Ok(vq) ==> p < vq.1 <= b.len() && (vq.1 <= m
        ==> gc(p) == fc(p)) && (vq.1 > m ==> gc(p) == Err::<
        (crate::lua53::constants::ConstView, int),
        CodecError,
    >(CodecError::Truncated))) by {
        match crate::lua53::constants::spec_read_constant(b, p, ctx) {
            Ok((x, q)) => {
                lemma_trunc_constant53(b, p, ctx, m, x, q);
            },
            Err(err) => {
            },
        }
    }
    assert forall|p: int|
        0 <= p implies ((#[trigger] fu(p)) matches Ok(vq) ==> p < vq.1 <= b.len() && (vq.1 <= m
        ==> gu(p) == fu(p)) && (vq.1 > m ==> gu(p) == Err::<
        (crate::lua53::upvalues::Upvalue, int),
        CodecError,
    >(CodecError::Truncated))) by {
        match crate::lua53::upvalues::spec_read_upvalue(b, p) {
            Ok((x, q)) => {
                lemma_trunc_upvalue53(b, p, m, x, q);
            },
            Err(err) => {
            },
        }
    }
    match crate::array::spec_read_array_size(b, p6, ctx) {
        Err(err) => {
        },
        Ok((n_code, p7)) => {
            lemma_trunc_array_size(b, p6, ctx, m, n_code, p7);
            match crate::codec::spec_read_list(
                p7,
                n_code as nat,
                fi,
                Seq::<crate::lua53::instructions::Instruction>::empty(),
            ) {
                Err(err) => {
                },
                Ok((code, p8)) => {
                    if p7 <= m {
                        lemma_trunc_list(
                            p7,
                            n_code as nat,
                            fi,
                            gi,
                            Seq::<crate::lua53::instructions::Instruction>::empty(),
                            m,
                            b.len() as int,
                            code,
                            p8,
                        );
                    } else {
                        lemma_list_monotone(
                            p7,
                            n_code as nat,
                            fi,
                            Seq::<crate::lua53::instructions::Instruction>::empty(),
                            code,
                            p8,
                        );
                        lemma_list_upper(
                            p7,
                            n_code as nat,
                            fi,
                            Seq::<crate::lua53::instructions::Instruction>::empty(),
                            b.len() as int,
                            code,
                            p8,
                        );
                    }
                    match crate::array::spec_read_array_size(b, p8, ctx) {
                        Err(err) => {
                        },
                        Ok((n_const, p9)) => {
                            lemma_trunc_array_size(b, p8, ctx, m, n_const, p9);
                            match crate::codec::spec_read_list(
                                p9,
                                n_const as nat,
                                fc,
                                Seq::<crate::lua53::constants::ConstView>::empty(),
                            ) {
                                Err(err) => {
                                },
                                Ok((consts, p10)) => {
                                    if p9 <= m {
                                        lemma_trunc_list(
                                            p9,
                                            n_const as nat,
                                            fc,
                                            gc,
                                            Seq::<crate::lua53::constants::ConstView>::empty(),
                                            m,
                                            b.len() as int,
                                            consts,
                                            p10,
                                        );
                                    } else {
                                        lemma_list_monotone(
                                            p9,
                                            n_const as nat,
                                            fc,
                                            Seq::<crate::lua53::constants::ConstView>::empty(),
                                            consts,
                                            p10,
                                        );
                                        lemma_list_upper(
                                            p9,
                                            n_const as nat,
                                            fc,
                                            Seq::<crate::lua53::constants::ConstView>::empty(),
                                            b.len() as int,
                                            consts,
                                            p10,
                                        );
                                    }
                                    match crate::array::spec_read_array_size(b, p10, ctx) {
                                        Err(err) => {
                                        },
                                        Ok((n_ups, p11)) => {
                                            lemma_trunc_array_size(b, p10, ctx, m, n_ups, p11);
                                            match crate::codec::spec_read_list(
                                                p11,
                                                n_ups as nat,
                                                fu,
                                                Seq::<crate::lua53::upvalues::Upvalue>::empty(),
                                            ) {
                                                Err(err) => {
                                                },
                                                Ok((ups, p12)) => {
                                                    if p11 <= m {
                                                        lemma_trunc_list(
                                                            p11,
                                                            n_ups as nat,
                                                            fu,
                                                            gu,
                                                            Seq::<
                                                                crate::lua53::upvalues::Upvalue,
                                                            >::empty(),
                                                            m,
                                                            b.len() as int,
                                                            ups,
                                                            p12,
                                                        );
                                                    } else {
                                                        lemma_list_monotone(
                                                            p11,
                                                            n_ups as nat,
                                                            fu,
                                                            Seq::<
                                                                crate::lua53::upvalues::Upvalue,
                                                            >::empty(),
                                                            ups,
                                                            p12,
                                                        );
                                                        lemma_list_upper(
                                                            p11,
                                                            n_ups as nat,
                                                            fu,
                                                            Seq::<
                                                                crate::lua53::upvalues::Upvalue,
                                                            >::empty(),
                                                            b.len() as int,
                                                            ups,
                                                            p12,
                                                        );
                                                    }
                                                    match crate::array::spec_read_array_size(
                                                        b,
                                                        p12,
                                                        ctx,
                                                    ) {
                                                        Err(err) => {
                                                        },
                                                        Ok((n_protos, p13)) => {
                                                            lemma_trunc_array_size(
                                                                b, p12, ctx, m, n_protos, p13,
                                                            );
                                                            match crate::lua53::spec_read_protos(
                                                                b,
                                                                p13,
                                                                ctx,
                                                                n_protos as nat,
                                                                (fl - 1) as nat,
                                                                Seq::<
                                                                    crate::lua53::ProtoView,
                                                                >::empty(),
                                                            ) {
                                                                None => {
                                                                },
                                                                Some(Err(err)) => {
                                                                },
                                                                Some(Ok((protos, p14))) => {
                                                                    if p13 <= m {
                                                                        lemma_trunc_protos53(
                                                                            b,
                                                                            p13,
                                                                            ctx,
                                                                            n_protos as nat,
                                                                            (fl - 1) as nat,
                                                                            (flp - 1) as nat,
                                                                            Seq::<
                                                                                crate::lua53::ProtoView,
                                                                            >::empty(),
                                                                            m,
                                                                            protos,
                                                                            p14,
                                                                        );
                                                                    } else {
                                                                        lemma_trunc_protos53(
                                                                            b,
                                                                            p13,
                                                                            ctx,
                                                                            n_protos as nat,
                                                                            (fl - 1) as nat,
                                                                            (b.len() - p13
                                                                                + 1) as nat,
                                                                            Seq::<
                                                                                crate::lua53::ProtoView,
                                                                            >::empty(),
                                                                            b.len() as int,
                                                                            protos,
                                                                            p14,
                                                                        );
                                                                    }
                                                                    match crate::lua53::debug_info::spec_read_debug(
                                                                        b,
                                                                        p14,
                                                                        ctx,
                                                                    ) {
                                                                        Err(err) => {
                                                                        },
                                                                        Ok((dbg, p15)) => {
                                                                            if p14 <= m {
                                                                                lemma_trunc_debug53(
                                                                                    b, p14, ctx, m,
                                                                                    dbg, p15,
                                                                                );
                                                                            } else {
                                                                                lemma_trunc_debug53(
                                                                                    b,
                                                                                    p14,
                                                                                    ctx,
                                                                                    b.len() as int,
                                                                                    dbg,
                                                                                    p15,
                                                                                );
                                                                            }
                                                                        },
                                                                    }
                                                                },
                                                            }
                                                        },
                                                    }
                                                },
                                            }
                                        },
                                    }
                                },
                            }
                        },
                    }
                },
            }
        },
    }
}

/// A run of nested 5.3 prototypes under the cut.
pub proof fn lemma_trunc_protos53(
    b: Seq<u8>,
    pos: int,
    ctx: CommonCtx,
    cnt: nat,
    fl: nat,
    flp: nat,
    acc: Seq<crate::lua53::ProtoView>,
    m: int,
    s: Seq<crate::lua53::ProtoView>,
    n: int,
)
    requires
        0 <= pos <= m <= b.len(),
        crate::lua53::spec_read_protos(b, pos, ctx, cnt, fl, acc) == Some(
            Ok::<(Seq<crate::lua53::ProtoView>, int), CodecError>((s, n)),
        ),
        flp > m - pos,
    ensures
        pos <= n,
        n <= b.len(),
        n <= m ==> crate::lua53::spec_read_protos(b.take(m), pos, ctx, cnt, flp, acc) == Some(
            Ok::<(Seq<crate::lua53::ProtoView>, int), CodecError>((s, n)),
        ),
        n > m ==> crate::lua53::spec_read_protos(b.take(m), pos, ctx, cnt, flp, acc) == Some(
            Err::<(Seq<crate::lua53::ProtoView>, int), CodecError>(CodecError::Truncated),
        ),
    decreases fl, cnt, 2nat,
{
    if cnt > 0 {
        match crate::lua53::spec_read_proto(b, pos, ctx, fl) {
            None => {
            },
            Some(Err(err)) => {
            },
            Some(Ok((pc, q))) => {
                lemma_trunc_proto53(b, pos, ctx, fl, flp, m, pc, q);
                if q <= m {
                    lemma_trunc_protos53(
                        b,
                        q,
                        ctx,
                        (cnt - 1) as nat,
                        fl,
                        flp,
                        acc.push(pc),
                        m,
                        s,
                        n,
                    );
                } else {
                    lemma_trunc_protos53(
                        b,
                        q,
                        ctx,
                        (cnt - 1) as nat,
                        fl,
                        (b.len() - q + 1) as nat,
                        acc.push(pc),
                        b.len() as int,
                        s,
                        n,
                    );
                }
            },
        }
    }
}

/// A 5.3 header under the cut.
pub proof fn lemma_trunc_header53(
    b: Seq<u8>,
    pos: int,
    m: int,
    hv: crate::lua53::HeaderView,
    n: int,
)
    requires
        0 <= pos,
        0 <= m <= b.len(),
        crate::lua53::spec_read_header(b, pos) == Ok::<
            (crate::lua53::HeaderView, int),
            CodecError,
        >((hv, n)),
    ensures
        pos < n,
        n <= b.len(),
        n <= m ==> crate::lua53::spec_read_header(b.take(m), pos) == Ok::<
            (crate::lua53::HeaderView, int),
            CodecError,
        >((hv, n)),
        n > m ==> crate::lua53::spec_read_header(b.take(m), pos) == Err::<
            (crate::lua53::HeaderView, int),
            CodecError,
        >(CodecError::Truncated),
{
    if n <= m {
        assert(b.take(m).subrange(pos, pos + 4) =~= b.subrange(pos, pos + 4));
        assert(b.take(m).subrange(pos + 6, pos + 12) =~= b.subrange(pos + 6, pos + 12));
        match spec_read_u64(b, pos + 17, crate::Endianness::Little) {
            Ok((x, q)) => {
                lemma_trunc_u64(b, pos + 17, crate::Endianness::Little, m, x, q);
            },
            Err(err) => {
            },
        }
        match spec_read_u64(b, pos + 25, crate::Endianness::Little) {
            Ok((x, q)) => {
                lemma_trunc_u64(b, pos + 25, crate::Endianness::Little, m, x, q);
            },
            Err(err) => {
            },
        }
    }
}

/// The truncation law for whole 5.3 chunks.
pub proof fn lemma_chunk_truncation53(b: Seq<u8>, m: int, bv: crate::lua53::BytecodeView, n: int)
    requires
        crate::lua53::spec_read_chunk(b) == Ok::<(crate::lua53::BytecodeView, int), CodecError>(
            (bv, n),
        ),
        0 <= m < n,
    ensures
        crate::lua53::spec_read_chunk(b.take(m)) == Err::<
            (crate::lua53::BytecodeView, int),
            CodecError,
        >(CodecError::Truncated),
{
    match crate::lua53::spec_read_header(b, 0) {
        Err(err) => {
        },
        Ok((h, p0)) => {
            match spec_read_u8(b, p0) {
                Err(err) => {
                },
                Ok((szup, p)) => {
                    let ctx = CommonCtx {
                        size_of_size_t: h.size_of_size_t,
                        lua_version: h.version,
                        endianness: crate::Endianness::Little,
                    };
                    match crate::lua53::spec_read_proto(b, p, ctx, (b.len() + 1) as nat) {
                        None => {
                        },
                        Some(Err(err)) => {
                        },
                        Some(Ok((pvv, nn))) => {
                            lemma_trunc_proto53(
                                b,
                                p,
                                ctx,
                                (b.len() + 1) as nat,
                                (b.len() + 1) as nat,
                                b.len() as int,
                                pvv,
                                nn,
                            );
                            lemma_trunc_header53(b, 0, m, h, p0);
                            lemma_trunc_u8(b, p0, m, szup, p);
                            if p <= m {
                                lemma_trunc_proto53(
                                    b,
                                    p,
                                    ctx,
                                    (b.len() + 1) as nat,
                                    (m + 1) as nat,
                                    m,
                                    pvv,
                                    nn,
                                );
                                assert(b.take(m).len() == m);
                            }
                        },
                    }
                },
            }
        },
    }
}

} // verus!

verus! {

/// A 5.4 constant under the cut.
pub proof fn lemma_trunc_constant54(
    b: Seq<u8>,
    pos: int,
    ctx: CommonCtx,
    m: int,
    v: crate::lua54::constants::ConstView,
    n: int,
)
    requires
        0 <= pos,
        0 <= m <= b.len(),
        crate::lua54::constants::spec_read_constant(b, pos, ctx) == Ok::<
            (crate::lua54::constants::ConstView, int),
            CodecError,
        >((v, n)),
    ensures
        pos < n,
        n <= b.len(),
        n <= m ==> crate::lua54::constants::spec_read_constant(b.take(m), pos, ctx) == Ok::<
            (crate::lua54::constants::ConstView, int),
            CodecError,
        >((v, n)),
        n > m ==> crate::lua54::constants::spec_read_constant(b.take(m), pos, ctx) == Err::<
            (crate::lua54::constants::ConstView, int),
            CodecError,
        >(CodecError::Truncated),
{
    match spec_read_u8(b, pos) {
        Err(err) => {
        },
        Ok((tag, p1)) => {
            lemma_trunc_u8(b, pos, m, tag, p1);
            if tag == 19 {
                match spec_read_u64(b, p1, ctx.endianness) {
                    Ok((x, q)) => {
                        lemma_trunc_u64(b, p1, ctx.endianness, m, x, q);
                    },
                    Err(err) => {
                    },
                }
            } else if tag == 3 {
                match spec_read_i64(b, p1, ctx.endianness) {
                    Ok((x, q)) => {
                        lemma_trunc_i64(b, p1, ctx.endianness, m, x, q);
                    },
                    Err(err) => {
                    },
                }
            } else if tag == 4 || tag == 20 {
                match crate::string::spec_read_string(b, p1, ctx) {
                    Ok((s, q)) => {
                        lemma_trunc_string(b, p1, ctx, m, s, q);
                    },
                    Err(err) => {
                    },
                }
            }
        },
    }
}

/// A three-byte 5.4 upvalue descriptor under the cut.
pub proof fn lemma_trunc_upvalue54(
    b: Seq<u8>,
    pos: int,
    m: int,
    v: crate::lua54::upvalues::Upvalue,
    n: int,
)
    requires
        0 <= pos,
        0 <= m <= b.len(),
        crate::lua54::upvalues::spec_read_upvalue(b, pos) == Ok::<
            (crate::lua54::upvalues::Upvalue, int),
            CodecError,
        >((v, n)),
    ensures
        pos < n,
        n <= b.len(),
        n <= m ==> crate::lua54::upvalues::spec_read_upvalue(b.take(m), pos) == Ok::<
            (crate::lua54::upvalues::Upvalue, int),
            CodecError,
        >((v, n)),
        n > m ==> crate::lua54::upvalues::spec_read_upvalue(b.take(m), pos) == Err::<
            (crate::lua54::upvalues::Upvalue, int),
            CodecError,
        >(CodecError::Truncated),
{
    match spec_read_u8(b, pos) {
        Err(err) => {
        },
        Ok((x1, p1)) => {
            lemma_trunc_u8(b, pos, m, x1, p1);
            match spec_read_u8(b, p1) {
                Err(err) => {
                },
                Ok((x2, p2)) => {
                    lemma_trunc_u8(b, p1, m, x2, p2);
                    match spec_read_u8(b, p2) {
                        Err(err) => {
                        },
                        Ok((x3, p3)) => {
                            lemma_trunc_u8(b, p2, m, x3, p3);
                        },
                    }
                },
            }
        },
    }
}

/// A 5.4 absolute line anchor under the cut.
pub proof fn lemma_trunc_absline54(
    b: Seq<u8>,
    pos: int,
    m: int,
    v: crate::lua54::debug_info::AbsLineInfo,
    n: int,
)
    requires
        0 <= pos,
        0 <= m <= b.len(),
        crate::lua54::debug_info::spec_read_absline(b, pos) == Ok::<
            (crate::lua54::debug_info::AbsLineInfo, int),
            CodecError,
        >((v, n)),
    ensures
        pos < n,
        n <= b.len(),
        n <= m ==> crate::lua54::debug_info::spec_read_absline(b.take(m), pos) == Ok::<
            (crate::lua54::debug_info::AbsLineInfo, int),
            CodecError,
        >((v, n)),
        n > m ==> crate::lua54::debug_info::spec_read_absline(b.take(m), pos) == Err::<
            (crate::lua54::debug_info::AbsLineInfo, int),
            CodecError,
        >(CodecError::Truncated),
{
    match crate::unsigned::spec_read_unsigned(b, pos) {
        Err(err) => {
        },
        Ok((x1, p1)) => {
            lemma_trunc_unsigned(b, pos, m, x1, p1, 0);
            match crate::unsigned::spec_read_unsigned(b, p1) {
                Err(err) => {
                },
                Ok((x2, p2)) => {
                    lemma_trunc_unsigned(b, p1, m, x2, p2, 0);
                },
            }
        },
    }
}

/// A 5.4 local-variable record under the cut.
pub proof fn lemma_trunc_localvar54(
    b: Seq<u8>,
    pos: int,
    ctx: CommonCtx,
    m: int,
    v: crate::lua54::debug_info::LocalView,
    n: int,
)
    requires
        0 <= pos,
        0 <= m <= b.len(),
        crate::lua54::debug_info::spec_read_localvar(b, pos, ctx) == Ok::<
            (crate::lua54::debug_info::LocalView, int),
            CodecError,
        >((v, n)),
    ensures
        pos < n,
        n <= b.len(),
        n <= m ==> crate::lua54::debug_info::spec_read_localvar(b.take(m), pos, ctx) == Ok::<
            (crate::lua54::debug_info::LocalView, int),
            CodecError,
        >((v, n)),
        n > m ==> crate::lua54::debug_info::spec_read_localvar(b.take(m), pos, ctx) == Err::<
            (crate::lua54::debug_info::LocalView, int),
            CodecError,
        >(CodecError::Truncated),
{
    match crate::string::spec_read_string(b, pos, ctx) {
        Err(err) => {
        },
        Ok((name, p1)) => {
            lemma_trunc_string(b, pos, ctx, m, name, p1);
            match crate::unsigned::spec_read_unsigned(b, p1) {
                Err(err) => {
                },
                Ok((x1, p2)) => {
                    lemma_trunc_unsigned(b, p1, m, x1, p2, 0);
                    match crate::unsigned::spec_read_unsigned(b, p2) {
                        Err(err) => {
                        },
                        Ok((x2, p3)) => {
                            lemma_trunc_unsigned(b, p2, m, x2, p3, 0);
                        },
                    }
                },
            }
        },
    }
}

/// A 5.4 debug block under the cut.
#[verifier::rlimit(100)]
pub proof fn lemma_trunc_debug54(
    b: Seq<u8>,
    pos: int,
    ctx: CommonCtx,
    m: int,
    v: crate::lua54::debug_info::DebugView,
    n: int,
)
    requires
        0 <= pos <= m <= b.len(),
        crate::lua54::debug_info::spec_read_debug(b, pos, ctx) == Ok::<
            (crate::lua54::debug_info::DebugView, int),
            CodecError,
        >((v, n)),
    ensures
        pos < n,
        n <= b.len(),
        n <= m ==> crate::lua54::debug_info::spec_read_debug(b.take(m), pos, ctx) == Ok::<
            (crate::lua54::debug_info::DebugView, int),
            CodecError,
        >((v, n)),
        n > m ==> crate::lua54::debug_info::spec_read_debug(b.take(m), pos, ctx) == Err::<
            (crate::lua54::debug_info::DebugView, int),
            CodecError,
        >(CodecError::Truncated),
{
    let bp = b.take(m);
    let f1 = |p: int| spec_read_u8(b, p);
    let g1 = |p: int| spec_read_u8(bp, p);
    let f2 = |p: int| crate::lua54::debug_info::spec_read_absline(b, p);
    let g2 = |p: int| crate::lua54::debug_info::spec_read_absline(bp, p);
    let f3 = |p: int| crate::lua54::debug_info::spec_read_localvar(b, p, ctx);
    let g3 = |p: int| crate::lua54::debug_info::spec_read_localvar(bp, p, ctx);
    let f4 = |p: int| crate::string::spec_read_string(b, p, ctx);
    let g4 = |p: int| crate::string::spec_read_string(bp, p, ctx);
    assert forall|p: int|
        0 <= p implies ((#[trigger] f1(p)) matches Ok(vq) ==> p < vq.1 <= b.len() && (vq.1 <= m
        ==> g1(p) == f1(p)) && (vq.1 > m ==> g1(p) == Err::<(u8, int), CodecError>(
        CodecError::Truncated,
    ))) by {
        match spec_read_u8(b, p) {
            Ok((x, q)) => {
                lemma_trunc_u8(b, p, m, x, q);
            },
            Err(err) => {
            },
        }
    }
    assert forall|p: int|
        0 <= p implies ((#[trigger] f2(p)) matches Ok(vq) ==> p < vq.1 <= b.len() && (vq.1 <= m
        ==> g2(p) == f2(p)) && (vq.1 > m ==> g2(p) == Err::<
        (crate::lua54::debug_info::AbsLineInfo, int),
        CodecError,
    >(CodecError::Truncated))) by {
        match crate::lua54::debug_info::spec_read_absline(b, p) {
            Ok((x, q)) => {
                lemma_trunc_absline54(b, p, m, x, q);
            },
            Err(err) => {
            },
        }
    }
    assert forall|p: int|
        0 <= p implies ((#[trigger] f3(p)) matches Ok(vq) ==> p < vq.1 <= b.len() && (vq.1 <= m
        ==> g3(p) == f3(p)) && (vq.1 > m ==> g3(p) == Err::<
        (crate::lua54::debug_info::LocalView, int),
        CodecError,
    >(CodecError::Truncated))) by {
        match crate::lua54::debug_info::spec_read_localvar(b, p, ctx) {
            Ok((x, q)) => {
                lemma_trunc_localvar54(b, p, ctx, m, x, q);
            },
            Err(err) => {
            },
        }
    }
    assert forall|p: int|
        0 <= p implies ((#[trigger] f4(p)) matches Ok(vq) ==> p < vq.1 <= b.len() && (vq.1 <= m
        ==> g4(p) == f4(p)) && (vq.1 > m ==> g4(p) == Err::<
        (crate::string::StringView, int),
        CodecError,
    >(CodecError::Truncated))) by {
        match crate::string::spec_read_string(b, p, ctx) {
            Ok((x, q)) => {
                lemma_trunc_string(b, p, ctx, m, x, q);
            },
            Err(err) => {
            },
        }
    }
    match crate::array::spec_read_array_size(b, pos, ctx) {
        Err(err) => {
        },
        Ok((n1, p1)) => {
            lemma_trunc_array_size(b, pos, ctx, m, n1, p1);
            match crate::codec::spec_read_list(p1, n1 as nat, f1, Seq::<u8>::empty()) {
                Err(err) => {
                },
                Ok((lines, p2)) => {
                    if p1 <= m {
                        lemma_trunc_list(
                            p1,
                            n1 as nat,
                            f1,
                            g1,
                            Seq::<u8>::empty(),
                            m,
                            b.len() as int,
                            lines,
                            p2,
                        );
                    } else {
                        lemma_list_monotone(p1, n1 as nat, f1, Seq::<u8>::empty(), lines, p2);
                        lemma_list_upper(
                            p1,
                            n1 as nat,
                            f1,
                            Seq::<u8>::empty(),
                            b.len() as int,
                            lines,
                            p2,
                        );
                    }
                    match crate::array::spec_read_array_size(b, p2, ctx) {
                        Err(err) => {
                        },
                        Ok((n2, p3)) => {
                            lemma_trunc_array_size(b, p2, ctx, m, n2, p3);
                            match crate::codec::spec_read_list(
                                p3,
                                n2 as nat,
                                f2,
                                Seq::<crate::lua54::debug_info::AbsLineInfo>::empty(),
                            ) {
                                Err(err) => {
                                },
                                Ok((anchors, p4)) => {
                                    if p3 <= m {
                                        lemma_trunc_list(
                                            p3,
                                            n2 as nat,
                                            f2,
                                            g2,
                                            Seq::<crate::lua54::debug_info::AbsLineInfo>::empty(),
                                            m,
                                            b.len() as int,
                                            anchors,
                                            p4,
                                        );
                                    } else {
                                        lemma_list_monotone(
                                            p3,
                                            n2 as nat,
                                            f2,
                                            Seq::<crate::lua54::debug_info::AbsLineInfo>::empty(),
                                            anchors,
                                            p4,
                                        );
                                        lemma_list_upper(
                                            p3,
                                            n2 as nat,
                                            f2,
                                            Seq::<crate::lua54::debug_info::AbsLineInfo>::empty(),
                                            b.len() as int,
                                            anchors,
                                            p4,
                                        );
                                    }
                                    match crate::array::spec_read_array_size(b, p4, ctx) {
                                        Err(err) => {
                                        },
                                        Ok((n3, p5)) => {
                                            lemma_trunc_array_size(b, p4, ctx, m, n3, p5);
                                            match crate::codec::spec_read_list(
                                                p5,
                                                n3 as nat,
                                                f3,
                                                Seq::<
                                                    crate::lua54::debug_info::LocalView,
                                                >::empty(),
                                            ) {
                                                Err(err) => {
                                                },
                                                Ok((locals, p6)) => {
                                                    if p5 <= m {
                                                        lemma_trunc_list(
                                                            p5,
                                                            n3 as nat,
                                                            f3,
                                                            g3,
                                                            Seq::<
                                                                crate::lua54::debug_info::LocalView,
                                                            >::empty(),
                                                            m,
                                                            b.len() as int,
                                                            locals,
                                                            p6,
                                                        );
                                                    } else {
                                                        lemma_list_monotone(
                                                            p5,
                                                            n3 as nat,
                                                            f3,
                                                            Seq::<
                                                                crate::lua54::debug_info::LocalView,
                                                            >::empty(),
                                                            locals,
                                                            p6,
                                                        );
                                                        lemma_list_upper(
                                                            p5,
                                                            n3 as nat,
                                                            f3,
                                                            Seq::<
                                                                crate::lua54::debug_info::LocalView,
                                                            >::empty(),
                                                            b.len() as int,
                                                            locals,
                                                            p6,
                                                        );
                                                    }
                                                    match crate::array::spec_read_array_size(
                                                        b,
                                                        p6,
                                                        ctx,
                                                    ) {
                                                        Err(err) => {
                                                        },
                                                        Ok((n4, p7)) => {
                                                            lemma_trunc_array_size(
                                                                b, p6, ctx, m, n4, p7,
                                                            );
                                                            match crate::codec::spec_read_list(
                                                                p7,
                                                                n4 as nat,
                                                                f4,
                                                                Seq::<
                                                                    crate::string::StringView,
                                                                >::empty(),
                                                            ) {
                                                                Err(err) => {
                                                                },
                                                                Ok((ups, p8)) => {
                                                                    if p7 <= m {
                                                                        lemma_trunc_list(
                                                                            p7,
                                                                            n4 as nat,
                                                                            f4,
                                                                            g4,
                                                                            Seq::<
                                                                                crate::string::StringView,
                                                                            >::empty(),
                                                                            m,
                                                                            b.len() as int,
                                                                            ups,
                                                                            p8,
                                                                        );
                                                                    } else {
                                                                        lemma_list_monotone(
                                                                            p7,
                                                                            n4 as nat,
                                                                            f4,
                                                                            Seq::<
                                                                                crate::string::StringView,
                                                                            >::empty(),
                                                                            ups,
                                                                            p8,
                                                                        );
                                                                        lemma_list_upper(
                                                                            p7,
                                                                            n4 as nat,
                                                                            f4,
                                                                            Seq::<
                                                                                crate::string::StringView,
                                                                            >::empty(),
                                                                            b.len() as int,
                                                                            ups,
                                                                            p8,
                                                                        );
                                                                    }
                                                                },
                                                            }
                                                        },
                                                    }
                                                },
                                            }
                                        },
                                    }
                                },
                            }
                        },
                    }
                },
            }
        },
    }
}

} // verus!

verus! {

/// A 5.4 prototype under the cut.
pub proof fn lemma_trunc_proto54(
    b: Seq<u8>,
    pos: int,
    ctx: CommonCtx,
    fl: nat,
    flp: nat,
    m: int,
    pv: crate::lua54::ProtoView,
    n: int,
)
    requires
        0 <= pos <= m <= b.len(),
        crate::lua54::spec_read_proto(b, pos, ctx, fl) == Some(
            Ok::<(crate::lua54::ProtoView, int), CodecError>((pv, n)),
        ),
        flp > m - pos,
    ensures
        pos < n,
        n <= b.len(),
        n <= m ==> crate::lua54::spec_read_proto(b.take(m), pos, ctx, flp) == Some(
            Ok::<(crate::lua54::ProtoView, int), CodecError>((pv, n)),
        ),
        n > m ==> crate::lua54::spec_read_proto(b.take(m), pos, ctx, flp) == Some(
            Err::<(crate::lua54::ProtoView, int), CodecError>(CodecError::Truncated),
        ),
    decreases fl, 0nat, 1nat,
{
    match crate::string::spec_read_string(b, pos, ctx) {
        Err(err) => {
        },
        Ok((source, p1)) => {
            lemma_trunc_string(b, pos, ctx, m, source, p1);
            match crate::unsigned::spec_read_unsigned(b, p1) {
                Err(err) => {
                },
                Ok((ld, p2)) => {
                    lemma_trunc_unsigned(b, p1, m, ld, p2, 0);
                    match crate::unsigned::spec_read_unsigned(b, p2) {
                        Err(err) => {
                        },
                        Ok((lld, p3)) => {
                            lemma_trunc_unsigned(b, p2, m, lld, p3, 0);
                            match spec_read_u8(b, p3) {
                                Err(err) => {
                                },
                                Ok((nparams, p4)) => {
                                    lemma_trunc_u8(b, p3, m, nparams, p4);
                                    match spec_read_u8(b, p4) {
                                        Err(err) => {
                                        },
                                        Ok((va, p5)) => {
                                            lemma_trunc_u8(b, p4, m, va, p5);
                                            match spec_read_u8(b, p5) {
                                                Err(err) => {
                                                },
                                                Ok((ms, p6)) => {
                                                    lemma_trunc_u8(b, p5, m, ms, p6);
                                                    if p6 <= m {
                                                        lemma_trunc_proto_body54(
                                                            b,
                                                            p6,
                                                            ctx,
                                                            fl,
                                                            flp,
                                                            m,
                                                            source,
                                                            crate::unsigned::LuaUnsigned {
                                                                value: ld,
                                                            },
                                                            crate::unsigned::LuaUnsigned {
                                                                value: lld,
                                                            },
                                                            nparams,
                                                            va,
                                                            ms,
                                                            pv,
                                                            n,
                                                        );
                                                    } else {
                                                        lemma_trunc_proto_body54(
                                                            b,
                                                            p6,
                                                            ctx,
                                                            fl,
                                                            (b.len() - p6 + 1) as nat,
                                                            b.len() as int,
                                                            source,
                                                            crate::unsigned::LuaUnsigned {
                                                                value: ld,
                                                            },
                                                            crate::unsigned::LuaUnsigned {
                                                                value: lld,
                                                            },
                                                            nparams,
                                                            va,
                                                            ms,
                                                            pv,
                                                            n,
                                                        );
                                                    }
                                                },
                                            }
                                        },
                                    }
                                },
                            }
                        },
                    }
                },
            }
        },
    }
}

/// The arrays and debug block of a 5.4 prototype under the cut.
#[verifier::rlimit(100)]
pub proof fn lemma_trunc_proto_body54(
    b: Seq<u8>,
    p6: int,
    ctx: CommonCtx,
    fl: nat,
    flp: nat,
    m: int,
    source: crate::string::StringView,
    ld: crate::unsigned::LuaUnsigned,
    lld: crate::unsigned::LuaUnsigned,
    nparams: u8,
    va: u8,
    ms: u8,
    pv: crate::lua54::ProtoView,
    n: int,
)
    requires
        0 <= p6 <= m <= b.len(),
        crate::lua54::spec_read_proto_body(b, p6, ctx, fl, source, ld, lld, nparams, va, ms)
            == Some(Ok::<(crate::lua54::ProtoView, int), CodecError>((pv, n))),
        flp > m - p6,
    ensures
        p6 < n,
        n <= b.len(),
        n <= m ==> crate::lua54::spec_read_proto_body(
            b.take(m),
            p6,
            ctx,
            flp,
            source,
            ld,
            lld,
            nparams,
            va,
            ms,
        ) == Some(Ok::<(crate::lua54::ProtoView, int), CodecError>((pv, n))),
        n > m ==> crate::lua54::spec_read_proto_body(
            b.take(m),
            p6,
            ctx,
            flp,
            source,
            ld,
            lld,
            nparams,
            va,
            ms,
        ) == Some(Err::<(crate::lua54::ProtoView, int), CodecError>(CodecError::Truncated)),
    decreases fl, 0nat, 0nat,
{
    let bp = b.take(m);
    let fi = |p: int| crate::lua54::instructions::spec_read_instr(b, p, ctx);
    let gi = |p: int| crate::lua54::instructions::spec_read_instr(bp, p, ctx);
    let fc = |p: int| crate::lua54::constants::spec_read_constant(b, p, ctx);
    let gc = |p: int| crate::lua54::constants::spec_read_constant(bp, p, ctx);
    let fu = |p: int| crate::lua54::upvalues::spec_read_upvalue(b, p);
    let gu = |p: int| crate::lua54::upvalues::spec_read_upvalue(bp, p);
    assert forall|p: int|
        0 <= p implies ((#[trigger] fi(p)) matches Ok(vq) ==> p < vq.1 <= b.len() && (vq.1 <= m
        ==> gi(p) == fi(p)) && (vq.1 > m ==> gi(p) == Err::<
        (crate::lua54::instructions::Instruction, int),
        CodecError,
    >(CodecError::Truncated))) by {
        match crate::lua54::instructions::spec_read_instr(b, p, ctx) {
            Ok((x, q)) => {
                match spec_read_u32(b, p, ctx.endianness) {
                    Ok((w, q2)) => {
                        lemma_trunc_u32(b, p, ctx.endianness, m, w, q2);
                    },
                    Err(err) => {
                    },
                }
            },
            Err(err) => {
            },
        }
    }
    assert forall|p: int|
        0 <= p implies ((#[trigger] fc(p)) matches Ok(vq) ==> p < vq.1 <= b.len() && (vq.1 <= m
        ==> gc(p) == fc(p)) && (vq.1 > m ==> gc(p) == Err::<
        (crate::lua54::constants::ConstView, int),
        CodecError,
    >(CodecError::Truncated))) by {
        match crate::lua54::constants::spec_read_constant(b, p, ctx) {
            Ok((x, q)) => {
                lemma_trunc_constant54(b, p, ctx, m, x, q);
            },
            Err(err) => {
            },
        }
    }
    assert forall|p: int|
        0 <= p implies ((#[trigger] fu(p)) matches Ok(vq) ==> p < vq.1 <= b.len() && (vq.1 <= m
        ==> gu(p) == fu(p)) && (vq.1 > m ==> gu(p) == Err::<
        (crate::lua54::upvalues::Upvalue, int),
        CodecError,
    >(CodecError::Truncated))) by {
        match crate::lua54::upvalues::spec_read_upvalue(b, p) {
            Ok((x, q)) => {
                lemma_trunc_upvalue54(b, p, m, x, q);
            },
            Err(err) => {
            },
        }
    }
    match crate::array::spec_read_array_size(b, p6, ctx) {
        Err(err) => {
        },
        Ok((n_code, p7)) => {
            lemma_trunc_array_size(b, p6, ctx, m, n_code, p7);
            match crate::codec::spec_read_list(
                p7,
                n_code as nat,
                fi,
                Seq::<crate::lua54::instructions::Instruction>::empty(),
            ) {
                Err(err) => {
                },
                Ok((code, p8)) => {
                    if p7 <= m {
                        lemma_trunc_list(
                            p7,
                            n_code as nat,
                            fi,
                            gi,
                            Seq::<crate::lua54::instructions::Instruction>::empty(),
                            m,
                            b.len() as int,
                            code,
                            p8,
                        );
                    } else {
                        lemma_list_monotone(
                            p7,
                            n_code as nat,
                            fi,
                            Seq::<crate::lua54::instructions::Instruction>::empty(),
                            code,
                            p8,
                        );
                        lemma_list_upper(
                            p7,
                            n_code as nat,
                            fi,
                            Seq::<crate::lua54::instructions::Instruction>::empty(),
                            b.len() as int,
                            code,
                            p8,
                        );
                    }
                    match crate::array::spec_read_array_size(b, p8, ctx) {
                        Err(err) => {
                        },
                        Ok((n_const, p9)) => {
                            lemma_trunc_array_size(b, p8, ctx, m, n_const, p9);
                            match crate::codec::spec_read_list(
                                p9,
                                n_const as nat,
                                fc,
                                Seq::<crate::lua54::constants::ConstView>::empty(),
                            ) {
                                Err(err) => {
                                },
                                Ok((consts, p10)) => {
                                    if p9 <= m {
                                        lemma_trunc_list(
                                            p9,
                                            n_const as nat,
                                            fc,
                                            gc,
                                            Seq::<crate::lua54::constants::ConstView>::empty(),
                                            m,
                                            b.len() as int,
                                            consts,
                                            p10,
                                        );
                                    } else {
                                        lemma_list_monotone(
                                            p9,
                                            n_const as nat,
                                            fc,
                                            Seq::<crate::lua54::constants::ConstView>::empty(),
                                            consts,
                                            p10,
                                        );
                                        lemma_list_upper(
                                            p9,
                                            n_const as nat,
                                            fc,
                                            Seq::<crate::lua54::constants::ConstView>::empty(),
                                            b.len() as int,
                                            consts,
                                            p10,
                                        );
                                    }
                                    match crate::array::spec_read_array_size(b, p10, ctx) {
                                        Err(err) => {
                                        },
                                        Ok((n_ups, p11)) => {
                                            lemma_trunc_array_size(b, p10, ctx, m, n_ups, p11);
                                            match crate::codec::spec_read_list(
                                                p11,
                                                n_ups as nat,
                                                fu,
                                                Seq::<crate::lua54::upvalues::Upvalue>::empty(),
                                            ) {
                                                Err(err) => {
                                                },
                                                Ok((ups, p12)) => {
                                                    if p11 <= m {
                                                        lemma_trunc_list(
                                                            p11,
                                                            n_ups as nat,
                                                            fu,
                                                            gu,
                                                            Seq::<
                                                                crate::lua54::upvalues::Upvalue,
                                                            >::empty(),
                                                            m,
                                                            b.len() as int,
                                                            ups,
                                                            p12,
                                                        );
                                                    } else {
                                                        lemma_list_monotone(
                                                            p11,
                                                            n_ups as nat,
                                                            fu,
                                                            Seq::<
                                                                crate::lua54::upvalues::Upvalue,
                                                            >::empty(),
                                                            ups,
                                                            p12,
                                                        );
                                                        lemma_list_upper(
                                                            p11,
                                                            n_ups as nat,
                                                            fu,
                                                            Seq::<
                                                                crate::lua54::upvalues::Upvalue,
                                                            >::empty(),
                                                            b.len() as int,
                                                            ups,
                                                            p12,
                                                        );
                                                    }
                                                    match crate::array::spec_read_array_size(
                                                        b,
                                                        p12,
                                                        ctx,
                                                    ) {
                                                        Err(err) => {
                                                        },
                                                        Ok((n_protos, p13)) => {
                                                            lemma_trunc_array_size(
                                                                b, p12, ctx, m, n_protos, p13,
                                                            );
                                                            match crate::lua54::spec_read_protos(
                                                                b,
                                                                p13,
                                                                ctx,
                                                                n_protos as nat,
                                                                (fl - 1) as nat,
                                                                Seq::<
                                                                    crate::lua54::ProtoView,
                                                                >::empty(),
                                                            ) {
                                                                None => {
                                                                },
                                                                Some(Err(err)) => {
                                                                },
                                                                Some(Ok((protos, p14))) => {
                                                                    if p13 <= m {
                                                                        lemma_trunc_protos54(
                                                                            b,
                                                                            p13,
                                                                            ctx,
                                                                            n_protos as nat,
                                                                            (fl - 1) as nat,
                                                                            (flp - 1) as nat,
                                                                            Seq::<
                                                                                crate::lua54::ProtoView,
                                                                            >::empty(),
                                                                            m,
                                                                            protos,
                                                                            p14,
                                                                        );
                                                                    } else {
                                                                        lemma_trunc_protos54(
                                                                            b,
                                                                            p13,
                                                                            ctx,
                                                                            n_protos as nat,
                                                                            (fl - 1) as nat,
                                                                            (b.len() - p13
                                                                                + 1) as nat,
                                                                            Seq::<
                                                                                crate::lua54::ProtoView,
                                                                            >::empty(),
                                                                            b.len() as int,
                                                                            protos,
                                                                            p14,
                                                                        );
                                                                    }
                                                                    match crate::lua54::debug_info::spec_read_debug(
                                                                        b,
                                                                        p14,
                                                                        ctx,
                                                                    ) {
                                                                        Err(err) => {
                                                                        },
                                                                        Ok((dbg, p15)) => {
                                                                            if p14 <= m {
                                                                                lemma_trunc_debug54(
                                                                                    b, p14, ctx, m,
                                                                                    dbg, p15,
                                                                                );
                                                                            } else {
                                                                                lemma_trunc_debug54(
                                                                                    b,
                                                                                    p14,
                                                                                    ctx,
                                                                                    b.len() as int,
                                                                                    dbg,
                                                                                    p15,
                                                                                );
                                                                            }
                                                                        },
                                                                    }
                                                                },
                                                            }
                                                        },
                                                    }
                                                },
                                            }
                                        },
                                    }
                                },
                            }
                        },
                    }
                },
            }
        },
    }
}

/// A run of nested 5.4 prototypes under the cut.
pub proof fn lemma_trunc_protos54(
    b: Seq<u8>,
    pos: int,
    ctx: CommonCtx,
    cnt: nat,
    fl: nat,
    flp: nat,
    acc: Seq<crate::lua54::ProtoView>,
    m: int,
    s: Seq<crate::lua54::ProtoView>,
    n: int,
)
    requires
        0 <= pos <= m <= b.len(),
        crate::lua54::spec_read_protos(b, pos, ctx, cnt, fl, acc) == Some(
            Ok::<(Seq<crate::lua54::ProtoView>, int), CodecError>((s, n)),
        ),
        flp > m - pos,
    ensures
        pos <= n,
        n <= b.len(),
        n <= m ==> crate::lua54::spec_read_protos(b.take(m), pos, ctx, cnt, flp, acc) == Some(
            Ok::<(Seq<crate::lua54::ProtoView>, int), CodecError>((s, n)),
        ),
        n > m ==> crate::lua54::spec_read_protos(b.take(m), pos, ctx, cnt, flp, acc) == Some(
            Err::<(Seq<crate::lua54::ProtoView>, int), CodecError>(CodecError::Truncated),
        ),
    decreases fl, cnt, 2nat,
{
    if cnt > 0 {
        match crate::lua54::spec_read_proto(b, pos, ctx, fl) {
            None => {
            },
            Some(Err(err)) => {
            },
            Some(Ok((pc, q))) => {
                lemma_trunc_proto54(b, pos, ctx, fl, flp, m, pc, q);
                if q <= m {
                    lemma_trunc_protos54(
                        b,
                        q,
                        ctx,
                        (cnt - 1) as nat,
                        fl,
                        flp,
                        acc.push(pc),
                        m,
                        s,
                        n,
                    );
                } else {
                    lemma_trunc_protos54(
                        b,
                        q,
                        ctx,
                        (cnt - 1) as nat,
                        fl,
                        (b.len() - q + 1) as nat,
                        acc.push(pc),
                        b.len() as int,
                        s,
                        n,
                    );
                }
            },
        }
    }
}

/// A 5.4 header under the cut.
pub proof fn lemma_trunc_header54(
    b: Seq<u8>,
    pos: int,
    m: int,
    hv: crate::lua54::HeaderView,
    n: int,
)
    requires
        0 <= pos,
        0 <= m <= b.len(),
        crate::lua54::spec_read_header(b, pos) == Ok::<
            (crate::lua54::HeaderView, int),
            CodecError,
        >((hv, n)),
    ensures
        pos < n,
        n <= b.len(),
        n <= m ==> crate::lua54::spec_read_header(b.take(m), pos) == Ok::<
            (crate::lua54::HeaderView, int),
            CodecError,
        >((hv, n)),
        n > m ==> crate::lua54::spec_read_header(b.take(m), pos) == Err::<
            (crate::lua54::HeaderView, int),
            CodecError,
        >(CodecError::Truncated),
{
    if n <= m {
        assert(b.take(m).subrange(pos, pos + 4) =~= b.subrange(pos, pos + 4));
        assert(b.take(m).subrange(pos + 6, pos + 12) =~= b.subrange(pos + 6, pos + 12));
        match spec_read_u64(b, pos + 15, crate::Endianness::Little) {
            Ok((x, q)) => {
                lemma_trunc_u64(b, pos + 15, crate::Endianness::Little, m, x, q);
            },
            Err(err) => {
            },
        }
        match spec_read_u64(b, pos + 23, crate::Endianness::Little) {
            Ok((x, q)) => {
                lemma_trunc_u64(b, pos + 23, crate::Endianness::Little, m, x, q);
            },
            Err(err) => {
            },
        }
    }
}

/// The truncation law for whole 5.4 chunks.
pub proof fn lemma_chunk_truncation54(b: Seq<u8>, m: int, bv: crate::lua54::BytecodeView, n: int)
    requires
        crate::lua54::spec_read_chunk(b) == Ok::<(crate::lua54::BytecodeView, int), CodecError>(
            (bv, n),
        ),
        0 <= m < n,
    ensures
        crate::lua54::spec_read_chunk(b.take(m)) == Err::<
            (crate::lua54::BytecodeView, int),
            CodecError,
        >(CodecError::Truncated),
{
    match crate::lua54::spec_read_header(b, 0) {
        Err(err) => {
        },
        Ok((h, p0)) => {
            match spec_read_u8(b, p0) {
                Err(err) => {
                },
                Ok((szup, p)) => {
                    let ctx = CommonCtx {
                        size_of_size_t: 0,
                        lua_version: h.version,
                        endianness: crate::Endianness::Little,
                    };
                    match crate::lua54::spec_read_proto(b, p, ctx, (b.len() + 1) as nat) {
                        None => {
                        },
                        Some(Err(err)) => {
                        },
                        Some(Ok((pvv, nn))) => {
                            lemma_trunc_proto54(
                                b,
                                p,
                                ctx,
                                (b.len() + 1) as nat,
                                (b.len() + 1) as nat,
                                b.len() as int,
                                pvv,
                                nn,
                            );
                            lemma_trunc_header54(b, 0, m, h, p0);
                            lemma_trunc_u8(b, p0, m, szup, p);
                            if p <= m {
                                lemma_trunc_proto54(
                                    b,
                                    p,
                                    ctx,
                                    (b.len() + 1) as nat,
                                    (m + 1) as nat,
                                    m,
                                    pvv,
                                    nn,
                                );
                                assert(b.take(m).len() == m);
                            }
                        },
                    }
                },
            }
        },
    }
}


} // verus!
