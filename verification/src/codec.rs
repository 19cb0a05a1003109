//! Shared machinery for reading a counted sequence of values: the
//! specification-level reader that applies an element reader `n` times in
//! a row, threading the position and accumulating the values read.

use vstd::prelude::*;
use crate::CommonCtx;
use crate::Endianness;
use crate::error::CodecError;
use crate::reader::lemma_store_append;
use crate::reader::read_i32;
use crate::reader::read_u8;
use crate::reader::spec_read_i32;
use crate::reader::spec_read_u8;
use crate::reader::spec_store;
use crate::reader::spec_u32_bytes;
use crate::reader::spec_u32_of_i32;
use crate::reader::write_i32;
use crate::string::LuaString;
use crate::string::StringView;
use crate::string::lemma_string_views_push;
use crate::string::spec_read_string;
use crate::string::string_views;

verus! {

/// What reading `n` consecutive elements from position `pos` yields,
/// having already accumulated `acc`: the elements in order and the
/// position after the last, or the first element error.
pub open spec fn spec_read_list<T>(
    pos: int,
    n: nat,
    f: spec_fn(int) -> Result<(T, int), CodecError>,
    acc: Seq<T>,
) -> Result<(Seq<T>, int), CodecError>
    decreases n,
{
    if n == 0 {
        Ok((acc, pos))
    } else {
        match f(pos) {
            Ok((v, q)) => spec_read_list(q, (n - 1) as nat, f, acc.push(v)),
            Err(e) => Err(e),
        }
    }
}

/// Reads `n` consecutive 32-bit signed scalars.
#[verifier::loop_isolation(false)]
pub fn read_i32_list(src: &[u8], offset: usize, n: usize, e: Endianness) -> (r: Result<
    (Vec<i32>, usize),
    CodecError,
>)
    requires
        offset <= src@.len(),
    ensures
        ({
            let s = spec_read_list(
                offset as int,
                n as nat,
                |p: int| spec_read_i32(src@, p, e),
                Seq::<i32>::empty(),
            );
            match r {
                Ok((v, m)) => s == Ok::<(Seq<i32>, int), CodecError>((v@, m as int)) && offset <= m
                    <= src@.len() && v@.len() == n,
                Err(err) => s == Err::<(Seq<i32>, int), CodecError>(err),
            }
        }),
{
    let ghost f = |p: int| spec_read_i32(src@, p, e);
    let mut out: Vec<i32> = Vec::new();
    let mut pos: usize = offset;
    let mut i: usize = 0;
    while i < n
        invariant
            0 <= i <= n,
            offset <= pos <= src@.len(),
            out@.len() == i,
            spec_read_list(pos as int, (n - i) as nat, f, out@) == spec_read_list(
                offset as int,
                n as nat,
                f,
                Seq::<i32>::empty(),
            ),
        decreases n - i,
    {
        match read_i32(src, pos, e) {
            Ok((x, q)) => {
                out.push(x);
                pos = q;
                i = i + 1;
            },
            Err(err) => {
                return Err(err);
            },
        }
    }
    Ok((out, pos))
}

/// Reads `n` consecutive raw bytes, one value per byte.
#[verifier::loop_isolation(false)]
pub fn read_u8_list(src: &[u8], offset: usize, n: usize) -> (r: Result<
    (Vec<u8>, usize),
    CodecError,
>)
    requires
        offset <= src@.len(),
    ensures
        ({
            let s = spec_read_list(
                offset as int,
                n as nat,
                |p: int| spec_read_u8(src@, p),
                Seq::<u8>::empty(),
            );
            match r {
                Ok((v, m)) => s == Ok::<(Seq<u8>, int), CodecError>((v@, m as int)) && offset <= m
                    <= src@.len() && v@.len() == n,
                Err(err) => s == Err::<(Seq<u8>, int), CodecError>(err),
            }
        }),
{
    let ghost f = |p: int| spec_read_u8(src@, p);
    let mut out: Vec<u8> = Vec::new();
    let mut pos: usize = offset;
    let mut i: usize = 0;
    while i < n
        invariant
            0 <= i <= n,
            offset <= pos <= src@.len(),
            out@.len() == i,
            spec_read_list(pos as int, (n - i) as nat, f, out@) == spec_read_list(
                offset as int,
                n as nat,
                f,
                Seq::<u8>::empty(),
            ),
        decreases n - i,
    {
        match read_u8(src, pos) {
            Ok((x, q)) => {
                out.push(x);
                pos = q;
                i = i + 1;
            },
            Err(err) => {
                return Err(err);
            },
        }
    }
    Ok((out, pos))
}

/// Reads `n` consecutive strings under the given context.
#[verifier::loop_isolation(false)]
pub fn read_string_list(src: &[u8], offset: usize, n: usize, ctx: CommonCtx) -> (r: Result<
    (Vec<LuaString>, usize),
    CodecError,
>)
    requires
        offset <= src@.len(),
    ensures
        ({
            let s = spec_read_list(
                offset as int,
                n as nat,
                |p: int| spec_read_string(src@, p, ctx),
                Seq::<StringView>::empty(),
            );
            match r {
                Ok((v, m)) => s == Ok::<(Seq<StringView>, int), CodecError>(
                    (string_views(v@), m as int),
                ) && offset <= m <= src@.len() && v@.len() == n && (forall|j: int|
                    0 <= j < v@.len() ==> (#[trigger] v@[j])@.wf()),
                Err(err) => s == Err::<(Seq<StringView>, int), CodecError>(err),
            }
        }),
{
    let ghost f = |p: int| spec_read_string(src@, p, ctx);
    let mut out: Vec<LuaString> = Vec::new();
    let mut pos: usize = offset;
    let mut i: usize = 0;
    proof {
        assert(string_views(out@) =~= Seq::<StringView>::empty());
    }
    while i < n
        invariant
            0 <= i <= n,
            offset <= pos <= src@.len(),
            out@.len() == i,
            forall|j: int| 0 <= j < out@.len() ==> (#[trigger] out@[j])@.wf(),
            spec_read_list(pos as int, (n - i) as nat, f, string_views(out@)) == spec_read_list(
                offset as int,
                n as nat,
                f,
                Seq::<StringView>::empty(),
            ),
        decreases n - i,
    {
        match LuaString::read(src, pos, ctx) {
            Ok((x, q)) => {
                proof {
                    lemma_string_views_push(out@, x);
                }
                out.push(x);
                pos = q;
                i = i + 1;
            },
            Err(err) => {
                return Err(err);
            },
        }
    }
    Ok((out, pos))
}

/// The wire form of a sequence of 32-bit signed scalars, in order.
pub open spec fn spec_i32s_bytes(s: Seq<i32>, e: Endianness) -> Seq<u8>
    decreases s, s.len(),
{
    if s.len() == 0 {
        Seq::empty()
    } else {
        spec_i32s_bytes(s.drop_last(), e) + spec_u32_bytes(spec_u32_of_i32(s.last()), e)
    }
}

/// The encoded length of a scalar sequence is four bytes per element.
pub proof fn lemma_i32s_bytes_len(s: Seq<i32>, e: Endianness)
    ensures
        spec_i32s_bytes(s, e).len() == 4 * s.len(),
    decreases s.len(),
{
    if s.len() > 0 {
        lemma_i32s_bytes_len(s.drop_last(), e);
    }
}

/// Writes a sequence of 32-bit signed scalars at the cursor.  On failure
/// the cursor stops where the room ran out and the elements before it
/// stay written.
#[verifier::loop_isolation(false)]
pub fn write_i32_list(dst: &mut [u8], offset: &mut usize, items: &[i32], e: Endianness) -> (r:
    Result<(), CodecError>)
    ensures
        r is Ok <==> *old(offset) + spec_i32s_bytes(items@, e).len() <= old(dst)@.len(),
        r is Ok ==> {
            &&& *final(offset) == *old(offset) + spec_i32s_bytes(items@, e).len()
            &&& final(dst)@ == spec_store(old(dst)@, *old(offset) as int, spec_i32s_bytes(
                items@,
                e,
            ))
        },
        r is Err ==> r == Err::<(), CodecError>(CodecError::Truncated) && final(dst)@.len() == old(
            dst,
        )@.len(),
{
    proof {
        lemma_i32s_bytes_len(items@, e);
    }
    if *offset > dst.len() {
        return Err(CodecError::Truncated);
    }
    let ghost pre = dst@;
    let ghost start = *offset as int;
    let mut i: usize = 0;
    proof {
        assert(spec_store(pre, start, spec_i32s_bytes(items@.take(0), e)) =~= pre);
    }
    while i < items.len()
        invariant
            0 <= i <= items@.len(),
            *offset as int == start + 4 * i,
            start + 4 * i <= dst@.len(),
            dst@.len() == pre.len(),
            dst@ == spec_store(pre, start, spec_i32s_bytes(items@.take(i as int), e)),
        decreases items@.len() - i,
    {
        let x = *vstd::slice::slice_index_get(items, i);
        proof {
            lemma_i32s_bytes_len(items@.take(i as int), e);
        }
        match write_i32(dst, offset, x, e) {
            Ok(()) => {
                proof {
                    lemma_i32s_bytes_len(items@.take(i as int), e);
                    lemma_store_append(
                        pre,
                        start,
                        spec_i32s_bytes(items@.take(i as int), e),
                        spec_u32_bytes(spec_u32_of_i32(items@[i as int]), e),
                    );
                    assert(items@.take(i + 1).drop_last() =~= items@.take(i as int));
                    assert(spec_i32s_bytes(items@.take(i as int), e) + spec_u32_bytes(
                        spec_u32_of_i32(items@[i as int]),
                        e,
                    ) =~= spec_i32s_bytes(items@.take(i + 1), e));
                }
                i = i + 1;
            },
            Err(err) => {
                proof {
                    lemma_i32s_bytes_len(items@, e);
                }
                return Err(err);
            },
        }
    }
    proof {
        assert(items@.take(items@.len() as int) =~= items@);
    }
    Ok(())
}

} // verus!
