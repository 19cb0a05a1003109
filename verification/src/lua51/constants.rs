//! The Lua 5.1 constant codec: a tag byte selects the variant, then its
//! payload follows.  The valid tags are 0 (nil), 1 (boolean, with a truth
//! byte), 3 (number) and 4 (string); anything else is a terminal decode
//! error.
//!
//! A number constant is an eight-byte floating-point value on the wire;
//! it is carried here as its raw IEEE-754 bit pattern, decoded and
//! re-encoded untouched.

use vstd::prelude::*;
use crate::CommonCtx;
use crate::error::CodecError;
use crate::reader::lemma_store_append;
use crate::reader::read_u8;
use crate::reader::read_u64;
use crate::reader::spec_read_u8;
use crate::reader::spec_read_u64;
use crate::reader::spec_store;
use crate::reader::spec_u64_bytes;
use crate::reader::write_u8;
use crate::reader::write_u64;
use crate::string::LuaString;
use crate::string::StringView;
use crate::string::spec_read_string;
use crate::string::spec_string51_bytes;

verus! {

/// A decoded Lua 5.1 constant.
#[derive(Debug, Clone)]
pub enum Constant {
    Nil,
    Boolean(bool),
    /// The IEEE-754 bit pattern of the number.
    Number(u64),
    String(LuaString),
}

/// The mathematical shape of a constant: the string variant carries the
/// string's shape rather than the executable value.
pub enum ConstView {
    Nil,
    Boolean(bool),
    Number(u64),
    String(StringView),
}

impl ConstView {
    /// A constant is well formed when its string, if any, is.
    pub open spec fn wf(self) -> bool {
        match self {
            ConstView::String(s) => s.wf(),
            _ => true,
        }
    }
}

/// The shape of a constant value.
pub open spec fn const_view(c: Constant) -> ConstView {
    match c {
        Constant::Nil => ConstView::Nil,
        Constant::Boolean(v) => ConstView::Boolean(v),
        Constant::Number(bits) => ConstView::Number(bits),
        Constant::String(s) => ConstView::String(s@),
    }
}

/// The shapes of a sequence of constants, in order.
pub open spec fn const_views(s: Seq<Constant>) -> Seq<ConstView>
    decreases s, s.len(),
{
    if s.len() == 0 {
        Seq::empty()
    } else {
        const_views(s.drop_last()).push(const_view(s.last()))
    }
}

/// Appending a constant appends its shape.
pub proof fn lemma_const_views_push(s: Seq<Constant>, x: Constant)
    ensures
        const_views(s.push(x)) == const_views(s).push(const_view(x)),
{
    assert(s.push(x).drop_last() =~= s);
    assert(s.push(x).last() == x);
}

/// The tag byte a constant writes, per the Lua 5.1 tag table.
pub open spec fn spec_const_tag(v: ConstView) -> u8 {
    match v {
        ConstView::Nil => 0,
        ConstView::Boolean(_) => 1,
        ConstView::Number(_) => 3,
        ConstView::String(_) => 4,
    }
}

/// What reading a constant at `pos` yields: the tag byte selects the
/// variant, whose payload follows; a tag outside the closed set is an
/// invalid tag.
pub open spec fn spec_read_constant(b: Seq<u8>, pos: int, ctx: CommonCtx) -> Result<
    (ConstView, int),
    CodecError,
> {
    match spec_read_u8(b, pos) {
        Err(e) => Err(e),
        Ok((tag, p1)) => {
            if tag == 0 {
                Ok((ConstView::Nil, p1))
            } else if tag == 1 {
                match spec_read_u8(b, p1) {
                    Ok((v, p2)) => Ok((ConstView::Boolean(v != 0), p2)),
                    Err(e) => Err(e),
                }
            } else if tag == 3 {
                match spec_read_u64(b, p1, ctx.endianness) {
                    Ok((bits, p2)) => Ok((ConstView::Number(bits), p2)),
                    Err(e) => Err(e),
                }
            } else if tag == 4 {
                match spec_read_string(b, p1, ctx) {
                    Ok((s, p2)) => Ok((ConstView::String(s), p2)),
                    Err(e) => Err(e),
                }
            } else {
                Err(CodecError::InvalidTag)
            }
        },
    }
}

/// The wire form of a constant: its tag byte, then its payload.
pub open spec fn spec_constant_bytes(v: ConstView, ctx: CommonCtx) -> Seq<u8>
    recommends
        v.wf(),
{
    match v {
        ConstView::Nil => seq![0u8],
        ConstView::Boolean(t) => seq![
            1u8,
            if t {
                1u8
            } else {
                0u8
            },
        ],
        ConstView::Number(bits) => seq![3u8] + spec_u64_bytes(bits, ctx.endianness),
        ConstView::String(s) => seq![4u8] + spec_string51_bytes(s, ctx),
    }
}

impl Constant {
    /// Return the type of the constant in the Lua 5.1 bytecode format.
    ///
    /// The values returned are the following:
    ///
    /// * `0` for `Nil` constants
    /// * `1` for `Boolean` constants
    /// * `3` for `Number` constants
    /// * `4` for `String` constants
    pub fn get_type(&self) -> (r: u8)
        ensures
            r == spec_const_tag(const_view(*self)),
    {
        match self {
            Constant::Nil => 0,
            Constant::Boolean(_) => 1,
            Constant::Number(_) => 3,
            Constant::String(_) => 4,
        }
    }

    /// Reads a constant at `offset`, returning it with the position after
    /// its payload.
    pub fn read(src: &[u8], offset: usize, ctx: CommonCtx) -> (r: Result<
        (Constant, usize),
        CodecError,
    >)
        ensures
            match r {
                Ok((c, n)) => spec_read_constant(src@, offset as int, ctx) == Ok::<
                    (ConstView, int),
                    CodecError,
                >((const_view(c), n as int)) && const_view(c).wf() && offset <= n <= src@.len(),
                Err(e) => spec_read_constant(src@, offset as int, ctx) == Err::<
                    (ConstView, int),
                    CodecError,
                >(e),
            },
    {
        match read_u8(src, offset) {
            Err(e) => Err(e),
            Ok((tag, p1)) => {
                if tag == 0 {
                    Ok((Constant::Nil, p1))
                } else if tag == 1 {
                    match read_u8(src, p1) {
                        Ok((v, p2)) => Ok((Constant::Boolean(v != 0), p2)),
                        Err(e) => Err(e),
                    }
                } else if tag == 3 {
                    match read_u64(src, p1, ctx.endianness) {
                        Ok((bits, p2)) => Ok((Constant::Number(bits), p2)),
                        Err(e) => Err(e),
                    }
                } else if tag == 4 {
                    match LuaString::read(src, p1, ctx) {
                        Ok((s, p2)) => Ok((Constant::String(s), p2)),
                        Err(e) => Err(e),
                    }
                } else {
                    Err(CodecError::InvalidTag)
                }
            },
        }
    }

    /// Writes this constant at `offset`: its tag byte, then its payload,
    /// the string payload in the 5.1 string encoding under the context's
    /// `size_t` width.  Writing succeeds exactly when a string payload,
    /// if any, is writable under the context and the whole encoding fits
    /// the buffer; it fails leaving the buffer untouched.
    pub fn write(&self, dst: &mut [u8], offset: &mut usize, ctx: CommonCtx) -> (r: Result<
        usize,
        CodecError,
    >)
        requires
            (*self) matches Constant::String(s) ==> s@.wf(),
        ensures
            ({
                let enc = spec_constant_bytes(const_view(*self), ctx);
                let fits = *old(offset) + enc.len() <= old(dst)@.len();
                r is Ok <==> (match const_view(*self) {
                    ConstView::String(s) => crate::string::spec_string51_writable(s, ctx) && fits,
                    _ => fits,
                })
            }),
            match r {
                Ok(written) => {
                    let enc = spec_constant_bytes(const_view(*self), ctx);
                    &&& written == enc.len()
                    &&& *final(offset) == *old(offset) + enc.len()
                    &&& final(dst)@ == spec_store(old(dst)@, *old(offset) as int, enc)
                },
                Err(e) => {
                    &&& *final(offset) == *old(offset)
                    &&& final(dst)@ == old(dst)@
                    &&& (e == CodecError::InvalidTag || e == CodecError::Truncated)
                },
            },
    {
        let ghost pre = dst@;
        let ghost start = *offset as int;
        match self {
            Constant::Nil => {
                match write_u8(dst, offset, 0) {
                    Ok(()) => Ok(1),
                    Err(e) => Err(e),
                }
            },
            Constant::Boolean(t) => {
                if *offset > dst.len() || dst.len() - *offset < 2 {
                    return Err(CodecError::Truncated);
                }
                let r1 = write_u8(dst, offset, 1);
                let r2 = write_u8(dst, offset, if *t {
                    1
                } else {
                    0
                });
                proof {
                    assert(dst@ =~= spec_store(pre, start, spec_constant_bytes(
                        const_view(*self),
                        ctx,
                    )));
                }
                Ok(2)
            },
            Constant::Number(bits) => {
                if *offset > dst.len() || dst.len() - *offset < 9 {
                    return Err(CodecError::Truncated);
                }
                let r1 = write_u8(dst, offset, 3);
                let r2 = write_u64(dst, offset, *bits, ctx.endianness);
                proof {
                    lemma_store_append(pre, start, seq![3u8], spec_u64_bytes(
                        *bits,
                        ctx.endianness,
                    ));
                }
                Ok(9)
            },
            Constant::String(s) => {
                let width = ctx.size_of_size_t;
                if width != 4 && width != 8 {
                    return Err(CodecError::InvalidTag);
                }
                if width == 4 && s.size > (i32::MAX as usize) {
                    return Err(CodecError::Truncated);
                }
                if width == 8 && (s.size as u64) > (i64::MAX as u64) {
                    return Err(CodecError::Truncated);
                }
                if *offset > dst.len() {
                    return Err(CodecError::Truncated);
                }
                let avail: usize = dst.len() - *offset;
                if avail < 1 + (width as usize) {
                    return Err(CodecError::Truncated);
                }
                if s.size > 0 && s.size > avail - 1 - (width as usize) {
                    return Err(CodecError::Truncated);
                }
                let r1 = write_u8(dst, offset, 4);
                let r2 = s.write_lua51_string(dst, offset, ctx);
                match r2 {
                    Ok(()) => {
                        proof {
                            lemma_store_append(pre, start, seq![4u8], spec_string51_bytes(
                                s@,
                                ctx,
                            ));
                        }
                        Ok(1 + (width as usize) + s.size)
                    },
                    Err(e) => {
                        proof {
                            assert(false);
                        }
                        Err(e)
                    },
                }
            },
        }
    }
}

} // verus!
