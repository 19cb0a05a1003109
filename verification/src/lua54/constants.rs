//! The Lua 5.4 constant codec.  The tag byte encodes a boolean's truth
//! value directly: 0 is nil, 1 is false, 17 is true, 3 is an integer,
//! 19 is a float, and 4 or 20 a short or long string; anything else is a
//! terminal decode error.
//!
//! Re-encoding derives the tag from the variant and, for a string, from
//! a fixed length threshold of 40 bytes separating short from long
//! strings.  String constant writing itself is not yet built for 5.4 and
//! reports itself unimplemented rather than guessing the encoding.

use vstd::prelude::*;
use crate::CommonCtx;
use crate::error::CodecError;
use crate::reader::lemma_store_append;
use crate::reader::read_i64;
use crate::reader::read_u8;
use crate::reader::read_u64;
use crate::reader::spec_read_i64;
use crate::reader::spec_read_u8;
use crate::reader::spec_read_u64;
use crate::reader::spec_store;
use crate::reader::spec_u64_bytes;
use crate::reader::spec_u64_of_i64;
use crate::reader::write_u8;
use crate::reader::write_u64;
use crate::string::LuaString;
use crate::string::StringView;
use crate::string::spec_read_string;

verus! {

/// The content length at and above which a string constant takes the
/// long-string tag.
pub const LUAI_MAXSHORTLEN: usize = 40;

/// A decoded Lua 5.4 constant.
#[derive(Debug, Clone)]
pub enum Constant {
    Nil,
    Boolean(bool),
    /// The IEEE-754 bit pattern of the float.
    Float(u64),
    Integer(i64),
    String(LuaString),
}

/// The mathematical shape of a constant: the string variant carries the
/// string's shape rather than the executable value.
pub enum ConstView {
    Nil,
    Boolean(bool),
    Float(u64),
    Integer(i64),
    String(StringView),
}

impl ConstView {
    /// A constant is well formed when its string, if any, is.
    pub open spec fn wf(self) -> bool {
        match self {
            ConstView::String(s) => s.wf(),
            _ => true,
        }
    }
}

/// The shape of a constant value.
pub open spec fn const_view(c: Constant) -> ConstView {
    match c {
        Constant::Nil => ConstView::Nil,
        Constant::Boolean(v) => ConstView::Boolean(v),
        Constant::Float(bits) => ConstView::Float(bits),
        Constant::Integer(x) => ConstView::Integer(x),
        Constant::String(s) => ConstView::String(s@),
    }
}

/// The shapes of a sequence of constants, in order.
pub open spec fn const_views(s: Seq<Constant>) -> Seq<ConstView>
    decreases s, s.len(),
{
    if s.len() == 0 {
        Seq::empty()
    } else {
        const_views(s.drop_last()).push(const_view(s.last()))
    }
}

/// Appending a constant appends its shape.
pub proof fn lemma_const_views_push(s: Seq<Constant>, x: Constant)
    ensures
        const_views(s.push(x)) == const_views(s).push(const_view(x)),
{
    assert(s.push(x).drop_last() =~= s);
    assert(s.push(x).last() == x);
}

/// The tag byte a constant writes, per the Lua 5.4 tag table: the two
/// boolean tags split by truth value, the string tags by the fixed
/// length threshold.
pub open spec fn spec_const_tag(v: ConstView) -> u8 {
    match v {
        ConstView::Nil => 0,
        ConstView::Boolean(t) => if t {
            17
        } else {
            1
        },
        ConstView::Float(_) => 19,
        ConstView::Integer(_) => 3,
        ConstView::String(s) => if s.size >= LUAI_MAXSHORTLEN {
            20
        } else {
            4
        },
    }
}

/// What reading a constant at `pos` yields: the tag byte selects the
/// variant, whose payload follows; a tag outside the closed set is an
/// invalid tag.
pub open spec fn spec_read_constant(b: Seq<u8>, pos: int, ctx: CommonCtx) -> Result<
    (ConstView, int),
    CodecError,
> {
    match spec_read_u8(b, pos) {
        Err(e) => Err(e),
        Ok((tag, p1)) => {
            if tag == 0 {
                Ok((ConstView::Nil, p1))
            } else if tag == 1 {
                Ok((ConstView::Boolean(false), p1))
            } else if tag == 17 {
                Ok((ConstView::Boolean(true), p1))
            } else if tag == 19 {
                match spec_read_u64(b, p1, ctx.endianness) {
                    Ok((bits, p2)) => Ok((ConstView::Float(bits), p2)),
                    Err(e) => Err(e),
                }
            } else if tag == 3 {
                match spec_read_i64(b, p1, ctx.endianness) {
                    Ok((x, p2)) => Ok((ConstView::Integer(x), p2)),
                    Err(e) => Err(e),
                }
            } else if tag == 4 || tag == 20 {
                match spec_read_string(b, p1, ctx) {
                    Ok((s, p2)) => Ok((ConstView::String(s), p2)),
                    Err(e) => Err(e),
                }
            } else {
                Err(CodecError::InvalidTag)
            }
        },
    }
}

/// The wire form of the constants this crate can write for 5.4: all but
/// strings.
pub open spec fn spec_constant_bytes(v: ConstView, ctx: CommonCtx) -> Seq<u8>
    recommends
        !(v is String),
{
    match v {
        ConstView::Float(bits) => seq![19u8] + spec_u64_bytes(bits, ctx.endianness),
        ConstView::Integer(x) => seq![3u8] + spec_u64_bytes(
            spec_u64_of_i64(x),
            ctx.endianness,
        ),
        _ => seq![spec_const_tag(v)],
    }
}

impl Constant {
    /// Return the type of the constant in the Lua 5.4 bytecode format.
    ///
    /// The values returned are the following:
    ///
    /// * `0` for `Nil` constants
    /// * `1` and `17` for false and true `Boolean` constants
    /// * `19` for `Float` constants
    /// * `3` for `Integer` constants
    /// * `4` for short `String` constants, `20` for long ones
    pub fn get_type(&self) -> (r: u8)
        ensures
            r == spec_const_tag(const_view(*self)),
    {
        match self {
            Constant::Nil => 0,
            Constant::Boolean(t) => if *t {
                17
            } else {
                1
            },
            Constant::Float(_) => 19,
            Constant::Integer(_) => 3,
            Constant::String(s) => {
                if s.size >= LUAI_MAXSHORTLEN {
                    20
                } else {
                    4
                }
            },
        }
    }

    /// Reads a constant at `offset`, returning it with the position after
    /// its payload.
    pub fn read(src: &[u8], offset: usize, ctx: CommonCtx) -> (r: Result<
        (Constant, usize),
        CodecError,
    >)
        ensures
            match r {
                Ok((c, n)) => spec_read_constant(src@, offset as int, ctx) == Ok::<
                    (ConstView, int),
                    CodecError,
                >((const_view(c), n as int)) && const_view(c).wf() && offset <= n <= src@.len(),
                Err(e) => spec_read_constant(src@, offset as int, ctx) == Err::<
                    (ConstView, int),
                    CodecError,
                >(e),
            },
    {
        match read_u8(src, offset) {
            Err(e) => Err(e),
            Ok((tag, p1)) => {
                if tag == 0 {
                    Ok((Constant::Nil, p1))
                } else if tag == 1 {
                    Ok((Constant::Boolean(false), p1))
                } else if tag == 17 {
                    Ok((Constant::Boolean(true), p1))
                } else if tag == 19 {
                    match read_u64(src, p1, ctx.endianness) {
                        Ok((bits, p2)) => Ok((Constant::Float(bits), p2)),
                        Err(e) => Err(e),
                    }
                } else if tag == 3 {
                    match read_i64(src, p1, ctx.endianness) {
                        Ok((x, p2)) => Ok((Constant::Integer(x), p2)),
                        Err(e) => Err(e),
                    }
                } else if tag == 4 || tag == 20 {
                    match LuaString::read(src, p1, ctx) {
                        Ok((s, p2)) => Ok((Constant::String(s), p2)),
                        Err(e) => Err(e),
                    }
                } else {
                    Err(CodecError::InvalidTag)
                }
            },
        }
    }

    /// Writes this constant at `offset`: its tag byte, then its payload.
    /// Writing succeeds exactly when the constant is not a string and its
    /// encoding fits the buffer; a string constant always reports the
    /// unimplemented-operation kind, since 5.4 string writing is not yet
    /// built, and any failure leaves the buffer untouched.
    pub fn write(&self, dst: &mut [u8], offset: &mut usize, ctx: CommonCtx) -> (r: Result<
        usize,
        CodecError,
    >)
        ensures
            r is Ok <==> !(const_view(*self) is String) && *old(offset) + spec_constant_bytes(
                const_view(*self),
                ctx,
            ).len() <= old(dst)@.len(),
            const_view(*self) is String ==> r == Err::<usize, CodecError>(
                CodecError::Unimplemented,
            ),
            match r {
                Ok(written) => {
                    let enc = spec_constant_bytes(const_view(*self), ctx);
                    &&& !(const_view(*self) is String)
                    &&& written == enc.len()
                    &&& *final(offset) == *old(offset) + enc.len()
                    &&& final(dst)@ == spec_store(old(dst)@, *old(offset) as int, enc)
                },
                Err(e) => {
                    &&& *final(offset) == *old(offset)
                    &&& final(dst)@ == old(dst)@
                    &&& (e == CodecError::Unimplemented || e == CodecError::Truncated)
                },
            },
    {
        let ghost pre = dst@;
        let ghost start = *offset as int;
        match self {
            Constant::Nil => {
                match write_u8(dst, offset, 0) {
                    Ok(()) => Ok(1),
                    Err(e) => Err(e),
                }
            },
            Constant::Boolean(t) => {
                match write_u8(dst, offset, if *t {
                    17
                } else {
                    1
                }) {
                    Ok(()) => Ok(1),
                    Err(e) => Err(e),
                }
            },
            Constant::Float(bits) => {
                if *offset > dst.len() || dst.len() - *offset < 9 {
                    return Err(CodecError::Truncated);
                }
                let r1 = write_u8(dst, offset, 19);
                let r2 = write_u64(dst, offset, *bits, ctx.endianness);
                proof {
                    lemma_store_append(pre, start, seq![19u8], spec_u64_bytes(
                        *bits,
                        ctx.endianness,
                    ));
                }
                Ok(9)
            },
            Constant::Integer(x) => {
                if *offset > dst.len() || dst.len() - *offset < 9 {
                    return Err(CodecError::Truncated);
                }
                let r1 = write_u8(dst, offset, 3);
                let xv: i64 = *x;
                let bits: u64 = xv as u64;
                proof {
                    assert(bits == spec_u64_of_i64(xv)) by (bit_vector)
                        requires
                            bits == xv as u64,
                    ;
                }
                let r2 = write_u64(dst, offset, bits, ctx.endianness);
                proof {
                    lemma_store_append(pre, start, seq![3u8], spec_u64_bytes(
                        bits,
                        ctx.endianness,
                    ));
                }
                Ok(9)
            },
            Constant::String(_) => Err(CodecError::Unimplemented),
        }
    }
}

} // verus!
