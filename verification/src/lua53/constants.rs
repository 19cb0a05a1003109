//! The Lua 5.3 constant codec: a tag byte selects the variant, then its
//! payload follows.  The valid tags are 0 (nil), 1 (boolean, with a truth
//! byte), 3 (float), 19 (integer) and 4 or 20 (short or long string);
//! anything else is a terminal decode error.
//!
//! A float constant is carried as its raw IEEE-754 bit pattern, decoded
//! untouched.  Constant writing for 5.3 is not yet built: re-encoding
//! would have to pick the short-versus-long string tag, which this crate
//! does not guess.

use vstd::prelude::*;
use crate::CommonCtx;
use crate::error::CodecError;
use crate::reader::read_i64;
use crate::reader::read_u8;
use crate::reader::read_u64;
use crate::reader::spec_read_i64;
use crate::reader::spec_read_u8;
use crate::reader::spec_read_u64;
use crate::string::LuaString;
use crate::string::StringView;
use crate::string::spec_read_string;

verus! {

/// A decoded Lua 5.3 constant.
#[derive(Debug, Clone)]
pub enum Constant {
    Nil,
    Boolean(bool),
    /// The IEEE-754 bit pattern of the float.
    Float(u64),
    Integer(i64),
    String(LuaString),
}

/// The mathematical shape of a constant: the string variant carries the
/// string's shape rather than the executable value.
pub enum ConstView {
    Nil,
    Boolean(bool),
    Float(u64),
    Integer(i64),
    String(StringView),
}

impl ConstView {
    /// A constant is well formed when its string, if any, is.
    pub open spec fn wf(self) -> bool {
        match self {
            ConstView::String(s) => s.wf(),
            _ => true,
        }
    }
}

/// The shape of a constant value.
pub open spec fn const_view(c: Constant) -> ConstView {
    match c {
        Constant::Nil => ConstView::Nil,
        Constant::Boolean(v) => ConstView::Boolean(v),
        Constant::Float(bits) => ConstView::Float(bits),
        Constant::Integer(x) => ConstView::Integer(x),
        Constant::String(s) => ConstView::String(s@),
    }
}

/// The shapes of a sequence of constants, in order.
pub open spec fn const_views(s: Seq<Constant>) -> Seq<ConstView>
    decreases s, s.len(),
{
    if s.len() == 0 {
        Seq::empty()
    } else {
        const_views(s.drop_last()).push(const_view(s.last()))
    }
}

/// Appending a constant appends its shape.
pub proof fn lemma_const_views_push(s: Seq<Constant>, x: Constant)
    ensures
        const_views(s.push(x)) == const_views(s).push(const_view(x)),
{
    assert(s.push(x).drop_last() =~= s);
    assert(s.push(x).last() == x);
}

/// What reading a constant at `pos` yields: the tag byte selects the
/// variant, whose payload follows; a tag outside the closed set is an
/// invalid tag.
pub open spec fn spec_read_constant(b: Seq<u8>, pos: int, ctx: CommonCtx) -> Result<
    (ConstView, int),
    CodecError,
> {
    match spec_read_u8(b, pos) {
        Err(e) => Err(e),
        Ok((tag, p1)) => {
            if tag == 0 {
                Ok((ConstView::Nil, p1))
            } else if tag == 1 {
                match spec_read_u8(b, p1) {
                    Ok((v, p2)) => Ok((ConstView::Boolean(v != 0), p2)),
                    Err(e) => Err(e),
                }
            } else if tag == 3 {
                match spec_read_u64(b, p1, ctx.endianness) {
                    Ok((bits, p2)) => Ok((ConstView::Float(bits), p2)),
                    Err(e) => Err(e),
                }
            } else if tag == 19 {
                match spec_read_i64(b, p1, ctx.endianness) {
                    Ok((x, p2)) => Ok((ConstView::Integer(x), p2)),
                    Err(e) => Err(e),
                }
            } else if tag == 4 || tag == 20 {
                match spec_read_string(b, p1, ctx) {
                    Ok((s, p2)) => Ok((ConstView::String(s), p2)),
                    Err(e) => Err(e),
                }
            } else {
                Err(CodecError::InvalidTag)
            }
        },
    }
}

impl Constant {
    /// Reads a constant at `offset`, returning it with the position after
    /// its payload.
    pub fn read(src: &[u8], offset: usize, ctx: CommonCtx) -> (r: Result<
        (Constant, usize),
        CodecError,
    >)
        ensures
            match r {
                Ok((c, n)) => spec_read_constant(src@, offset as int, ctx) == Ok::<
                    (ConstView, int),
                    CodecError,
                >((const_view(c), n as int)) && const_view(c).wf() && offset <= n <= src@.len(),
                Err(e) => spec_read_constant(src@, offset as int, ctx) == Err::<
                    (ConstView, int),
                    CodecError,
                >(e),
            },
    {
        match read_u8(src, offset) {
            Err(e) => Err(e),
            Ok((tag, p1)) => {
                if tag == 0 {
                    Ok((Constant::Nil, p1))
                } else if tag == 1 {
                    match read_u8(src, p1) {
                        Ok((v, p2)) => Ok((Constant::Boolean(v != 0), p2)),
                        Err(e) => Err(e),
                    }
                } else if tag == 3 {
                    match read_u64(src, p1, ctx.endianness) {
                        Ok((bits, p2)) => Ok((Constant::Float(bits), p2)),
                        Err(e) => Err(e),
                    }
                } else if tag == 19 {
                    match read_i64(src, p1, ctx.endianness) {
                        Ok((x, p2)) => Ok((Constant::Integer(x), p2)),
                        Err(e) => Err(e),
                    }
                } else if tag == 4 || tag == 20 {
                    match LuaString::read(src, p1, ctx) {
                        Ok((s, p2)) => Ok((Constant::String(s), p2)),
                        Err(e) => Err(e),
                    }
                } else {
                    Err(CodecError::InvalidTag)
                }
            },
        }
    }
}

} // verus!
