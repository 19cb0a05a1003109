//! The Lua 5.4 upvalue descriptor: whether the captured variable lives on
//! the enclosing function's stack, its index, and the kind of variable it
//! captures.

use vstd::prelude::*;
use crate::CommonCtx;
use crate::error::CodecError;
use crate::reader::read_u8;
use crate::reader::spec_read_u8;

verus! {

/// One upvalue descriptor: three bytes on the wire.
#[derive(Debug, Copy, Clone, PartialEq, Eq, Structural)]
pub struct Upvalue {
    pub in_stack: u8,
    pub index: u8,
    pub kind: u8,
}

/// What reading an upvalue descriptor at `pos` yields.
pub open spec fn spec_read_upvalue(b: Seq<u8>, pos: int) -> Result<(Upvalue, int), CodecError> {
    match spec_read_u8(b, pos) {
        Err(e) => Err(e),
        Ok((in_stack, p1)) => match spec_read_u8(b, p1) {
            Err(e) => Err(e),
            Ok((index, p2)) => match spec_read_u8(b, p2) {
                Err(e) => Err(e),
                Ok((kind, p3)) => Ok((Upvalue { in_stack, index, kind }, p3)),
            },
        },
    }
}

impl Upvalue {
    /// Reads one upvalue descriptor at `offset`.
    pub fn read(src: &[u8], offset: usize, _ctx: CommonCtx) -> (r: Result<
        (Upvalue, usize),
        CodecError,
    >)
        ensures
            match r {
                Ok((u, n)) => spec_read_upvalue(src@, offset as int) == Ok::<
                    (Upvalue, int),
                    CodecError,
                >((u, n as int)) && offset <= n <= src@.len(),
                Err(e) => spec_read_upvalue(src@, offset as int) == Err::<
                    (Upvalue, int),
                    CodecError,
                >(e),
            },
    {
        match read_u8(src, offset) {
            Err(e) => Err(e),
            Ok((in_stack, p1)) => match read_u8(src, p1) {
                Err(e) => Err(e),
                Ok((index, p2)) => match read_u8(src, p2) {
                    Err(e) => Err(e),
                    Ok((kind, p3)) => Ok((Upvalue { in_stack, index, kind }, p3)),
                },
            },
        }
    }
}

/// Reads `n` consecutive upvalue descriptors.
#[verifier::loop_isolation(false)]
pub fn read_upvalue_list(src: &[u8], offset: usize, n: usize, ctx: CommonCtx) -> (r: Result<
    (Vec<Upvalue>, usize),
    CodecError,
>)
    requires
        offset <= src@.len(),
    ensures
        ({
            let s = crate::codec::spec_read_list(
                offset as int,
                n as nat,
                |p: int| spec_read_upvalue(src@, p),
                Seq::<Upvalue>::empty(),
            );
            match r {
                Ok((v, m)) => s == Ok::<(Seq<Upvalue>, int), CodecError>((v@, m as int)) && offset
                    <= m <= src@.len() && v@.len() == n,
                Err(err) => s == Err::<(Seq<Upvalue>, int), CodecError>(err),
            }
        }),
{
    let ghost f = |p: int| spec_read_upvalue(src@, p);
    let mut out: Vec<Upvalue> = Vec::new();
    let mut pos: usize = offset;
    let mut i: usize = 0;
    while i < n
        invariant
            0 <= i <= n,
            offset <= pos <= src@.len(),
            out@.len() == i,
            crate::codec::spec_read_list(pos as int, (n - i) as nat, f, out@)
                == crate::codec::spec_read_list(
                offset as int,
                n as nat,
                f,
                Seq::<Upvalue>::empty(),
            ),
        decreases n - i,
    {
        match Upvalue::read(src, pos, ctx) {
            Ok((x, q)) => {
                out.push(x);
                pos = q;
                i = i + 1;
            },
            Err(err) => {
                return Err(err);
            },
        }
    }
    Ok((out, pos))
}

} // verus!
