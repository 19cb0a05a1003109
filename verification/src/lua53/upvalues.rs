//! The Lua 5.3 upvalue descriptor: whether the captured variable lives on
//! the enclosing function's stack, and its index there or in the
//! enclosing closure's upvalue list.

use vstd::prelude::*;
use crate::CommonCtx;
use crate::error::CodecError;
use crate::reader::read_u8;
use crate::reader::spec_read_u8;
use crate::reader::spec_store;
use crate::reader::write_u8;

verus! {

/// One upvalue descriptor: two bytes on the wire.
#[derive(Debug, Copy, Clone, PartialEq, Eq, Structural)]
pub struct Upvalue {
    pub in_stack: u8,
    pub index: u8,
}

/// What reading an upvalue descriptor at `pos` yields.
pub open spec fn spec_read_upvalue(b: Seq<u8>, pos: int) -> Result<(Upvalue, int), CodecError> {
    match spec_read_u8(b, pos) {
        Err(e) => Err(e),
        Ok((in_stack, p1)) => match spec_read_u8(b, p1) {
            Err(e) => Err(e),
            Ok((index, p2)) => Ok((Upvalue { in_stack, index }, p2)),
        },
    }
}

/// The wire form of an upvalue descriptor.
pub open spec fn spec_upvalue_bytes(u: Upvalue) -> Seq<u8> {
    seq![u.in_stack, u.index]
}

impl Upvalue {
    /// Reads one upvalue descriptor at `offset`.
    pub fn read(src: &[u8], offset: usize, _ctx: CommonCtx) -> (r: Result<
        (Upvalue, usize),
        CodecError,
    >)
        ensures
            match r {
                Ok((u, n)) => spec_read_upvalue(src@, offset as int) == Ok::<
                    (Upvalue, int),
                    CodecError,
                >((u, n as int)) && offset <= n <= src@.len(),
                Err(e) => spec_read_upvalue(src@, offset as int) == Err::<
                    (Upvalue, int),
                    CodecError,
                >(e),
            },
    {
        match read_u8(src, offset) {
            Err(e) => Err(e),
            Ok((in_stack, p1)) => match read_u8(src, p1) {
                Err(e) => Err(e),
                Ok((index, p2)) => Ok((Upvalue { in_stack, index }, p2)),
            },
        }
    }

    /// Writes this upvalue descriptor at `offset`.  Fails, leaving the
    /// buffer untouched, when there is no room for its two bytes.
    pub fn write(self, dst: &mut [u8], offset: &mut usize) -> (r: Result<usize, CodecError>)
        ensures
            r is Ok <==> *old(offset) + 2 <= old(dst)@.len(),
            r is Ok ==> {
                &&& r == Ok::<usize, CodecError>(2usize)
                &&& *final(offset) == *old(offset) + 2
                &&& final(dst)@ == spec_store(old(dst)@, *old(offset) as int, spec_upvalue_bytes(self))
            },
            r is Err ==> {
                &&& r == Err::<usize, CodecError>(CodecError::Truncated)
                &&& *final(offset) == *old(offset)
                &&& final(dst)@ == old(dst)@
            },
    {
        if *offset > dst.len() || dst.len() - *offset < 2 {
            return Err(CodecError::Truncated);
        }
        let ghost pre = dst@;
        let ghost start = *offset as int;
        let r1 = write_u8(dst, offset, self.in_stack);
        let r2 = write_u8(dst, offset, self.index);
        proof {
            assert(dst@ =~= spec_store(pre, start, spec_upvalue_bytes(self)));
        }
        Ok(2)
    }
}

/// Reads `n` consecutive upvalue descriptors.
#[verifier::loop_isolation(false)]
pub fn read_upvalue_list(src: &[u8], offset: usize, n: usize, ctx: CommonCtx) -> (r: Result<
    (Vec<Upvalue>, usize),
    CodecError,
>)
    requires
        offset <= src@.len(),
    ensures
        ({
            let s = crate::codec::spec_read_list(
                offset as int,
                n as nat,
                |p: int| spec_read_upvalue(src@, p),
                Seq::<Upvalue>::empty(),
            );
            match r {
                Ok((v, m)) => s == Ok::<(Seq<Upvalue>, int), CodecError>((v@, m as int)) && offset
                    <= m <= src@.len() && v@.len() == n,
                Err(err) => s == Err::<(Seq<Upvalue>, int), CodecError>(err),
            }
        }),
{
    let ghost f = |p: int| spec_read_upvalue(src@, p);
    let mut out: Vec<Upvalue> = Vec::new();
    let mut pos: usize = offset;
    let mut i: usize = 0;
    while i < n
        invariant
            0 <= i <= n,
            offset <= pos <= src@.len(),
            out@.len() == i,
            crate::codec::spec_read_list(pos as int, (n - i) as nat, f, out@)
                == crate::codec::spec_read_list(
                offset as int,
                n as nat,
                f,
                Seq::<Upvalue>::empty(),
            ),
        decreases n - i,
    {
        match Upvalue::read(src, pos, ctx) {
            Ok((x, q)) => {
                out.push(x);
                pos = q;
                i = i + 1;
            },
            Err(err) => {
                return Err(err);
            },
        }
    }
    Ok((out, pos))
}

} // verus!
