//! The three incompatible length-prefixed string encodings used across the
//! Lua 5.x dump formats, exposed through one logical string type so that
//! downstream codecs never branch on version when consuming a string.
//!
//! * 5.1/5.2: a `size_t`-wide signed length, then that many bytes of
//!   content of which the last is a trailing zero not counted in the
//!   visible string; length zero encodes an absent name.
//! * 5.3: a single length byte; `0xFF` is a sentinel meaning "use the
//!   5.1-style long encoding that follows"; zero means absent; otherwise
//!   the byte is the content length plus one.
//! * 5.4: a most-significant-first size varint; zero means absent;
//!   otherwise the value is the content length plus one.

use vstd::prelude::*;
use vstd::slice::slice_to_vec;
use vstd::slice::slice_subrange;
use crate::CommonCtx;
use crate::error::CodecError;
use crate::reader::read_i32;
use crate::reader::read_i64;
use crate::reader::read_u8;
use crate::reader::spec_read_i32;
use crate::reader::spec_read_i64;
use crate::reader::spec_read_u8;
use crate::reader::lemma_store_append;
use crate::reader::spec_store;
use crate::reader::spec_u32_bytes;
use crate::reader::spec_u32_of_i32;
use crate::reader::spec_u64_bytes;
use crate::reader::spec_u64_of_i64;
use crate::reader::write_bytes;
use crate::reader::write_u32;
use crate::reader::write_u64;
use crate::reader::write_u8;
use crate::unsigned::LuaUnsigned;
use crate::unsigned::lemma_read_unsigned_bounds;
use crate::unsigned::spec_read_unsigned;

verus! {

/// The mathematical shape of a decoded string: the declared size field and
/// the visible content bytes.
pub struct StringView {
    pub size: nat,
    pub data: Seq<u8>,
}

impl StringView {
    /// A size of zero encodes an absent string and carries no content;
    /// otherwise the declared size exceeds the content length by one, for
    /// the trailing zero (5.1/5.2) or the `+ 1` bias (5.3/5.4).
    pub open spec fn wf(self) -> bool {
        if self.size == 0 {
            self.data.len() == 0
        } else {
            self.data.len() == self.size - 1
        }
    }

    /// The absent string.
    pub open spec fn absent() -> StringView {
        StringView { size: 0, data: Seq::empty() }
    }
}

/// A decoded Lua string: the declared size field from the wire, and the
/// visible content, copied out of the source buffer.
#[derive(Debug, Clone)]
pub struct LuaString {
    pub size: usize,
    pub data: Vec<u8>,
}

impl View for LuaString {
    type V = StringView;

    open spec fn view(&self) -> StringView {
        StringView { size: self.size as nat, data: self.data@ }
    }
}

impl PartialEq for LuaString {
    fn eq(&self, other: &Self) -> (r: bool) {
        let size_eq = self.size == other.size;
        let data_eq = self.data == other.data;
        proof {
            broadcast use vstd::laws_eq::group_laws_eq;
            broadcast use vstd::std_specs::vec::lemma_vec_obeys_view_eq;

            assert(vstd::laws_eq::obeys_concrete_eq::<u8>());
            assert(vstd::laws_eq::obeys_view_eq::<Vec<u8>>());
            reveal(vstd::laws_eq::obeys_view_eq);
        }
        size_eq && data_eq
    }
}

impl Eq for LuaString {

}

impl vstd::std_specs::cmp::PartialEqSpecImpl for LuaString {
    open spec fn obeys_eq_spec() -> bool {
        true
    }

    open spec fn eq_spec(&self, other: &Self) -> bool {
        self.size == other.size && self.data@ == other.data@
    }
}

/// What reading a 5.1/5.2-style string at `pos` yields: a `size_t`-wide
/// signed length, the content, and a trailing zero byte that is consumed
/// but not part of the content.
pub open spec fn spec_read_string51(b: Seq<u8>, pos: int, ctx: CommonCtx) -> Result<
    (StringView, int),
    CodecError,
> {
    let width = ctx.size_of_size_t;
    if width != 4 && width != 8 {
        Err(CodecError::InvalidTag)
    } else {
        let ln_read = if width == 4 {
            match spec_read_i32(b, pos, ctx.endianness) {
                Ok((x, n)) => Ok((x as int, n)),
                Err(e) => Err(e),
            }
        } else {
            match spec_read_i64(b, pos, ctx.endianness) {
                Ok((x, n)) => Ok((x as int, n)),
                Err(e) => Err(e),
            }
        };
        match ln_read {
            Ok((ln, p1)) => {
                if ln < 0 || ln > usize::MAX {
                    Err(CodecError::Truncated)
                } else if ln == 0 {
                    Ok((StringView::absent(), p1))
                } else if p1 + ln <= b.len() {
                    Ok((StringView { size: ln as nat, data: b.subrange(p1, p1 + ln - 1) }, p1 + ln))
                } else {
                    Err(CodecError::Truncated)
                }
            },
            Err(e) => Err(e),
        }
    }
}

/// What reading a 5.3-style string at `pos` yields: one length byte, with
/// `0xFF` escaping to the 5.1-style long encoding.
pub open spec fn spec_read_string53(b: Seq<u8>, pos: int, ctx: CommonCtx) -> Result<
    (StringView, int),
    CodecError,
> {
    match spec_read_u8(b, pos) {
        Ok((k, p1)) => {
            if k == 0xFF {
                spec_read_string51(b, p1, ctx)
            } else if k == 0 {
                Ok((StringView::absent(), p1))
            } else if p1 + (k - 1) <= b.len() {
                Ok((StringView { size: k as nat, data: b.subrange(p1, p1 + k - 1) }, p1 + k - 1))
            } else {
                Err(CodecError::Truncated)
            }
        },
        Err(e) => Err(e),
    }
}

/// What reading a 5.4-style string at `pos` yields: a size varint, zero
/// meaning absent, otherwise the content length plus one.
pub open spec fn spec_read_string54(b: Seq<u8>, pos: int) -> Result<(StringView, int), CodecError> {
    match spec_read_unsigned(b, pos) {
        Ok((k, p1)) => {
            if k == 0 {
                Ok((StringView::absent(), p1))
            } else if p1 + (k - 1) <= b.len() {
                Ok((StringView { size: k as nat, data: b.subrange(p1, p1 + k - 1) }, p1 + k - 1))
            } else {
                Err(CodecError::Truncated)
            }
        },
        Err(e) => Err(e),
    }
}

/// What reading a string at `pos` yields under the given context: the
/// version in the context selects the encoding.
pub open spec fn spec_read_string(b: Seq<u8>, pos: int, ctx: CommonCtx) -> Result<
    (StringView, int),
    CodecError,
> {
    let v = ctx.lua_version;
    if v.major == 5 && (v.minor == 1 || v.minor == 2) {
        spec_read_string51(b, pos, ctx)
    } else if v.major == 5 && v.minor == 3 {
        spec_read_string53(b, pos, ctx)
    } else if v.major == 5 && v.minor == 4 {
        spec_read_string54(b, pos)
    } else {
        Err(CodecError::UnsupportedVersion)
    }
}

/// Every string the decoders produce is well formed, whichever encoding
/// produced it.
pub proof fn lemma_read_string_wf(b: Seq<u8>, pos: int, ctx: CommonCtx)
    requires
        0 <= pos,
    ensures
        spec_read_string(b, pos, ctx) matches Ok((s, n)) ==> s.wf(),
        spec_read_string51(b, pos, ctx) matches Ok((s, n)) ==> s.wf(),
        spec_read_string53(b, pos, ctx) matches Ok((s, n)) ==> s.wf(),
        spec_read_string54(b, pos) matches Ok((s, n)) ==> s.wf(),
{
    match spec_read_string51(b, pos, ctx) {
        Ok((s, n)) => {
            assert(s.wf());
        },
        Err(e) => {
        },
    }
    match spec_read_string53(b, pos, ctx) {
        Ok((s, n)) => {
            if 0 <= pos < b.len() && b[pos] == 0xFF {
                match spec_read_string51(b, pos + 1, ctx) {
                    Ok((s2, n2)) => {
                        assert(s2.wf());
                    },
                    Err(e) => {
                    },
                }
            }
            assert(s.wf());
        },
        Err(e) => {
        },
    }
    match spec_read_string54(b, pos) {
        Ok((s, n)) => {
            lemma_read_unsigned_bounds(b, pos, 0);
            assert(s.wf());
        },
        Err(e) => {
        },
    }
}

/// In the 5.1/5.2 encoding, the visible content is one byte shorter than
/// the declared length: the trailing zero is excluded.
pub proof fn lemma_string51_content_len(b: Seq<u8>, pos: int, ctx: CommonCtx, s: StringView, n: int)
    requires
        0 <= pos,
        spec_read_string51(b, pos, ctx) == Ok::<(StringView, int), CodecError>((s, n)),
        s.size > 0,
    ensures
        s.data.len() == s.size - 1,
{
}

/// In the 5.3 encoding, a length byte of `0xFF` triggers the long-string
/// fallback: the rest is read exactly as a 5.1-style string.
pub proof fn lemma_string53_long_fallback(b: Seq<u8>, pos: int, ctx: CommonCtx)
    requires
        0 <= pos < b.len(),
        b[pos] == 0xFF,
    ensures
        spec_read_string53(b, pos, ctx) == spec_read_string51(b, pos + 1, ctx),
{
}

/// In the 5.4 encoding, a declared length of zero yields the absent
/// string, not an empty one-byte string.
pub proof fn lemma_string54_absent(b: Seq<u8>, pos: int, k: usize, p1: int)
    requires
        spec_read_unsigned(b, pos) == Ok::<(usize, int), CodecError>((k, p1)),
        k == 0,
    ensures
        spec_read_string54(b, pos) == Ok::<(StringView, int), CodecError>(
            (StringView::absent(), p1),
        ),
{
}

impl LuaString {
    /// Builds a string value from plain content, declaring the size the
    /// wire would use for it.
    pub fn from_bytes(data: Vec<u8>) -> (r: LuaString)
        requires
            data@.len() < usize::MAX,
        ensures
            r@.data == data@,
            r@.wf(),
            r@.size == (if data@.len() == 0 {
                0int
            } else {
                data@.len() + 1int
            }),
    {
        let size: usize = if data.len() == 0 {
            0
        } else {
            data.len() + 1
        };
        LuaString { size, data }
    }

    /// Read a Lua 5.1/5.2 string.
    pub fn read_lua51_string(src: &[u8], offset: usize, ctx: CommonCtx) -> (r: Result<
        (LuaString, usize),
        CodecError,
    >)
        ensures
            match r {
                Ok((s, n)) => spec_read_string51(src@, offset as int, ctx) == Ok::<
                    (StringView, int),
                    CodecError,
                >((s@, n as int)) && s@.wf() && offset <= n <= src@.len(),
                Err(e) => spec_read_string51(src@, offset as int, ctx) == Err::<
                    (StringView, int),
                    CodecError,
                >(e),
            },
    {
        let width = ctx.size_of_size_t;
        if width != 4 && width != 8 {
            return Err(CodecError::InvalidTag);
        }
        let ln_read: Result<(i64, usize), CodecError> = if width == 4 {
            match read_i32(src, offset, ctx.endianness) {
                Ok((x, n)) => Ok((x as i64, n)),
                Err(e) => Err(e),
            }
        } else {
            read_i64(src, offset, ctx.endianness)
        };
        match ln_read {
            Ok((ln, p1)) => {
                if ln < 0 || (ln as u64) > (usize::MAX as u64) {
                    Err(CodecError::Truncated)
                } else if ln == 0 {
                    Ok((LuaString { size: 0, data: Vec::new() }, p1))
                } else {
                    let lnu: usize = ln as usize;
                    if p1 <= src.len() && src.len() - p1 >= lnu {
                        let data = slice_to_vec(slice_subrange(src, p1, p1 + lnu - 1));
                        Ok((LuaString { size: lnu, data }, p1 + lnu))
                    } else {
                        Err(CodecError::Truncated)
                    }
                }
            },
            Err(e) => Err(e),
        }
    }

    /// Read a Lua 5.3 string: a one-byte length, `0xFF` escaping to the
    /// long form.
    pub fn read_lua53_string(src: &[u8], offset: usize, ctx: CommonCtx) -> (r: Result<
        (LuaString, usize),
        CodecError,
    >)
        ensures
            match r {
                Ok((s, n)) => spec_read_string53(src@, offset as int, ctx) == Ok::<
                    (StringView, int),
                    CodecError,
                >((s@, n as int)) && s@.wf() && offset <= n <= src@.len(),
                Err(e) => spec_read_string53(src@, offset as int, ctx) == Err::<
                    (StringView, int),
                    CodecError,
                >(e),
            },
    {
        match read_u8(src, offset) {
            Ok((k, p1)) => {
                if k == 0xFF {
                    Self::read_lua51_string(src, p1, ctx)
                } else if k == 0 {
                    Ok((LuaString { size: 0, data: Vec::new() }, p1))
                } else {
                    let lnu: usize = (k - 1) as usize;
                    if p1 <= src.len() && src.len() - p1 >= lnu {
                        let data = slice_to_vec(slice_subrange(src, p1, p1 + lnu));
                        Ok((LuaString { size: k as usize, data }, p1 + lnu))
                    } else {
                        Err(CodecError::Truncated)
                    }
                }
            },
            Err(e) => Err(e),
        }
    }

    /// Read a Lua 5.4 string: a size varint, zero meaning absent.
    pub fn read_lua54_string(src: &[u8], offset: usize) -> (r: Result<
        (LuaString, usize),
        CodecError,
    >)
        ensures
            match r {
                Ok((s, n)) => spec_read_string54(src@, offset as int) == Ok::<
                    (StringView, int),
                    CodecError,
                >((s@, n as int)) && s@.wf() && offset <= n <= src@.len(),
                Err(e) => spec_read_string54(src@, offset as int) == Err::<
                    (StringView, int),
                    CodecError,
                >(e),
            },
    {
        match LuaUnsigned::decode(src, offset) {
            Ok((k, p1)) => {
                if k.value == 0 {
                    Ok((LuaString { size: 0, data: Vec::new() }, p1))
                } else {
                    let lnu: usize = k.value - 1;
                    if p1 <= src.len() && src.len() - p1 >= lnu {
                        let data = slice_to_vec(slice_subrange(src, p1, p1 + lnu));
                        Ok((LuaString { size: k.value, data }, p1 + lnu))
                    } else {
                        Err(CodecError::Truncated)
                    }
                }
            },
            Err(e) => Err(e),
        }
    }

    /// Read a string in whichever encoding the context's version selects.
    pub fn read(src: &[u8], offset: usize, ctx: CommonCtx) -> (r: Result<
        (LuaString, usize),
        CodecError,
    >)
        ensures
            match r {
                Ok((s, n)) => spec_read_string(src@, offset as int, ctx) == Ok::<
                    (StringView, int),
                    CodecError,
                >((s@, n as int)) && s@.wf() && offset <= n <= src@.len(),
                Err(e) => spec_read_string(src@, offset as int, ctx) == Err::<
                    (StringView, int),
                    CodecError,
                >(e),
            },
    {
        let (major, minor) = ctx.lua_version.into_tuple();
        if major == 5 && (minor == 1 || minor == 2) {
            Self::read_lua51_string(src, offset, ctx)
        } else if major == 5 && minor == 3 {
            Self::read_lua53_string(src, offset, ctx)
        } else if major == 5 && minor == 4 {
            Self::read_lua54_string(src, offset)
        } else {
            Err(CodecError::UnsupportedVersion)
        }
    }
}

/// The shapes of a sequence of strings, in order.
pub open spec fn string_views(s: Seq<LuaString>) -> Seq<StringView>
    decreases s, s.len(),
{
    if s.len() == 0 {
        Seq::empty()
    } else {
        string_views(s.drop_last()).push(s.last()@)
    }
}

/// Appending a string appends its shape.
pub proof fn lemma_string_views_push(s: Seq<LuaString>, x: LuaString)
    ensures
        string_views(s.push(x)) == string_views(s).push(x@),
{
    assert(s.push(x).drop_last() =~= s);
    assert(s.push(x).last() == x);
}

/// The 5.1/5.2 wire form of a string: the `size_t`-wide length, then for a
/// present string its content and the trailing zero.
pub open spec fn spec_string51_bytes(s: StringView, ctx: CommonCtx) -> Seq<u8>
    recommends
        s.wf(),
        ctx.size_of_size_t == 4 || ctx.size_of_size_t == 8,
{
    let ln_bytes = if ctx.size_of_size_t == 4 {
        spec_u32_bytes(spec_u32_of_i32(s.size as i32), ctx.endianness)
    } else {
        spec_u64_bytes(spec_u64_of_i64(s.size as i64), ctx.endianness)
    };
    if s.size == 0 {
        ln_bytes
    } else {
        ln_bytes + s.data + seq![0u8]
    }
}

/// Whether a string can be written in the 5.1/5.2 encoding under the
/// given context: the `size_t` width must be a valid one and the
/// declared size must fit it.
pub open spec fn spec_string51_writable(s: StringView, ctx: CommonCtx) -> bool {
    &&& (ctx.size_of_size_t == 4 || ctx.size_of_size_t == 8)
    &&& (if ctx.size_of_size_t == 4 {
        s.size <= i32::MAX
    } else {
        s.size <= i64::MAX
    })
}

/// The 5.1/5.2 wire form of a sequence of strings, in order.
pub open spec fn spec_strings51_bytes(s: Seq<StringView>, ctx: CommonCtx) -> Seq<u8>
    decreases s, s.len(),
{
    if s.len() == 0 {
        Seq::empty()
    } else {
        spec_strings51_bytes(s.drop_last(), ctx) + spec_string51_bytes(s.last(), ctx)
    }
}

impl LuaString {
    /// Write a Lua 5.1/5.2 string: its declared length at the context's
    /// `size_t` width, then content and trailing zero for a present
    /// string.  Fails, leaving the buffer untouched, when the context
    /// width is not a valid one, the length does not fit that width, or
    /// the buffer has no room.
    pub fn write_lua51_string(&self, dst: &mut [u8], offset: &mut usize, ctx: CommonCtx) -> (r:
        Result<(), CodecError>)
        requires
            self@.wf(),
        ensures
            match r {
                Ok(()) => {
                    &&& (ctx.size_of_size_t == 4 || ctx.size_of_size_t == 8)
                    &&& *final(offset) == *old(offset) + spec_string51_bytes(self@, ctx).len()
                    &&& final(dst)@ == spec_store(
                        old(dst)@,
                        *old(offset) as int,
                        spec_string51_bytes(self@, ctx),
                    )
                },
                Err(e) => {
                    &&& *final(offset) == *old(offset)
                    &&& final(dst)@ == old(dst)@
                    &&& (e == CodecError::InvalidTag || e == CodecError::Truncated)
                },
            },
            ({
                let width_ok = ctx.size_of_size_t == 4 || ctx.size_of_size_t == 8;
                let size_ok = if ctx.size_of_size_t == 4 {
                    self@.size <= i32::MAX
                } else {
                    self@.size <= i64::MAX
                };
                r is Ok <==> width_ok && size_ok && *old(offset) + spec_string51_bytes(
                    self@,
                    ctx,
                ).len() <= old(dst)@.len()
            }),
    {
        let width = ctx.size_of_size_t;
        if width != 4 && width != 8 {
            return Err(CodecError::InvalidTag);
        }
        if width == 4 && self.size > (i32::MAX as usize) {
            return Err(CodecError::Truncated);
        }
        if width == 8 && (self.size as u64) > (i64::MAX as u64) {
            return Err(CodecError::Truncated);
        }
        if *offset > dst.len() {
            return Err(CodecError::Truncated);
        }
        let avail: usize = dst.len() - *offset;
        if avail < (width as usize) {
            return Err(CodecError::Truncated);
        }
        if self.size > 0 && self.size > avail - (width as usize) {
            return Err(CodecError::Truncated);
        }
        let ghost pre = dst@;
        let ghost start = *offset as int;
        let ghost ln_bytes = if width == 4 {
            spec_u32_bytes(spec_u32_of_i32(self@.size as i32), ctx.endianness)
        } else {
            spec_u64_bytes(spec_u64_of_i64(self@.size as i64), ctx.endianness)
        };
        if width == 4 {
            let r = write_u32(dst, offset, self.size as u32, ctx.endianness);
            proof {
                let sz = self.size;
                assert(sz <= i32::MAX ==> sz as u32 == spec_u32_of_i32(sz as i32));
            }
        } else {
            let r = write_u64(dst, offset, self.size as u64, ctx.endianness);
            proof {
                let sz = self.size;
                assert(sz as u64 <= i64::MAX ==> sz as u64 == spec_u64_of_i64(sz as i64));
            }
        }
        proof {
            assert(dst@ == spec_store(pre, start, ln_bytes));
        }
        if self.size > 0 {
            let ghost mid = dst@;
            let r1 = write_bytes(dst, offset, self.data.as_slice());
            let r2 = write_u8(dst, offset, 0);
            proof {
                lemma_store_append(mid, start + ln_bytes.len(), self@.data, seq![0u8]);
                lemma_store_append(pre, start, ln_bytes, self@.data + seq![0u8]);
                assert(ln_bytes + (self@.data + seq![0u8]) =~= spec_string51_bytes(self@, ctx));
            }
        }
        proof {
            assert(dst@ == spec_store(pre, start, spec_string51_bytes(self@, ctx)));
        }
        Ok(())
    }

    /// Write a Lua 5.3 string.  The short-versus-long tag choice for 5.3
    /// has no write support yet; this reports that rather than guessing.
    pub fn write_lua53_string(&self, dst: &mut [u8], offset: &mut usize, _ctx: CommonCtx) -> (r:
        Result<(), CodecError>)
        ensures
            r == Err::<(), CodecError>(CodecError::Unimplemented),
            *final(offset) == *old(offset),
            final(dst)@ == old(dst)@,
    {
        Err(CodecError::Unimplemented)
    }

    /// Write a Lua 5.4 string.  Not yet supported; this reports that
    /// rather than guessing.
    pub fn write_lua54_string(&self, dst: &mut [u8], offset: &mut usize, _ctx: CommonCtx) -> (r:
        Result<(), CodecError>)
        ensures
            r == Err::<(), CodecError>(CodecError::Unimplemented),
            *final(offset) == *old(offset),
            final(dst)@ == old(dst)@,
    {
        Err(CodecError::Unimplemented)
    }
}

/// The encoded strings of a prefix never outrun those of the whole
/// sequence.
pub proof fn lemma_strings51_bytes_prefix_len(s: Seq<StringView>, ctx: CommonCtx, i: int)
    requires
        0 <= i <= s.len(),
    ensures
        spec_strings51_bytes(s.take(i), ctx).len() <= spec_strings51_bytes(s, ctx).len(),
    decreases s.len() - i,
{
    if i == s.len() {
        assert(s.take(i) =~= s);
    } else {
        assert(s.take(i + 1).drop_last() =~= s.take(i));
        assert(s.take(i + 1).last() == s[i]);
        lemma_strings51_bytes_prefix_len(s, ctx, i + 1);
    }
}

/// Writes a sequence of strings in the 5.1/5.2 encoding at the cursor.
/// On failure the cursor stops at the string that did not fit or was not
/// writable; the strings before it stay written.
#[verifier::loop_isolation(false)]
pub fn write_string51_list(dst: &mut [u8], offset: &mut usize, items: &Vec<LuaString>, ctx:
    CommonCtx) -> (r: Result<(), CodecError>)
    requires
        forall|j: int| 0 <= j < items@.len() ==> (#[trigger] items@[j])@.wf(),
    ensures
        r is Ok <==> (forall|j: int|
            0 <= j < items@.len() ==> spec_string51_writable(#[trigger] items@[j]@, ctx)) && *old(
            offset,
        ) + spec_strings51_bytes(string_views(items@), ctx).len() <= old(dst)@.len(),
        r is Ok ==> {
            &&& *final(offset) == *old(offset) + spec_strings51_bytes(
                string_views(items@),
                ctx,
            ).len()
            &&& final(dst)@ == spec_store(
                old(dst)@,
                *old(offset) as int,
                spec_strings51_bytes(string_views(items@), ctx),
            )
        },
        r is Err ==> (r == Err::<(), CodecError>(CodecError::Truncated) || r == Err::<
            (),
            CodecError,
        >(CodecError::InvalidTag)) && final(dst)@.len() == old(dst)@.len(),
{
    let ghost views = string_views(items@);
    proof {
        lemma_string_views_len(items@);
    }
    if *offset > dst.len() {
        proof {
            lemma_strings51_bytes_prefix_len(views, ctx, 0);
        }
        return Err(CodecError::Truncated);
    }
    let ghost pre = dst@;
    let ghost start = *offset as int;
    let mut i: usize = 0;
    proof {
        assert(views.take(0) =~= string_views(items@.take(0)));
        assert(spec_store(pre, start, spec_strings51_bytes(views.take(0), ctx)) =~= pre);
    }
    while i < items.len()
        invariant
            0 <= i <= items@.len(),
            *offset as int == start + spec_strings51_bytes(views.take(i as int), ctx).len(),
            start + spec_strings51_bytes(views.take(i as int), ctx).len() <= dst@.len(),
            dst@.len() == pre.len(),
            dst@ == spec_store(pre, start, spec_strings51_bytes(views.take(i as int), ctx)),
            forall|j: int| 0 <= j < i ==> spec_string51_writable(#[trigger] views[j], ctx),
        decreases items@.len() - i,
    {
        let item = vstd::slice::slice_index_get(items.as_slice(), i);
        let ghost prev_bytes = spec_strings51_bytes(views.take(i as int), ctx);
        match item.write_lua51_string(dst, offset, ctx) {
            Ok(()) => {
                proof {
                    lemma_store_append(pre, start, prev_bytes, spec_string51_bytes(
                        views[i as int],
                        ctx,
                    ));
                    assert(views.take(i + 1).drop_last() =~= views.take(i as int));
                    assert(views.take(i + 1).last() == views[i as int]);
                }
                i = i + 1;
            },
            Err(e) => {
                proof {
                    if (forall|j: int|
                        0 <= j < items@.len() ==> spec_string51_writable(
                            #[trigger] items@[j]@,
                            ctx,
                        )) && start + spec_strings51_bytes(views, ctx).len() <= pre.len() {
                        assert(spec_string51_writable(items@[i as int]@, ctx));
                        assert(item@ == views[i as int]);
                        assert(views.take(i + 1).drop_last() =~= views.take(i as int));
                        assert(views.take(i + 1).last() == views[i as int]);
                        assert(spec_strings51_bytes(views.take(i + 1), ctx)
                            == spec_strings51_bytes(views.take(i as int), ctx)
                            + spec_string51_bytes(views[i as int], ctx));
                        lemma_strings51_bytes_prefix_len(views, ctx, i + 1);
                        assert(start + spec_strings51_bytes(views.take(i as int), ctx).len()
                            + spec_string51_bytes(views[i as int], ctx).len() <= pre.len());
                        assert(false);
                    }
                }
                return Err(e);
            },
        }
    }
    proof {
        assert(views.take(items@.len() as int) =~= views);
    }
    Ok(())
}

/// A sequence's shapes are index for index its members' shapes.
pub proof fn lemma_string_views_len(s: Seq<LuaString>)
    ensures
        string_views(s).len() == s.len(),
        forall|j: int|
            #![trigger string_views(s)[j]]
            #![trigger s[j]]
            0 <= j < s.len() ==> string_views(s)[j] == s[j]@,
    decreases s.len(),
{
    if s.len() > 0 {
        lemma_string_views_len(s.drop_last());
        assert(forall|j: int|
            0 <= j < s.len() - 1 ==> (#[trigger] string_views(s.drop_last())[j]) == string_views(
                s,
            )[j] && s.drop_last()[j] == s[j]);
    }
}

} // verus!
