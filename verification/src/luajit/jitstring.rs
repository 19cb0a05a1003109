//! The string type for LuaJIT bytecode: a ULEB128 value carries the
//! string's type tag and length together, biased by the string type
//! constant, and the content bytes follow.

use vstd::prelude::*;
use vstd::slice::slice_to_vec;
use vstd::slice::slice_subrange;
use crate::error::CodecError;
use vstd::string::StringSliceAdditionalSpecFns;
use crate::leb128::spec_read_uleb;
use crate::leb128::Uleb128;

verus! {

/// The type identifier a string's length field is biased by: a combined
/// value below it names some other constant type, not a string.
pub const BCDUMP_STR_TYPE: u64 = 5;

/// The mathematical shape of a decoded string: its length and content.
pub struct JitView {
    pub size: nat,
    pub data: Seq<u8>,
}

impl JitView {
    /// The declared size always equals the content length.
    pub open spec fn wf(self) -> bool {
        self.size == self.data.len()
    }
}

/// A decoded LuaJIT string: the content length and the content bytes,
/// copied out of the source buffer.
#[derive(Debug, Clone)]
pub struct JitString {
    pub size: usize,
    pub data: Vec<u8>,
}

impl View for JitString {
    type V = JitView;

    open spec fn view(&self) -> JitView {
        JitView { size: self.size as nat, data: self.data@ }
    }
}

impl PartialEq for JitString {
    fn eq(&self, other: &Self) -> (r: bool) {
        let size_eq = self.size == other.size;
        let data_eq = self.data == other.data;
        proof {
            broadcast use vstd::laws_eq::group_laws_eq;
            broadcast use vstd::std_specs::vec::lemma_vec_obeys_view_eq;

            assert(vstd::laws_eq::obeys_concrete_eq::<u8>());
            assert(vstd::laws_eq::obeys_view_eq::<Vec<u8>>());
            reveal(vstd::laws_eq::obeys_view_eq);
        }
        size_eq && data_eq
    }
}

impl Eq for JitString {

}

impl vstd::std_specs::cmp::PartialEqSpecImpl for JitString {
    open spec fn obeys_eq_spec() -> bool {
        true
    }

    open spec fn eq_spec(&self, other: &Self) -> bool {
        self.size == other.size && self.data@ == other.data@
    }
}

/// What reading a LuaJIT string at `pos` yields: the combined
/// type-and-length value, rejected as an invalid tag when it lies below
/// the string type constant, then the content bytes.
pub open spec fn spec_read_jitstring(b: Seq<u8>, pos: int) -> Result<(JitView, int), CodecError> {
    match spec_read_uleb(b, pos) {
        Err(e) => Err(e),
        Ok((tl, p1)) => {
            if tl < BCDUMP_STR_TYPE {
                Err(CodecError::InvalidTag)
            } else {
                let ln = tl - BCDUMP_STR_TYPE;
                if ln > usize::MAX {
                    Err(CodecError::Truncated)
                } else if p1 + ln <= b.len() {
                    Ok((JitView { size: ln as nat, data: b.subrange(p1, p1 + ln) }, p1 + ln))
                } else {
                    Err(CodecError::Truncated)
                }
            }
        },
    }
}

impl JitString {
    /// Create a new string value from a string slice.
    pub fn new(data: &str) -> (r: Self)
        ensures
            r@.data == data.spec_bytes(),
            r@.size == data.spec_bytes().len(),
            r@.wf(),
    {
        let bytes = data.as_bytes();
        Self { size: bytes.len(), data: slice_to_vec(bytes) }
    }

    /// Create an empty string value.
    pub fn empty() -> (r: Self)
        ensures
            r@.size == 0,
            r@.data.len() == 0,
            r@.wf(),
    {
        Self { size: 0, data: Vec::new() }
    }

    /// Reads a string at `offset`, returning it with the position after
    /// its content.
    pub fn read(src: &[u8], offset: usize) -> (r: Result<(JitString, usize), CodecError>)
        ensures
            match r {
                Ok((s, n)) => spec_read_jitstring(src@, offset as int) == Ok::<
                    (JitView, int),
                    CodecError,
                >((s@, n as int)) && s@.wf() && offset <= n <= src@.len(),
                Err(e) => spec_read_jitstring(src@, offset as int) == Err::<
                    (JitView, int),
                    CodecError,
                >(e),
            },
    {
        let (tl, p1) = match Uleb128::decode(src, offset) {
            Ok((u, n)) => (u.value(), n),
            Err(e) => {
                return Err(e);
            },
        };
        if tl < BCDUMP_STR_TYPE {
            return Err(CodecError::InvalidTag);
        }
        let ln64: u64 = tl - BCDUMP_STR_TYPE;
        if ln64 > (usize::MAX as u64) {
            return Err(CodecError::Truncated);
        }
        let ln: usize = ln64 as usize;
        if p1 <= src.len() && src.len() - p1 >= ln {
            let data = slice_to_vec(slice_subrange(src, p1, p1 + ln));
            Ok((JitString { size: ln, data }, p1 + ln))
        } else {
            Err(CodecError::Truncated)
        }
    }
}

} // verus!
