//! Decoder (and partial re-encoder) for the binary chunk format produced by
//! the reference Lua compilers, versions 5.1 through 5.4, together with a
//! separate codec for the LuaJIT v2 bytecode variant.
//!
//! A chunk is decoded from an in-memory byte buffer into a tree: a `Header`
//! followed by the root `Prototype`, which owns its instructions, constants,
//! upvalues, nested prototypes and debug information.  Every decoder is
//! specified against a mathematical reading of the wire format and verified
//! against it.

use vstd::prelude::*;

pub mod error;
pub mod types;
pub mod disassembler;
pub mod reader;
pub mod leb128;
pub mod unsigned;
pub mod string;
pub mod array;
pub mod pack;
pub mod codec;
pub mod lua51;
pub mod lua52;
pub mod lua53;
pub mod lua54;
pub mod luajit;
pub mod truncation;

verus! {

/// A Lua version number, as decoded from the one-byte version tag of a
/// chunk header: the high nibble is the major version, the low nibble the
/// minor version.
#[derive(Debug, Copy, Clone, PartialEq, Eq, Structural)]
pub struct Version {
    pub major: u8,
    pub minor: u8,
}

/// Byte order used for the multi-byte scalar fields of a chunk.
#[derive(Debug, Copy, Clone, PartialEq, Eq, Structural)]
pub enum Endianness {
    Little,
    Big,
}

/// A common context threaded through every read and write of a chunk.
///
/// It is created once from the header and copied, never mutated, into every
/// nested call; it is the single piece of ambient configuration that every
/// version-dependent decode decision consults.
#[derive(Debug, Copy, Clone, PartialEq, Eq, Structural)]
pub struct CommonCtx {
    /// The size in bytes of a `size_t` value on the machine that wrote the
    /// chunk, used for string reading in versions 5.1 through 5.3.
    ///
    /// Lua 5.4 removed this field from the wire format; for 5.4 contexts it
    /// carries no meaning.
    pub size_of_size_t: u8,

    /// The version of the Lua compiler that produced the chunk.
    ///
    /// String and array length encodings differ between versions, so this is
    /// required to decide how to read them.
    pub lua_version: Version,

    /// The byte order of the chunk's multi-byte scalar fields.
    pub endianness: Endianness,
}

impl Version {
    /// The version encoded by a one-byte version tag.
    pub open spec fn spec_from_tag(tag: u8) -> Version {
        Version { major: (tag / 16) as u8, minor: (tag % 16) as u8 }
    }

    /// The one-byte version tag that encodes this version.
    pub open spec fn spec_to_tag(self) -> u8
        recommends
            self.major < 16,
            self.minor < 16,
    {
        (16 * self.major + self.minor) as u8
    }

    /// Returns the major and minor version as a tuple.
    ///
    /// Used for easily matching version numbers.
    pub fn into_tuple(self) -> (r: (u8, u8))
        ensures
            r == (self.major, self.minor),
    {
        (self.major, self.minor)
    }

    /// Splits a one-byte version tag into its major and minor nibbles.
    pub fn from_tag(tag: u8) -> (r: Version)
        ensures
            r == Version::spec_from_tag(tag),
            r.major < 16,
            r.minor < 16,
    {
        proof {
            assert(tag >> 4 == tag / 16 && tag & 0xF == tag % 16 && tag / 16 < 16 && tag % 16 < 16)
                by (bit_vector);
        }
        Version { major: tag >> 4, minor: tag & 0xF }
    }

    /// Packs the major and minor version back into a one-byte tag.
    pub fn to_tag(self) -> (r: u8)
        requires
            self.major < 16,
            self.minor < 16,
        ensures
            r == self.spec_to_tag(),
            Version::spec_from_tag(r) == self,
    {
        let r: u8 = self.major * 16 + self.minor;
        proof {
            let m = self.major;
            let n = self.minor;
            assert(m < 16 && n < 16 ==> (16 * m + n) / 16 == m && (16 * m + n) % 16 == n)
                by (bit_vector);
        }
        r
    }
}

/// The version families this crate can decode: the four reference Lua
/// formats and the two LuaJIT variants.
#[derive(Debug, Copy, Clone, PartialEq, Eq, Structural)]
pub enum LuaVersion {
    Lua51,
    Lua52,
    Lua53,
    Lua54,
    Luajitv1,
    Luajitv2,
}

} // verus!
