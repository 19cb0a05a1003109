//! Bit-field packing shared by the Lua 5.1, 5.2 and 5.3 instruction
//! formats, which all use the same 32-bit layout: a 6-bit opcode in the
//! low bits, then an 8-bit A field, a 9-bit C field and a 9-bit B field.
//! The wide Bx field overlays C and B, and the very wide Ax field overlays
//! A, C and B.
//!
//! Signed fields are stored bias-encoded: the wire value is the true value
//! plus half the field's maximum range, never raw two's-complement.

use vstd::prelude::*;

verus! {

/// The operand layouts an opcode can select, across all versions: three
/// small fields; one small and one wide unsigned field; one small and one
/// wide bias-signed field; one very wide field; one bias-signed jump field
/// (5.4 only).
#[derive(Debug, Copy, Clone, PartialEq, Eq, Structural)]
pub enum InstrShape {
    Abc,
    Abx,
    Asbx,
    Ax,
    Sj,
}

/// The opcode field: the low six bits.
pub open spec fn spec_op_of(w: u32) -> u32 {
    w & 0x3f
}

/// The A field: eight bits from bit 6.
pub open spec fn spec_a_of(w: u32) -> u32 {
    (w >> 6) & 0xff
}

/// The C field: nine bits from bit 14.
pub open spec fn spec_c_of(w: u32) -> u32 {
    (w >> 14) & 0x1ff
}

/// The B field: nine bits from bit 23.
pub open spec fn spec_b_of(w: u32) -> u32 {
    (w >> 23) & 0x1ff
}

/// The Bx field: eighteen bits from bit 14, overlaying C and B.
pub open spec fn spec_bx_of(w: u32) -> u32 {
    (w >> 14) & 0x3ffff
}

/// The Ax field: twenty-six bits from bit 6, overlaying A, C and B.
pub open spec fn spec_ax_of(w: u32) -> u32 {
    w >> 6
}

/// Half the Bx field's maximum range: the bias added to sBx on the wire.
pub const MAXARG_SBX: u32 = 0x1ffff;

/// An ABC-shaped word assembled from its fields.
pub open spec fn spec_pack_abc(op: u32, a: u32, b: u32, c: u32) -> u32 {
    op | (a << 6) | (c << 14) | (b << 23)
}

/// An ABx-shaped word assembled from its fields.
pub open spec fn spec_pack_abx(op: u32, a: u32, bx: u32) -> u32 {
    op | (a << 6) | (bx << 14)
}

/// An Ax-shaped word assembled from its fields.
pub open spec fn spec_pack_ax(op: u32, ax: u32) -> u32 {
    op | (ax << 6)
}

/// Every field extractor stays within its field's range.
pub proof fn lemma_fields_in_range(w: u32)
    ensures
        spec_op_of(w) < 64,
        spec_a_of(w) < 256,
        spec_b_of(w) < 512,
        spec_c_of(w) < 512,
        spec_bx_of(w) < 0x40000,
        spec_ax_of(w) < 0x4000000,
{
    assert((w & 0x3f) < 64 && ((w >> 6) & 0xff) < 256 && ((w >> 23) & 0x1ff) < 512 && ((w >> 14)
        & 0x1ff) < 512 && ((w >> 14) & 0x3ffff) < 0x40000 && (w >> 6) < 0x4000000) by (bit_vector);
}

/// Reassembling a word from its extracted fields, in any of the three
/// layouts, yields the word back: the fields cover all 32 bits.
pub proof fn lemma_pack_covers(w: u32)
    ensures
        spec_pack_abc(spec_op_of(w), spec_a_of(w), spec_b_of(w), spec_c_of(w)) == w,
        spec_pack_abx(spec_op_of(w), spec_a_of(w), spec_bx_of(w)) == w,
        spec_pack_ax(spec_op_of(w), spec_ax_of(w)) == w,
{
    assert(((w & 0x3f) | (((w >> 6) & 0xff) << 6) | (((w >> 14) & 0x1ff) << 14) | (((w >> 23)
        & 0x1ff) << 23) == w) && ((w & 0x3f) | (((w >> 6) & 0xff) << 6) | (((w >> 14) & 0x3ffff)
        << 14) == w) && ((w & 0x3f) | ((w >> 6) << 6) == w)) by (bit_vector);
}

/// Extracting the fields of an assembled word recovers them, provided
/// each was within its field's range.
pub proof fn lemma_pack_extracts(op: u32, a: u32, b: u32, c: u32, bx: u32, ax: u32)
    requires
        op < 64,
        a < 256,
        b < 512,
        c < 512,
        bx < 0x40000,
        ax < 0x4000000,
    ensures
        spec_op_of(spec_pack_abc(op, a, b, c)) == op,
        spec_a_of(spec_pack_abc(op, a, b, c)) == a,
        spec_b_of(spec_pack_abc(op, a, b, c)) == b,
        spec_c_of(spec_pack_abc(op, a, b, c)) == c,
        spec_op_of(spec_pack_abx(op, a, bx)) == op,
        spec_a_of(spec_pack_abx(op, a, bx)) == a,
        spec_bx_of(spec_pack_abx(op, a, bx)) == bx,
        spec_op_of(spec_pack_ax(op, ax)) == op,
        spec_ax_of(spec_pack_ax(op, ax)) == ax,
{
    let wabc = spec_pack_abc(op, a, b, c);
    let wabx = spec_pack_abx(op, a, bx);
    let wax = spec_pack_ax(op, ax);
    assert((wabc & 0x3f) == op && ((wabc >> 6) & 0xff) == a && ((wabc >> 23) & 0x1ff) == b && ((
    wabc >> 14) & 0x1ff) == c && (wabx & 0x3f) == op && ((wabx >> 6) & 0xff) == a && ((wabx >> 14)
        & 0x3ffff) == bx && (wax & 0x3f) == op && (wax >> 6) == ax) by (bit_vector)
        requires
            op < 64,
            a < 256,
            b < 512,
            c < 512,
            bx < 0x40000,
            ax < 0x4000000,
            wabc == op | (a << 6) | (c << 14) | (b << 23),
            wabx == op | (a << 6) | (bx << 14),
            wax == op | (ax << 6),
    ;
}

/// The opcode field of a 32-bit word.
pub fn op_of(w: u32) -> (r: u32)
    ensures
        r == spec_op_of(w),
        r < 64,
{
    proof {
        lemma_fields_in_range(w);
    }
    w & 0x3f
}

/// The A field of a 32-bit word.
pub fn a_of(w: u32) -> (r: u32)
    ensures
        r == spec_a_of(w),
        r < 256,
{
    proof {
        lemma_fields_in_range(w);
    }
    (w >> 6) & 0xff
}

/// The C field of a 32-bit word.
pub fn c_of(w: u32) -> (r: u32)
    ensures
        r == spec_c_of(w),
        r < 512,
{
    proof {
        lemma_fields_in_range(w);
    }
    (w >> 14) & 0x1ff
}

/// The B field of a 32-bit word.
pub fn b_of(w: u32) -> (r: u32)
    ensures
        r == spec_b_of(w),
        r < 512,
{
    proof {
        lemma_fields_in_range(w);
    }
    (w >> 23) & 0x1ff
}

/// The Bx field of a 32-bit word.
pub fn bx_of(w: u32) -> (r: u32)
    ensures
        r == spec_bx_of(w),
        r < 0x40000,
{
    proof {
        lemma_fields_in_range(w);
    }
    (w >> 14) & 0x3ffff
}

/// The Ax field of a 32-bit word.
pub fn ax_of(w: u32) -> (r: u32)
    ensures
        r == spec_ax_of(w),
        r < 0x4000000,
{
    proof {
        lemma_fields_in_range(w);
    }
    w >> 6
}

} // verus!
