//! The Lua 5.4 instruction codec: a closed set of 83 opcodes packed into
//! a 32-bit word with a 7-bit opcode, an 8-bit A field, a 1-bit K flag
//! and 8-bit B and C fields.  Besides the shapes of earlier versions, 5.4
//! adds a signed-jump-only shape whose field spans 25 bits.
//!
//! The boolean-load opcodes take no operands beyond A; they decode to a
//! canonical ABC shape with the unused fields zeroed.

use vstd::prelude::*;
use crate::CommonCtx;
use crate::error::CodecError;
use crate::pack::InstrShape;

verus! {

/// Half the Bx field's maximum range in 5.4: the bias added to sBx.
pub const OFFSET_SBX: u32 = 0xffff;

/// Half the sJ field's maximum range: the bias added to a signed jump.
pub const OFFSET_SJ: u32 = 0xffffff;

/// The opcode field: the low seven bits.
pub open spec fn spec_op_of(w: u32) -> u32 {
    w & 0x7f
}

/// The A field: eight bits from bit 7.
pub open spec fn spec_a_of(w: u32) -> u32 {
    (w >> 7) & 0xff
}

/// The K flag: one bit at bit 15.
pub open spec fn spec_k_of(w: u32) -> u32 {
    (w >> 15) & 1
}

/// The B field: eight bits from bit 16.
pub open spec fn spec_b_of(w: u32) -> u32 {
    (w >> 16) & 0xff
}

/// The C field: eight bits from bit 24.
pub open spec fn spec_c_of(w: u32) -> u32 {
    (w >> 24) & 0xff
}

/// The Bx field: seventeen bits from bit 15, overlaying K, B and C.
pub open spec fn spec_bx_of(w: u32) -> u32 {
    (w >> 15) & 0x1ffff
}

/// The Ax field, also used by sJ: twenty-five bits from bit 7.
pub open spec fn spec_ax_of(w: u32) -> u32 {
    w >> 7
}

/// An ABC-shaped word assembled from its fields.
pub open spec fn spec_pack_abc(op: u32, a: u32, b: u32, c: u32, k: u32) -> u32 {
    op | (a << 7) | (k << 15) | (b << 16) | (c << 24)
}

/// An ABx-shaped word assembled from its fields.
pub open spec fn spec_pack_abx(op: u32, a: u32, bx: u32) -> u32 {
    op | (a << 7) | (bx << 15)
}

/// An Ax- or sJ-shaped word assembled from its fields.
pub open spec fn spec_pack_ax(op: u32, ax: u32) -> u32 {
    op | (ax << 7)
}

/// Every field extractor stays within its field's range.
pub proof fn lemma_fields_in_range(w: u32)
    ensures
        spec_op_of(w) < 128,
        spec_a_of(w) < 256,
        spec_k_of(w) < 2,
        spec_b_of(w) < 256,
        spec_c_of(w) < 256,
        spec_bx_of(w) < 0x20000,
        spec_ax_of(w) < 0x2000000,
{
    assert((w & 0x7f) < 128 && ((w >> 7) & 0xff) < 256 && ((w >> 15) & 1) < 2 && ((w >> 16)
        & 0xff) < 256 && ((w >> 24) & 0xff) < 256 && ((w >> 15) & 0x1ffff) < 0x20000 && (w >> 7)
        < 0x2000000) by (bit_vector);
}

/// Reassembling a word from its extracted fields yields the word back.
pub proof fn lemma_pack_covers(w: u32)
    ensures
        spec_pack_abc(spec_op_of(w), spec_a_of(w), spec_b_of(w), spec_c_of(w), spec_k_of(w)) == w,
        spec_pack_abx(spec_op_of(w), spec_a_of(w), spec_bx_of(w)) == w,
        spec_pack_ax(spec_op_of(w), spec_ax_of(w)) == w,
{
    assert(((w & 0x7f) | (((w >> 7) & 0xff) << 7) | (((w >> 15) & 1) << 15) | (((w >> 16) & 0xff)
        << 16) | (((w >> 24) & 0xff) << 24) == w) && ((w & 0x7f) | (((w >> 7) & 0xff) << 7) | (((w
        >> 15) & 0x1ffff) << 15) == w) && ((w & 0x7f) | ((w >> 7) << 7) == w)) by (bit_vector);
}

/// Extracting the fields of an assembled word recovers them, provided
/// each was within its field's range.
pub proof fn lemma_pack_extracts(op: u32, a: u32, b: u32, c: u32, k: u32, bx: u32, ax: u32)
    requires
        op < 128,
        a < 256,
        b < 256,
        c < 256,
        k < 2,
        bx < 0x20000,
        ax < 0x2000000,
    ensures
        spec_op_of(spec_pack_abc(op, a, b, c, k)) == op,
        spec_a_of(spec_pack_abc(op, a, b, c, k)) == a,
        spec_b_of(spec_pack_abc(op, a, b, c, k)) == b,
        spec_c_of(spec_pack_abc(op, a, b, c, k)) == c,
        spec_k_of(spec_pack_abc(op, a, b, c, k)) == k,
        spec_op_of(spec_pack_abx(op, a, bx)) == op,
        spec_a_of(spec_pack_abx(op, a, bx)) == a,
        spec_bx_of(spec_pack_abx(op, a, bx)) == bx,
        spec_op_of(spec_pack_ax(op, ax)) == op,
        spec_ax_of(spec_pack_ax(op, ax)) == ax,
{
    let wabc = spec_pack_abc(op, a, b, c, k);
    let wabx = spec_pack_abx(op, a, bx);
    let wax = spec_pack_ax(op, ax);
    assert((wabc & 0x7f) == op && ((wabc >> 7) & 0xff) == a && ((wabc >> 16) & 0xff) == b && ((
    wabc >> 24) & 0xff) == c && ((wabc >> 15) & 1) == k && (wabx & 0x7f) == op && ((wabx >> 7)
        & 0xff) == a && ((wabx >> 15) & 0x1ffff) == bx && (wax & 0x7f) == op && (wax >> 7) == ax)
        by (bit_vector)
        requires
            op < 128,
            a < 256,
            b < 256,
            c < 256,
            k < 2,
            bx < 0x20000,
            ax < 0x2000000,
            wabc == op | (a << 7) | (k << 15) | (b << 16) | (c << 24),
            wabx == op | (a << 7) | (bx << 15),
            wax == op | (ax << 7),
    ;
}

/// A decoded Lua 5.4 instruction: the ABC shape carries the K flag as a
/// fourth small field.
#[derive(Debug, Copy, Clone, PartialEq, Eq, Structural)]
#[allow(non_camel_case_types)]
pub enum Instruction {
    iABC(Opcode, u8, u8, u8, u8),
    iABx(Opcode, u8, u32),
    iAsBx(Opcode, u8, i32),
    iAx(Opcode, u32),
    isJ(Opcode, i32),
}

/// The closed Lua 5.4 opcode set, in wire order: an opcode's position in
/// this list is its value in the low seven bits of an instruction word.
#[derive(Debug, Copy, Clone, PartialEq, Eq, Structural)]
#[allow(non_camel_case_types)]
pub enum Opcode {
    OP_MOVE,
    OP_LOADI,
    OP_LOADF,
    OP_LOADK,
    OP_LOADKX,
    OP_LOADFALSE,
    OP_LFALSESKIP,
    OP_LOADTRUE,
    OP_LOADNIL,
    OP_GETUPVAL,
    OP_SETUPVAL,
    OP_GETTABUP,
    OP_GETTABLE,
    OP_GETI,
    OP_GETFIELD,
    OP_SETTABUP,
    OP_SETTABLE,
    OP_SETI,
    OP_SETFIELD,
    OP_NEWTABLE,
    OP_SELF,
    OP_ADDI,
    OP_ADDK,
    OP_SUBK,
    OP_MULK,
    OP_MODK,
    OP_POWK,
    OP_DIVK,
    OP_IDIVK,
    OP_BANDK,
    OP_BORK,
    OP_BXORK,
    OP_SHRI,
    OP_SHLI,
    OP_ADD,
    OP_SUB,
    OP_MUL,
    OP_MOD,
    OP_POW,
    OP_DIV,
    OP_IDIV,
    OP_BAND,
    OP_BOR,
    OP_BXOR,
    OP_SHL,
    OP_SHR,
    OP_MMBIN,
    OP_MMBINI,
    OP_MMBINK,
    OP_UNM,
    OP_BNOT,
    OP_NOT,
    OP_LEN,
    OP_CONCAT,
    OP_CLOSE,
    OP_TBC,
    OP_JMP,
    OP_EQ,
    OP_LT,
    OP_LE,
    OP_EQK,
    OP_EQI,
    OP_LTI,
    OP_LEI,
    OP_GTI,
    OP_GEI,
    OP_TEST,
    OP_TESTSET,
    OP_CALL,
    OP_TAILCALL,
    OP_RETURN,
    OP_RETURN0,
    OP_RETURN1,
    OP_FORLOOP,
    OP_FORPREP,
    OP_TFORPREP,
    OP_TFORCALL,
    OP_TFORLOOP,
    OP_SETLIST,
    OP_CLOSURE,
    OP_VARARG,
    OP_VARARGPREP,
    OP_EXTRAARG,
}

/// The wire value of an opcode.
pub open spec fn spec_opcode_value(op: Opcode) -> u8 {
    match op {
        Opcode::OP_MOVE => 0,
        Opcode::OP_LOADI => 1,
        Opcode::OP_LOADF => 2,
        Opcode::OP_LOADK => 3,
        Opcode::OP_LOADKX => 4,
        Opcode::OP_LOADFALSE => 5,
        Opcode::OP_LFALSESKIP => 6,
        Opcode::OP_LOADTRUE => 7,
        Opcode::OP_LOADNIL => 8,
        Opcode::OP_GETUPVAL => 9,
        Opcode::OP_SETUPVAL => 10,
        Opcode::OP_GETTABUP => 11,
        Opcode::OP_GETTABLE => 12,
        Opcode::OP_GETI => 13,
        Opcode::OP_GETFIELD => 14,
        Opcode::OP_SETTABUP => 15,
        Opcode::OP_SETTABLE => 16,
        Opcode::OP_SETI => 17,
        Opcode::OP_SETFIELD => 18,
        Opcode::OP_NEWTABLE => 19,
        Opcode::OP_SELF => 20,
        Opcode::OP_ADDI => 21,
        Opcode::OP_ADDK => 22,
        Opcode::OP_SUBK => 23,
        Opcode::OP_MULK => 24,
        Opcode::OP_MODK => 25,
        Opcode::OP_POWK => 26,
        Opcode::OP_DIVK => 27,
        Opcode::OP_IDIVK => 28,
        Opcode::OP_BANDK => 29,
        Opcode::OP_BORK => 30,
        Opcode::OP_BXORK => 31,
        Opcode::OP_SHRI => 32,
        Opcode::OP_SHLI => 33,
        Opcode::OP_ADD => 34,
        Opcode::OP_SUB => 35,
        Opcode::OP_MUL => 36,
        Opcode::OP_MOD => 37,
        Opcode::OP_POW => 38,
        Opcode::OP_DIV => 39,
        Opcode::OP_IDIV => 40,
        Opcode::OP_BAND => 41,
        Opcode::OP_BOR => 42,
        Opcode::OP_BXOR => 43,
        Opcode::OP_SHL => 44,
        Opcode::OP_SHR => 45,
        Opcode::OP_MMBIN => 46,
        Opcode::OP_MMBINI => 47,
        Opcode::OP_MMBINK => 48,
        Opcode::OP_UNM => 49,
        Opcode::OP_BNOT => 50,
        Opcode::OP_NOT => 51,
        Opcode::OP_LEN => 52,
        Opcode::OP_CONCAT => 53,
        Opcode::OP_CLOSE => 54,
        Opcode::OP_TBC => 55,
        Opcode::OP_JMP => 56,
        Opcode::OP_EQ => 57,
        Opcode::OP_LT => 58,
        Opcode::OP_LE => 59,
        Opcode::OP_EQK => 60,
        Opcode::OP_EQI => 61,
        Opcode::OP_LTI => 62,
        Opcode::OP_LEI => 63,
        Opcode::OP_GTI => 64,
        Opcode::OP_GEI => 65,
        Opcode::OP_TEST => 66,
        Opcode::OP_TESTSET => 67,
        Opcode::OP_CALL => 68,
        Opcode::OP_TAILCALL => 69,
        Opcode::OP_RETURN => 70,
        Opcode::OP_RETURN0 => 71,
        Opcode::OP_RETURN1 => 72,
        Opcode::OP_FORLOOP => 73,
        Opcode::OP_FORPREP => 74,
        Opcode::OP_TFORPREP => 75,
        Opcode::OP_TFORCALL => 76,
        Opcode::OP_TFORLOOP => 77,
        Opcode::OP_SETLIST => 78,
        Opcode::OP_CLOSURE => 79,
        Opcode::OP_VARARG => 80,
        Opcode::OP_VARARGPREP => 81,
        Opcode::OP_EXTRAARG => 82,
    }
}

/// The opcode a wire value names, if it is inside the closed set.
pub open spec fn spec_opcode_from(v: u8) -> Option<Opcode> {
    match v {
        0u8 => Some(Opcode::OP_MOVE),
        1u8 => Some(Opcode::OP_LOADI),
        2u8 => Some(Opcode::OP_LOADF),
        3u8 => Some(Opcode::OP_LOADK),
        4u8 => Some(Opcode::OP_LOADKX),
        5u8 => Some(Opcode::OP_LOADFALSE),
        6u8 => Some(Opcode::OP_LFALSESKIP),
        7u8 => Some(Opcode::OP_LOADTRUE),
        8u8 => Some(Opcode::OP_LOADNIL),
        9u8 => Some(Opcode::OP_GETUPVAL),
        10u8 => Some(Opcode::OP_SETUPVAL),
        11u8 => Some(Opcode::OP_GETTABUP),
        12u8 => Some(Opcode::OP_GETTABLE),
        13u8 => Some(Opcode::OP_GETI),
        14u8 => Some(Opcode::OP_GETFIELD),
        15u8 => Some(Opcode::OP_SETTABUP),
        16u8 => Some(Opcode::OP_SETTABLE),
        17u8 => Some(Opcode::OP_SETI),
        18u8 => Some(Opcode::OP_SETFIELD),
        19u8 => Some(Opcode::OP_NEWTABLE),
        20u8 => Some(Opcode::OP_SELF),
        21u8 => Some(Opcode::OP_ADDI),
        22u8 => Some(Opcode::OP_ADDK),
        23u8 => Some(Opcode::OP_SUBK),
        24u8 => Some(Opcode::OP_MULK),
        25u8 => Some(Opcode::OP_MODK),
        26u8 => Some(Opcode::OP_POWK),
        27u8 => Some(Opcode::OP_DIVK),
        28u8 => Some(Opcode::OP_IDIVK),
        29u8 => Some(Opcode::OP_BANDK),
        30u8 => Some(Opcode::OP_BORK),
        31u8 => Some(Opcode::OP_BXORK),
        32u8 => Some(Opcode::OP_SHRI),
        33u8 => Some(Opcode::OP_SHLI),
        34u8 => Some(Opcode::OP_ADD),
        35u8 => Some(Opcode::OP_SUB),
        36u8 => Some(Opcode::OP_MUL),
        37u8 => Some(Opcode::OP_MOD),
        38u8 => Some(Opcode::OP_POW),
        39u8 => Some(Opcode::OP_DIV),
        40u8 => Some(Opcode::OP_IDIV),
        41u8 => Some(Opcode::OP_BAND),
        42u8 => Some(Opcode::OP_BOR),
        43u8 => Some(Opcode::OP_BXOR),
        44u8 => Some(Opcode::OP_SHL),
        45u8 => Some(Opcode::OP_SHR),
        46u8 => Some(Opcode::OP_MMBIN),
        47u8 => Some(Opcode::OP_MMBINI),
        48u8 => Some(Opcode::OP_MMBINK),
        49u8 => Some(Opcode::OP_UNM),
        50u8 => Some(Opcode::OP_BNOT),
        51u8 => Some(Opcode::OP_NOT),
        52u8 => Some(Opcode::OP_LEN),
        53u8 => Some(Opcode::OP_CONCAT),
        54u8 => Some(Opcode::OP_CLOSE),
        55u8 => Some(Opcode::OP_TBC),
        56u8 => Some(Opcode::OP_JMP),
        57u8 => Some(Opcode::OP_EQ),
        58u8 => Some(Opcode::OP_LT),
        59u8 => Some(Opcode::OP_LE),
        60u8 => Some(Opcode::OP_EQK),
        61u8 => Some(Opcode::OP_EQI),
        62u8 => Some(Opcode::OP_LTI),
        63u8 => Some(Opcode::OP_LEI),
        64u8 => Some(Opcode::OP_GTI),
        65u8 => Some(Opcode::OP_GEI),
        66u8 => Some(Opcode::OP_TEST),
        67u8 => Some(Opcode::OP_TESTSET),
        68u8 => Some(Opcode::OP_CALL),
        69u8 => Some(Opcode::OP_TAILCALL),
        70u8 => Some(Opcode::OP_RETURN),
        71u8 => Some(Opcode::OP_RETURN0),
        72u8 => Some(Opcode::OP_RETURN1),
        73u8 => Some(Opcode::OP_FORLOOP),
        74u8 => Some(Opcode::OP_FORPREP),
        75u8 => Some(Opcode::OP_TFORPREP),
        76u8 => Some(Opcode::OP_TFORCALL),
        77u8 => Some(Opcode::OP_TFORLOOP),
        78u8 => Some(Opcode::OP_SETLIST),
        79u8 => Some(Opcode::OP_CLOSURE),
        80u8 => Some(Opcode::OP_VARARG),
        81u8 => Some(Opcode::OP_VARARGPREP),
        82u8 => Some(Opcode::OP_EXTRAARG),
        _ => None,
    }
}

/// Which operand shape each opcode uses.
pub open spec fn spec_shape_of(op: Opcode) -> InstrShape {
    match op {
        Opcode::OP_LOADK | Opcode::OP_LOADKX | Opcode::OP_CLOSURE
            => InstrShape::Abx,
        Opcode::OP_LOADI | Opcode::OP_LOADF | Opcode::OP_FORLOOP | Opcode::OP_FORPREP | Opcode::OP_TFORPREP | Opcode::OP_TFORLOOP
            => InstrShape::Asbx,
        Opcode::OP_EXTRAARG
            => InstrShape::Ax,
        Opcode::OP_JMP
            => InstrShape::Sj,
        _ => InstrShape::Abc,
    }
}

/// The boolean-load opcodes take no operands beyond A: their remaining
/// fields decode as zero and must be zero to re-encode.
pub open spec fn spec_is_noarg(op: Opcode) -> bool {
    match op {
        Opcode::OP_LOADFALSE | Opcode::OP_LFALSESKIP | Opcode::OP_LOADTRUE => true,
        _ => false,
    }
}

/// A constructible instruction: its shape agrees with its opcode's table
/// entry, every operand lies within its wire field, and a no-operand
/// opcode carries only its A field.
pub open spec fn spec_wf(inst: Instruction) -> bool {
    match inst {
        Instruction::iABC(op, a, b, c, k) => spec_shape_of(op) == InstrShape::Abc && k < 2 && (
        spec_is_noarg(op) ==> b == 0 && c == 0 && k == 0),
        Instruction::iABx(op, a, bx) => spec_shape_of(op) == InstrShape::Abx && bx < 0x20000,
        Instruction::iAsBx(op, a, sbx) => spec_shape_of(op) == InstrShape::Asbx && -0xffff <= sbx
            <= 0x10000,
        Instruction::iAx(op, ax) => spec_shape_of(op) == InstrShape::Ax && ax < 0x2000000,
        Instruction::isJ(op, sj) => spec_shape_of(op) == InstrShape::Sj && -0xffffff <= sj
            <= 0x1000000,
    }
}

/// What decoding a 32-bit word yields: the instruction, or nothing when
/// the opcode field is outside the closed set.
pub open spec fn spec_decode(w: u32) -> Option<Instruction> {
    match spec_opcode_from(spec_op_of(w) as u8) {
        Some(op) => Some(
            match spec_shape_of(op) {
                InstrShape::Abx => Instruction::iABx(op, spec_a_of(w) as u8, spec_bx_of(w)),
                InstrShape::Asbx => Instruction::iAsBx(
                    op,
                    spec_a_of(w) as u8,
                    (spec_bx_of(w) - OFFSET_SBX) as i32,
                ),
                InstrShape::Ax => Instruction::iAx(op, spec_ax_of(w)),
                InstrShape::Sj => Instruction::isJ(op, (spec_ax_of(w) - OFFSET_SJ) as i32),
                _ => if spec_is_noarg(op) {
                    Instruction::iABC(op, spec_a_of(w) as u8, 0, 0, 0)
                } else {
                    Instruction::iABC(
                        op,
                        spec_a_of(w) as u8,
                        spec_b_of(w) as u8,
                        spec_c_of(w) as u8,
                        spec_k_of(w) as u8,
                    )
                },
            },
        ),
        None => None,
    }
}

/// What encoding an instruction yields: its fields packed back into a
/// 32-bit word, the bias added to the signed shapes.
pub open spec fn spec_encode(inst: Instruction) -> u32 {
    match inst {
        Instruction::iABC(op, a, b, c, k) => spec_pack_abc(
            spec_opcode_value(op) as u32,
            a as u32,
            b as u32,
            c as u32,
            k as u32,
        ),
        Instruction::iABx(op, a, bx) => spec_pack_abx(spec_opcode_value(op) as u32, a as u32, bx),
        Instruction::iAsBx(op, a, sbx) => spec_pack_abx(
            spec_opcode_value(op) as u32,
            a as u32,
            (sbx + OFFSET_SBX) as u32,
        ),
        Instruction::iAx(op, ax) => spec_pack_ax(spec_opcode_value(op) as u32, ax),
        Instruction::isJ(op, sj) => spec_pack_ax(
            spec_opcode_value(op) as u32,
            (sj + OFFSET_SJ) as u32,
        ),
    }
}

/// A canonical word: its opcode is in the closed set and, for a
/// no-operand opcode, the unused fields are zero.  Only canonical words
/// re-encode to themselves; decoding is defined on every valid word.
pub open spec fn spec_canonical(w: u32) -> bool {
    match spec_opcode_from(spec_op_of(w) as u8) {
        Some(op) => spec_is_noarg(op) ==> spec_b_of(w) == 0 && spec_c_of(w) == 0 && spec_k_of(w)
            == 0,
        None => false,
    }
}

/// Wire values round-trip through the opcode table.
pub proof fn lemma_opcode_from_value(op: Opcode)
    ensures
        spec_opcode_from(spec_opcode_value(op)) == Some(op),
        spec_opcode_value(op) < 128,
{
}

/// Everything the decoder produces is a constructible instruction.
pub proof fn lemma_decode_wf(w: u32)
    ensures
        spec_decode(w) matches Some(inst) ==> spec_wf(inst),
{
    lemma_fields_in_range(w);
}

/// The instruction round trip, wire side: re-encoding a decoded word
/// yields the word, for every canonical word.
pub proof fn lemma_encode_decode(w: u32)
    requires
        spec_canonical(w),
    ensures
        spec_decode(w) is Some,
        spec_encode(spec_decode(w)->Some_0) == w,
{
    lemma_fields_in_range(w);
    lemma_pack_covers(w);
    let inst = spec_decode(w)->Some_0;
    if inst is iAsBx {
        let op = inst->iAsBx_0;
        assert(spec_op_of(w) == spec_opcode_value(op));
        assert((((spec_bx_of(w) - OFFSET_SBX) as i32) + OFFSET_SBX) as u32 == spec_bx_of(w));
    }
    if inst is isJ {
        let op = inst->isJ_0;
        assert(spec_op_of(w) == spec_opcode_value(op));
        assert((((spec_ax_of(w) - OFFSET_SJ) as i32) + OFFSET_SJ) as u32 == spec_ax_of(w));
    }
}

/// The instruction round trip, value side: decoding an encoded
/// instruction yields the instruction, for every constructible one.
pub proof fn lemma_decode_encode(inst: Instruction)
    requires
        spec_wf(inst),
    ensures
        spec_decode(spec_encode(inst)) == Some(inst),
        spec_canonical(spec_encode(inst)),
{
    match inst {
        Instruction::iABC(op, a, b, c, k) => {
            lemma_opcode_from_value(op);
            lemma_pack_extracts(
                spec_opcode_value(op) as u32,
                a as u32,
                b as u32,
                c as u32,
                k as u32,
                0,
                0,
            );
        },
        Instruction::iABx(op, a, bx) => {
            lemma_opcode_from_value(op);
            lemma_pack_extracts(spec_opcode_value(op) as u32, a as u32, 0, 0, 0, bx, 0);
        },
        Instruction::iAsBx(op, a, sbx) => {
            lemma_opcode_from_value(op);
            lemma_pack_extracts(
                spec_opcode_value(op) as u32,
                a as u32,
                0,
                0,
                0,
                (sbx + OFFSET_SBX) as u32,
                0,
            );
        },
        Instruction::iAx(op, ax) => {
            lemma_opcode_from_value(op);
            lemma_pack_extracts(spec_opcode_value(op) as u32, 0, 0, 0, 0, 0, ax);
        },
        Instruction::isJ(op, sj) => {
            lemma_opcode_from_value(op);
            lemma_pack_extracts(
                spec_opcode_value(op) as u32,
                0,
                0,
                0,
                0,
                0,
                (sj + OFFSET_SJ) as u32,
            );
        },
    }
}

impl Opcode {
    /// The wire value of this opcode.
    pub fn value(self) -> (r: u8)
        ensures
            r == spec_opcode_value(self),
            r < 128,
    {
        match self {
            Opcode::OP_MOVE => 0,
            Opcode::OP_LOADI => 1,
            Opcode::OP_LOADF => 2,
            Opcode::OP_LOADK => 3,
            Opcode::OP_LOADKX => 4,
            Opcode::OP_LOADFALSE => 5,
            Opcode::OP_LFALSESKIP => 6,
            Opcode::OP_LOADTRUE => 7,
            Opcode::OP_LOADNIL => 8,
            Opcode::OP_GETUPVAL => 9,
            Opcode::OP_SETUPVAL => 10,
            Opcode::OP_GETTABUP => 11,
            Opcode::OP_GETTABLE => 12,
            Opcode::OP_GETI => 13,
            Opcode::OP_GETFIELD => 14,
            Opcode::OP_SETTABUP => 15,
            Opcode::OP_SETTABLE => 16,
            Opcode::OP_SETI => 17,
            Opcode::OP_SETFIELD => 18,
            Opcode::OP_NEWTABLE => 19,
            Opcode::OP_SELF => 20,
            Opcode::OP_ADDI => 21,
            Opcode::OP_ADDK => 22,
            Opcode::OP_SUBK => 23,
            Opcode::OP_MULK => 24,
            Opcode::OP_MODK => 25,
            Opcode::OP_POWK => 26,
            Opcode::OP_DIVK => 27,
            Opcode::OP_IDIVK => 28,
            Opcode::OP_BANDK => 29,
            Opcode::OP_BORK => 30,
            Opcode::OP_BXORK => 31,
            Opcode::OP_SHRI => 32,
            Opcode::OP_SHLI => 33,
            Opcode::OP_ADD => 34,
            Opcode::OP_SUB => 35,
            Opcode::OP_MUL => 36,
            Opcode::OP_MOD => 37,
            Opcode::OP_POW => 38,
            Opcode::OP_DIV => 39,
            Opcode::OP_IDIV => 40,
            Opcode::OP_BAND => 41,
            Opcode::OP_BOR => 42,
            Opcode::OP_BXOR => 43,
            Opcode::OP_SHL => 44,
            Opcode::OP_SHR => 45,
            Opcode::OP_MMBIN => 46,
            Opcode::OP_MMBINI => 47,
            Opcode::OP_MMBINK => 48,
            Opcode::OP_UNM => 49,
            Opcode::OP_BNOT => 50,
            Opcode::OP_NOT => 51,
            Opcode::OP_LEN => 52,
            Opcode::OP_CONCAT => 53,
            Opcode::OP_CLOSE => 54,
            Opcode::OP_TBC => 55,
            Opcode::OP_JMP => 56,
            Opcode::OP_EQ => 57,
            Opcode::OP_LT => 58,
            Opcode::OP_LE => 59,
            Opcode::OP_EQK => 60,
            Opcode::OP_EQI => 61,
            Opcode::OP_LTI => 62,
            Opcode::OP_LEI => 63,
            Opcode::OP_GTI => 64,
            Opcode::OP_GEI => 65,
            Opcode::OP_TEST => 66,
            Opcode::OP_TESTSET => 67,
            Opcode::OP_CALL => 68,
            Opcode::OP_TAILCALL => 69,
            Opcode::OP_RETURN => 70,
            Opcode::OP_RETURN0 => 71,
            Opcode::OP_RETURN1 => 72,
            Opcode::OP_FORLOOP => 73,
            Opcode::OP_FORPREP => 74,
            Opcode::OP_TFORPREP => 75,
            Opcode::OP_TFORCALL => 76,
            Opcode::OP_TFORLOOP => 77,
            Opcode::OP_SETLIST => 78,
            Opcode::OP_CLOSURE => 79,
            Opcode::OP_VARARG => 80,
            Opcode::OP_VARARGPREP => 81,
            Opcode::OP_EXTRAARG => 82,
        }
    }

    /// The opcode a wire value names, or nothing outside the closed set.
    pub fn from_u8(v: u8) -> (r: Option<Opcode>)
        ensures
            r == spec_opcode_from(v),
    {
        match v {
            0u8 => Some(Opcode::OP_MOVE),
            1u8 => Some(Opcode::OP_LOADI),
            2u8 => Some(Opcode::OP_LOADF),
            3u8 => Some(Opcode::OP_LOADK),
            4u8 => Some(Opcode::OP_LOADKX),
            5u8 => Some(Opcode::OP_LOADFALSE),
            6u8 => Some(Opcode::OP_LFALSESKIP),
            7u8 => Some(Opcode::OP_LOADTRUE),
            8u8 => Some(Opcode::OP_LOADNIL),
            9u8 => Some(Opcode::OP_GETUPVAL),
            10u8 => Some(Opcode::OP_SETUPVAL),
            11u8 => Some(Opcode::OP_GETTABUP),
            12u8 => Some(Opcode::OP_GETTABLE),
            13u8 => Some(Opcode::OP_GETI),
            14u8 => Some(Opcode::OP_GETFIELD),
            15u8 => Some(Opcode::OP_SETTABUP),
            16u8 => Some(Opcode::OP_SETTABLE),
            17u8 => Some(Opcode::OP_SETI),
            18u8 => Some(Opcode::OP_SETFIELD),
            19u8 => Some(Opcode::OP_NEWTABLE),
            20u8 => Some(Opcode::OP_SELF),
            21u8 => Some(Opcode::OP_ADDI),
            22u8 => Some(Opcode::OP_ADDK),
            23u8 => Some(Opcode::OP_SUBK),
            24u8 => Some(Opcode::OP_MULK),
            25u8 => Some(Opcode::OP_MODK),
            26u8 => Some(Opcode::OP_POWK),
            27u8 => Some(Opcode::OP_DIVK),
            28u8 => Some(Opcode::OP_IDIVK),
            29u8 => Some(Opcode::OP_BANDK),
            30u8 => Some(Opcode::OP_BORK),
            31u8 => Some(Opcode::OP_BXORK),
            32u8 => Some(Opcode::OP_SHRI),
            33u8 => Some(Opcode::OP_SHLI),
            34u8 => Some(Opcode::OP_ADD),
            35u8 => Some(Opcode::OP_SUB),
            36u8 => Some(Opcode::OP_MUL),
            37u8 => Some(Opcode::OP_MOD),
            38u8 => Some(Opcode::OP_POW),
            39u8 => Some(Opcode::OP_DIV),
            40u8 => Some(Opcode::OP_IDIV),
            41u8 => Some(Opcode::OP_BAND),
            42u8 => Some(Opcode::OP_BOR),
            43u8 => Some(Opcode::OP_BXOR),
            44u8 => Some(Opcode::OP_SHL),
            45u8 => Some(Opcode::OP_SHR),
            46u8 => Some(Opcode::OP_MMBIN),
            47u8 => Some(Opcode::OP_MMBINI),
            48u8 => Some(Opcode::OP_MMBINK),
            49u8 => Some(Opcode::OP_UNM),
            50u8 => Some(Opcode::OP_BNOT),
            51u8 => Some(Opcode::OP_NOT),
            52u8 => Some(Opcode::OP_LEN),
            53u8 => Some(Opcode::OP_CONCAT),
            54u8 => Some(Opcode::OP_CLOSE),
            55u8 => Some(Opcode::OP_TBC),
            56u8 => Some(Opcode::OP_JMP),
            57u8 => Some(Opcode::OP_EQ),
            58u8 => Some(Opcode::OP_LT),
            59u8 => Some(Opcode::OP_LE),
            60u8 => Some(Opcode::OP_EQK),
            61u8 => Some(Opcode::OP_EQI),
            62u8 => Some(Opcode::OP_LTI),
            63u8 => Some(Opcode::OP_LEI),
            64u8 => Some(Opcode::OP_GTI),
            65u8 => Some(Opcode::OP_GEI),
            66u8 => Some(Opcode::OP_TEST),
            67u8 => Some(Opcode::OP_TESTSET),
            68u8 => Some(Opcode::OP_CALL),
            69u8 => Some(Opcode::OP_TAILCALL),
            70u8 => Some(Opcode::OP_RETURN),
            71u8 => Some(Opcode::OP_RETURN0),
            72u8 => Some(Opcode::OP_RETURN1),
            73u8 => Some(Opcode::OP_FORLOOP),
            74u8 => Some(Opcode::OP_FORPREP),
            75u8 => Some(Opcode::OP_TFORPREP),
            76u8 => Some(Opcode::OP_TFORCALL),
            77u8 => Some(Opcode::OP_TFORLOOP),
            78u8 => Some(Opcode::OP_SETLIST),
            79u8 => Some(Opcode::OP_CLOSURE),
            80u8 => Some(Opcode::OP_VARARG),
            81u8 => Some(Opcode::OP_VARARGPREP),
            82u8 => Some(Opcode::OP_EXTRAARG),
            _ => None,
        }
    }

    /// Which operand shape this opcode uses.
    pub fn shape(self) -> (r: InstrShape)
        ensures
            r == spec_shape_of(self),
    {
        match self {
            Opcode::OP_LOADK | Opcode::OP_LOADKX | Opcode::OP_CLOSURE
                => InstrShape::Abx,
            Opcode::OP_LOADI | Opcode::OP_LOADF | Opcode::OP_FORLOOP | Opcode::OP_FORPREP | Opcode::OP_TFORPREP | Opcode::OP_TFORLOOP
                => InstrShape::Asbx,
            Opcode::OP_EXTRAARG
                => InstrShape::Ax,
            Opcode::OP_JMP
                => InstrShape::Sj,
            _ => InstrShape::Abc,
        }
    }

    /// Whether this opcode takes no operands beyond A.
    pub fn is_noarg(self) -> (r: bool)
        ensures
            r == spec_is_noarg(self),
    {
        match self {
            Opcode::OP_LOADFALSE | Opcode::OP_LFALSESKIP | Opcode::OP_LOADTRUE => true,
            _ => false,
        }
    }
}

impl Instruction {
    /// Decode an instruction from its raw 32-bit word; the word's opcode
    /// field must be inside the closed set.
    pub fn decode(raw: u32) -> (r: Instruction)
        requires
            spec_decode(raw) is Some,
        ensures
            Some(r) == spec_decode(raw),
            spec_wf(r),
    {
        proof {
            lemma_decode_wf(raw);
            lemma_fields_in_range(raw);
        }
        let opval = raw & 0x7f;
        let op = match Opcode::from_u8(opval as u8) {
            Some(op) => op,
            None => Opcode::OP_MOVE,
        };
        let a = ((raw >> 7) & 0xff) as u8;
        match op.shape() {
            InstrShape::Abx => Instruction::iABx(op, a, (raw >> 15) & 0x1ffff),
            InstrShape::Asbx => {
                let sbx: i32 = ((raw >> 15) & 0x1ffff) as i32 - (OFFSET_SBX as i32);
                Instruction::iAsBx(op, a, sbx)
            },
            InstrShape::Ax => Instruction::iAx(op, raw >> 7),
            InstrShape::Sj => {
                let sj: i32 = ((raw >> 7) as i32) - (OFFSET_SJ as i32);
                Instruction::isJ(op, sj)
            },
            _ => {
                if op.is_noarg() {
                    Instruction::iABC(op, a, 0, 0, 0)
                } else {
                    let b = ((raw >> 16) & 0xff) as u8;
                    let c = ((raw >> 24) & 0xff) as u8;
                    let k = ((raw >> 15) & 1) as u8;
                    Instruction::iABC(op, a, b, c, k)
                }
            },
        }
    }

    /// Decode an instruction, rejecting a word whose opcode field is
    /// outside the closed set as an invalid tag.
    pub fn try_decode(raw: u32) -> (r: Result<Instruction, CodecError>)
        ensures
            match r {
                Ok(i) => Some(i) == spec_decode(raw) && spec_wf(i),
                Err(e) => spec_decode(raw) is None && e == CodecError::InvalidTag,
            },
    {
        proof {
            lemma_fields_in_range(raw);
        }
        let opval = raw & 0x7f;
        match Opcode::from_u8(opval as u8) {
            Some(op) => Ok(Self::decode(raw)),
            None => Err(CodecError::InvalidTag),
        }
    }

    /// Encode a constructible instruction into its raw 32-bit word.
    pub fn encode(inst: Instruction) -> (r: u32)
        requires
            spec_wf(inst),
        ensures
            r == spec_encode(inst),
            spec_decode(r) == Some(inst),
    {
        proof {
            lemma_decode_encode(inst);
        }
        match inst {
            Instruction::iABC(op, a, b, c, k) => {
                let o = op.value() as u32;
                o | ((a as u32) << 7) | ((k as u32) << 15) | ((b as u32) << 16) | ((c as u32)
                    << 24)
            },
            Instruction::iABx(op, a, bx) => {
                let o = op.value() as u32;
                o | ((a as u32) << 7) | (bx << 15)
            },
            Instruction::iAsBx(op, a, sbx) => {
                let o = op.value() as u32;
                let bx = (sbx + (OFFSET_SBX as i32)) as u32;
                o | ((a as u32) << 7) | (bx << 15)
            },
            Instruction::iAx(op, ax) => {
                let o = op.value() as u32;
                o | (ax << 7)
            },
            Instruction::isJ(op, sj) => {
                let o = op.value() as u32;
                let j = (sj + (OFFSET_SJ as i32)) as u32;
                o | (j << 7)
            },
        }
    }
}

} // verus!

verus! {

/// What reading one instruction at `pos` yields: a 32-bit word in the
/// context's byte order, decoded through the opcode table; an opcode
/// outside the closed set is an invalid tag.
pub open spec fn spec_read_instr(b: Seq<u8>, pos: int, ctx: CommonCtx) -> Result<
    (Instruction, int),
    CodecError,
> {
    match crate::reader::spec_read_u32(b, pos, ctx.endianness) {
        Ok((w, q)) => match spec_decode(w) {
            Some(i) => Ok((i, q)),
            None => Err(CodecError::InvalidTag),
        },
        Err(e) => Err(e),
    }
}

impl Instruction {
    /// Reads one instruction at `offset`.
    pub fn read(src: &[u8], offset: usize, ctx: CommonCtx) -> (r: Result<
        (Instruction, usize),
        CodecError,
    >)
        ensures
            match r {
                Ok((i, n)) => spec_read_instr(src@, offset as int, ctx) == Ok::<
                    (Instruction, int),
                    CodecError,
                >((i, n as int)) && spec_wf(i) && offset <= n <= src@.len(),
                Err(e) => spec_read_instr(src@, offset as int, ctx) == Err::<
                    (Instruction, int),
                    CodecError,
                >(e),
            },
    {
        match crate::reader::read_u32(src, offset, ctx.endianness) {
            Ok((w, q)) => match Instruction::try_decode(w) {
                Ok(i) => Ok((i, q)),
                Err(e) => Err(e),
            },
            Err(e) => Err(e),
        }
    }
}

/// Reads `n` consecutive instructions.
#[verifier::loop_isolation(false)]
pub fn read_instr_list(src: &[u8], offset: usize, n: usize, ctx: CommonCtx) -> (r: Result<
    (Vec<Instruction>, usize),
    CodecError,
>)
    requires
        offset <= src@.len(),
    ensures
        ({
            let s = crate::codec::spec_read_list(
                offset as int,
                n as nat,
                |p: int| spec_read_instr(src@, p, ctx),
                Seq::<Instruction>::empty(),
            );
            match r {
                Ok((v, m)) => s == Ok::<(Seq<Instruction>, int), CodecError>((v@, m as int))
                    && offset <= m <= src@.len() && v@.len() == n && (forall|j: int|
                    0 <= j < v@.len() ==> spec_wf(#[trigger] v@[j])),
                Err(err) => s == Err::<(Seq<Instruction>, int), CodecError>(err),
            }
        }),
{
    let ghost f = |p: int| spec_read_instr(src@, p, ctx);
    let mut out: Vec<Instruction> = Vec::new();
    let mut pos: usize = offset;
    let mut i: usize = 0;
    while i < n
        invariant
            0 <= i <= n,
            offset <= pos <= src@.len(),
            out@.len() == i,
            forall|j: int| 0 <= j < out@.len() ==> spec_wf(#[trigger] out@[j]),
            crate::codec::spec_read_list(pos as int, (n - i) as nat, f, out@)
                == crate::codec::spec_read_list(
                offset as int,
                n as nat,
                f,
                Seq::<Instruction>::empty(),
            ),
        decreases n - i,
    {
        match Instruction::read(src, pos, ctx) {
            Ok((x, q)) => {
                out.push(x);
                pos = q;
                i = i + 1;
            },
            Err(err) => {
                return Err(err);
            },
        }
    }
    Ok((out, pos))
}

} // verus!

verus! {

impl Instruction {
    /// Writes this instruction's 32-bit word at `offset` in the
    /// context's byte order.  Fails, leaving the buffer untouched, when
    /// there is no room.
    pub fn write(self, dst: &mut [u8], offset: &mut usize, ctx: CommonCtx) -> (r: Result<
        usize,
        CodecError,
    >)
        requires
            spec_wf(self),
        ensures
            r is Ok <==> *old(offset) + 4 <= old(dst)@.len(),
            r is Ok ==> {
                &&& r == Ok::<usize, CodecError>(4usize)
                &&& *final(offset) == *old(offset) + 4
                &&& final(dst)@ == crate::reader::spec_store(
                    old(dst)@,
                    *old(offset) as int,
                    crate::reader::spec_u32_bytes(spec_encode(self), ctx.endianness),
                )
            },
            r is Err ==> {
                &&& r == Err::<usize, CodecError>(CodecError::Truncated)
                &&& *final(offset) == *old(offset)
                &&& final(dst)@ == old(dst)@
            },
    {
        let w = Instruction::encode(self);
        match crate::reader::write_u32(dst, offset, w, ctx.endianness) {
            Ok(()) => Ok(4),
            Err(e) => Err(e),
        }
    }
}

} // verus!
