//! The LuaJIT v2 instruction codec: a closed set of 97 operations packed
//! into a 32-bit word of four bytes: the opcode, the A field, then either
//! two more byte fields (B and C) or one 16-bit D field.  The jump
//! instruction reads its D field as a biased signed displacement.
//!
//! Which operations use the two-field form comes from the bytecode
//! operand-mode table; under the modes recorded there, every operation
//! except the call and iterator-call family takes the AD form.

use vstd::prelude::*;
use crate::error::CodecError;

verus! {

/// The bias added to a jump displacement on the wire.
pub const BCBIAS_J: i32 = 0x8000;

/// The opcode field: the low byte.
pub open spec fn spec_op_of(w: u32) -> u32 {
    w & 0xff
}

/// The A field: the second byte.
pub open spec fn spec_a_of(w: u32) -> u32 {
    (w >> 8) & 0xff
}

/// The C field: the third byte.
pub open spec fn spec_c_of(w: u32) -> u32 {
    (w >> 16) & 0xff
}

/// The B field: the high byte.
pub open spec fn spec_b_of(w: u32) -> u32 {
    (w >> 24) & 0xff
}

/// The D field: the high 16 bits, overlaying C and B.
pub open spec fn spec_d_of(w: u32) -> u32 {
    (w >> 16) & 0xffff
}

/// An ABC-shaped word assembled from its fields.
pub open spec fn spec_pack_abc(op: u32, a: u32, b: u32, c: u32) -> u32 {
    op | (a << 8) | (c << 16) | (b << 24)
}

/// An AD-shaped word assembled from its fields.
pub open spec fn spec_pack_ad(op: u32, a: u32, d: u32) -> u32 {
    op | (a << 8) | (d << 16)
}

/// Every field extractor stays within its field's range.
pub proof fn lemma_fields_in_range(w: u32)
    ensures
        spec_op_of(w) < 256,
        spec_a_of(w) < 256,
        spec_b_of(w) < 256,
        spec_c_of(w) < 256,
        spec_d_of(w) < 0x10000,
{
    assert((w & 0xff) < 256 && ((w >> 8) & 0xff) < 256 && ((w >> 24) & 0xff) < 256 && ((w >> 16)
        & 0xff) < 256 && ((w >> 16) & 0xffff) < 0x10000) by (bit_vector);
}

/// Reassembling a word from its extracted fields yields the word back.
pub proof fn lemma_pack_covers(w: u32)
    ensures
        spec_pack_abc(spec_op_of(w), spec_a_of(w), spec_b_of(w), spec_c_of(w)) == w,
        spec_pack_ad(spec_op_of(w), spec_a_of(w), spec_d_of(w)) == w,
{
    assert(((w & 0xff) | (((w >> 8) & 0xff) << 8) | (((w >> 16) & 0xff) << 16) | (((w >> 24)
        & 0xff) << 24) == w) && ((w & 0xff) | (((w >> 8) & 0xff) << 8) | (((w >> 16) & 0xffff)
        << 16) == w)) by (bit_vector);
}

/// Extracting the fields of an assembled word recovers them, provided
/// each was within its field's range.
pub proof fn lemma_pack_extracts(op: u32, a: u32, b: u32, c: u32, d: u32)
    requires
        op < 256,
        a < 256,
        b < 256,
        c < 256,
        d < 0x10000,
    ensures
        spec_op_of(spec_pack_abc(op, a, b, c)) == op,
        spec_a_of(spec_pack_abc(op, a, b, c)) == a,
        spec_b_of(spec_pack_abc(op, a, b, c)) == b,
        spec_c_of(spec_pack_abc(op, a, b, c)) == c,
        spec_op_of(spec_pack_ad(op, a, d)) == op,
        spec_a_of(spec_pack_ad(op, a, d)) == a,
        spec_d_of(spec_pack_ad(op, a, d)) == d,
{
    let wabc = spec_pack_abc(op, a, b, c);
    let wad = spec_pack_ad(op, a, d);
    assert((wabc & 0xff) == op && ((wabc >> 8) & 0xff) == a && ((wabc >> 24) & 0xff) == b && ((
    wabc >> 16) & 0xff) == c && (wad & 0xff) == op && ((wad >> 8) & 0xff) == a && ((wad >> 16)
        & 0xffff) == d) by (bit_vector)
        requires
            op < 256,
            a < 256,
            b < 256,
            c < 256,
            d < 0x10000,
            wabc == op | (a << 8) | (c << 16) | (b << 24),
            wad == op | (a << 8) | (d << 16),
    ;
}

/// A decoded LuaJIT v2 instruction.
#[derive(Debug, Copy, Clone, PartialEq, Eq, Structural)]
pub enum Instruction {
    /// Format ABC: OP A B C
    ABC(Opcode, u8, u8, u8),
    /// Format AD: OP A D
    AD(Opcode, u8, u16),
    /// Format AJ: OP A J (J is signed displacement)
    AJ(Opcode, u8, i32),
}

/// LuaJIT bytecode operations, in wire order: an operation's position in
/// this list is its value in the low byte of an instruction word.
#[derive(Debug, Copy, Clone, PartialEq, Eq, Structural)]
#[allow(non_camel_case_types)]
pub enum Opcode {
    ISLT,
    ISGE,
    ISLE,
    ISGT,
    ISEQV,
    ISNEV,
    ISEQS,
    ISNES,
    ISEQN,
    ISNEN,
    ISEQP,
    ISNEP,
    ISTC,
    ISFC,
    IST,
    ISF,
    ISTYPE,
    ISNUM,
    MOV,
    NOT,
    UNM,
    LEN,
    ADDVN,
    SUBVN,
    MULVN,
    DIVVN,
    MODVN,
    ADDNV,
    SUBNV,
    MULNV,
    DIVNV,
    MODNV,
    ADDVV,
    SUBVV,
    MULVV,
    DIVVV,
    MODVV,
    POW,
    CAT,
    KSTR,
    KCDATA,
    KSHORT,
    KNUM,
    KPRI,
    KNIL,
    UGET,
    USETV,
    USETS,
    USETN,
    USETP,
    UCLO,
    FNEW,
    TNEW,
    TDUP,
    GGET,
    GSET,
    TGETV,
    TGETS,
    TGETB,
    TGETR,
    TSETV,
    TSETS,
    TSETB,
    TSETM,
    TSETR,
    CALLM,
    CALL,
    CALLMT,
    CALLT,
    ITERC,
    ITERN,
    VARG,
    ISNEXT,
    RETM,
    RET,
    RET0,
    RET1,
    FORI,
    JFORI,
    FORL,
    IFORL,
    JFORL,
    ITERL,
    IITERL,
    JITERL,
    LOOP,
    ILOOP,
    JLOOP,
    JMP,
    FUNCF,
    IFUNCF,
    JFUNCF,
    FUNCV,
    IFUNCV,
    JFUNCV,
    FUNCC,
    FUNCCW,
}

/// The wire value of an opcode.
pub open spec fn spec_opcode_value(op: Opcode) -> u8 {
    match op {
        Opcode::ISLT => 0,
        Opcode::ISGE => 1,
        Opcode::ISLE => 2,
        Opcode::ISGT => 3,
        Opcode::ISEQV => 4,
        Opcode::ISNEV => 5,
        Opcode::ISEQS => 6,
        Opcode::ISNES => 7,
        Opcode::ISEQN => 8,
        Opcode::ISNEN => 9,
        Opcode::ISEQP => 10,
        Opcode::ISNEP => 11,
        Opcode::ISTC => 12,
        Opcode::ISFC => 13,
        Opcode::IST => 14,
        Opcode::ISF => 15,
        Opcode::ISTYPE => 16,
        Opcode::ISNUM => 17,
        Opcode::MOV => 18,
        Opcode::NOT => 19,
        Opcode::UNM => 20,
        Opcode::LEN => 21,
        Opcode::ADDVN => 22,
        Opcode::SUBVN => 23,
        Opcode::MULVN => 24,
        Opcode::DIVVN => 25,
        Opcode::MODVN => 26,
        Opcode::ADDNV => 27,
        Opcode::SUBNV => 28,
        Opcode::MULNV => 29,
        Opcode::DIVNV => 30,
        Opcode::MODNV => 31,
        Opcode::ADDVV => 32,
        Opcode::SUBVV => 33,
        Opcode::MULVV => 34,
        Opcode::DIVVV => 35,
        Opcode::MODVV => 36,
        Opcode::POW => 37,
        Opcode::CAT => 38,
        Opcode::KSTR => 39,
        Opcode::KCDATA => 40,
        Opcode::KSHORT => 41,
        Opcode::KNUM => 42,
        Opcode::KPRI => 43,
        Opcode::KNIL => 44,
        Opcode::UGET => 45,
        Opcode::USETV => 46,
        Opcode::USETS => 47,
        Opcode::USETN => 48,
        Opcode::USETP => 49,
        Opcode::UCLO => 50,
        Opcode::FNEW => 51,
        Opcode::TNEW => 52,
        Opcode::TDUP => 53,
        Opcode::GGET => 54,
        Opcode::GSET => 55,
        Opcode::TGETV => 56,
        Opcode::TGETS => 57,
        Opcode::TGETB => 58,
        Opcode::TGETR => 59,
        Opcode::TSETV => 60,
        Opcode::TSETS => 61,
        Opcode::TSETB => 62,
        Opcode::TSETM => 63,
        Opcode::TSETR => 64,
        Opcode::CALLM => 65,
        Opcode::CALL => 66,
        Opcode::CALLMT => 67,
        Opcode::CALLT => 68,
        Opcode::ITERC => 69,
        Opcode::ITERN => 70,
        Opcode::VARG => 71,
        Opcode::ISNEXT => 72,
        Opcode::RETM => 73,
        Opcode::RET => 74,
        Opcode::RET0 => 75,
        Opcode::RET1 => 76,
        Opcode::FORI => 77,
        Opcode::JFORI => 78,
        Opcode::FORL => 79,
        Opcode::IFORL => 80,
        Opcode::JFORL => 81,
        Opcode::ITERL => 82,
        Opcode::IITERL => 83,
        Opcode::JITERL => 84,
        Opcode::LOOP => 85,
        Opcode::ILOOP => 86,
        Opcode::JLOOP => 87,
        Opcode::JMP => 88,
        Opcode::FUNCF => 89,
        Opcode::IFUNCF => 90,
        Opcode::JFUNCF => 91,
        Opcode::FUNCV => 92,
        Opcode::IFUNCV => 93,
        Opcode::JFUNCV => 94,
        Opcode::FUNCC => 95,
        Opcode::FUNCCW => 96,
    }
}

/// The opcode a wire value names, if it is inside the closed set.
pub open spec fn spec_opcode_from(v: u8) -> Option<Opcode> {
    match v {
        0u8 => Some(Opcode::ISLT),
        1u8 => Some(Opcode::ISGE),
        2u8 => Some(Opcode::ISLE),
        3u8 => Some(Opcode::ISGT),
        4u8 => Some(Opcode::ISEQV),
        5u8 => Some(Opcode::ISNEV),
        6u8 => Some(Opcode::ISEQS),
        7u8 => Some(Opcode::ISNES),
        8u8 => Some(Opcode::ISEQN),
        9u8 => Some(Opcode::ISNEN),
        10u8 => Some(Opcode::ISEQP),
        11u8 => Some(Opcode::ISNEP),
        12u8 => Some(Opcode::ISTC),
        13u8 => Some(Opcode::ISFC),
        14u8 => Some(Opcode::IST),
        15u8 => Some(Opcode::ISF),
        16u8 => Some(Opcode::ISTYPE),
        17u8 => Some(Opcode::ISNUM),
        18u8 => Some(Opcode::MOV),
        19u8 => Some(Opcode::NOT),
        20u8 => Some(Opcode::UNM),
        21u8 => Some(Opcode::LEN),
        22u8 => Some(Opcode::ADDVN),
        23u8 => Some(Opcode::SUBVN),
        24u8 => Some(Opcode::MULVN),
        25u8 => Some(Opcode::DIVVN),
        26u8 => Some(Opcode::MODVN),
        27u8 => Some(Opcode::ADDNV),
        28u8 => Some(Opcode::SUBNV),
        29u8 => Some(Opcode::MULNV),
        30u8 => Some(Opcode::DIVNV),
        31u8 => Some(Opcode::MODNV),
        32u8 => Some(Opcode::ADDVV),
        33u8 => Some(Opcode::SUBVV),
        34u8 => Some(Opcode::MULVV),
        35u8 => Some(Opcode::DIVVV),
        36u8 => Some(Opcode::MODVV),
        37u8 => Some(Opcode::POW),
        38u8 => Some(Opcode::CAT),
        39u8 => Some(Opcode::KSTR),
        40u8 => Some(Opcode::KCDATA),
        41u8 => Some(Opcode::KSHORT),
        42u8 => Some(Opcode::KNUM),
        43u8 => Some(Opcode::KPRI),
        44u8 => Some(Opcode::KNIL),
        45u8 => Some(Opcode::UGET),
        46u8 => Some(Opcode::USETV),
        47u8 => Some(Opcode::USETS),
        48u8 => Some(Opcode::USETN),
        49u8 => Some(Opcode::USETP),
        50u8 => Some(Opcode::UCLO),
        51u8 => Some(Opcode::FNEW),
        52u8 => Some(Opcode::TNEW),
        53u8 => Some(Opcode::TDUP),
        54u8 => Some(Opcode::GGET),
        55u8 => Some(Opcode::GSET),
        56u8 => Some(Opcode::TGETV),
        57u8 => Some(Opcode::TGETS),
        58u8 => Some(Opcode::TGETB),
        59u8 => Some(Opcode::TGETR),
        60u8 => Some(Opcode::TSETV),
        61u8 => Some(Opcode::TSETS),
        62u8 => Some(Opcode::TSETB),
        63u8 => Some(Opcode::TSETM),
        64u8 => Some(Opcode::TSETR),
        65u8 => Some(Opcode::CALLM),
        66u8 => Some(Opcode::CALL),
        67u8 => Some(Opcode::CALLMT),
        68u8 => Some(Opcode::CALLT),
        69u8 => Some(Opcode::ITERC),
        70u8 => Some(Opcode::ITERN),
        71u8 => Some(Opcode::VARG),
        72u8 => Some(Opcode::ISNEXT),
        73u8 => Some(Opcode::RETM),
        74u8 => Some(Opcode::RET),
        75u8 => Some(Opcode::RET0),
        76u8 => Some(Opcode::RET1),
        77u8 => Some(Opcode::FORI),
        78u8 => Some(Opcode::JFORI),
        79u8 => Some(Opcode::FORL),
        80u8 => Some(Opcode::IFORL),
        81u8 => Some(Opcode::JFORL),
        82u8 => Some(Opcode::ITERL),
        83u8 => Some(Opcode::IITERL),
        84u8 => Some(Opcode::JITERL),
        85u8 => Some(Opcode::LOOP),
        86u8 => Some(Opcode::ILOOP),
        87u8 => Some(Opcode::JLOOP),
        88u8 => Some(Opcode::JMP),
        89u8 => Some(Opcode::FUNCF),
        90u8 => Some(Opcode::IFUNCF),
        91u8 => Some(Opcode::JFUNCF),
        92u8 => Some(Opcode::FUNCV),
        93u8 => Some(Opcode::IFUNCV),
        94u8 => Some(Opcode::JFUNCV),
        95u8 => Some(Opcode::FUNCC),
        96u8 => Some(Opcode::FUNCCW),
        _ => None,
    }
}

/// Whether an operation takes the one-wide-field AD form rather than the
/// two-byte-field ABC form.
pub open spec fn spec_uses_ad_format(op: Opcode) -> bool {
    match op {
        Opcode::CALLM | Opcode::CALL | Opcode::CALLMT | Opcode::CALLT | Opcode::ITERC | Opcode::ITERN => false,
        _ => true,
    }
}

/// A constructible instruction: its form agrees with its operation's
/// operand mode, the jump instruction always takes the AJ form, and the
/// displacement lies within the biased field.
pub open spec fn spec_wf(inst: Instruction) -> bool {
    match inst {
        Instruction::ABC(op, a, b, c) => !spec_uses_ad_format(op),
        Instruction::AD(op, a, d) => spec_uses_ad_format(op) && op != Opcode::JMP,
        Instruction::AJ(op, a, j) => op == Opcode::JMP && -0x8000 <= j <= 0x7fff,
    }
}

/// What decoding a 32-bit word yields: the instruction, or nothing when
/// the opcode field is outside the closed set.
pub open spec fn spec_decode(w: u32) -> Option<Instruction> {
    match spec_opcode_from(spec_op_of(w) as u8) {
        Some(op) => Some(
            if spec_uses_ad_format(op) {
                if op == Opcode::JMP {
                    Instruction::AJ(op, spec_a_of(w) as u8, (spec_d_of(w) - BCBIAS_J) as i32)
                } else {
                    Instruction::AD(op, spec_a_of(w) as u8, spec_d_of(w) as u16)
                }
            } else {
                Instruction::ABC(op, spec_a_of(w) as u8, spec_b_of(w) as u8, spec_c_of(w) as u8)
            },
        ),
        None => None,
    }
}

/// What encoding an instruction yields: its fields packed back into a
/// 32-bit word, the bias added to a jump displacement.
pub open spec fn spec_encode(inst: Instruction) -> u32 {
    match inst {
        Instruction::ABC(op, a, b, c) => spec_pack_abc(
            spec_opcode_value(op) as u32,
            a as u32,
            b as u32,
            c as u32,
        ),
        Instruction::AD(op, a, d) => spec_pack_ad(spec_opcode_value(op) as u32, a as u32, d as u32),
        Instruction::AJ(op, a, j) => spec_pack_ad(
            spec_opcode_value(op) as u32,
            a as u32,
            (j + BCBIAS_J) as u32,
        ),
    }
}

/// Wire values round-trip through the opcode table.
pub proof fn lemma_opcode_from_value(op: Opcode)
    ensures
        spec_opcode_from(spec_opcode_value(op)) == Some(op),
{
}

/// Everything the decoder produces is a constructible instruction.
pub proof fn lemma_decode_wf(w: u32)
    ensures
        spec_decode(w) matches Some(inst) ==> spec_wf(inst),
{
    lemma_fields_in_range(w);
}

/// The instruction round trip, wire side: re-encoding a decoded word
/// yields the word, for every word whose opcode is in the closed set.
pub proof fn lemma_encode_decode(w: u32)
    requires
        spec_decode(w) is Some,
    ensures
        spec_encode(spec_decode(w)->Some_0) == w,
{
    lemma_fields_in_range(w);
    lemma_pack_covers(w);
    let inst = spec_decode(w)->Some_0;
    if inst is AJ {
        let op = inst->AJ_0;
        assert(spec_op_of(w) == spec_opcode_value(op));
        assert((((spec_d_of(w) - BCBIAS_J) as i32) + BCBIAS_J) as u32 == spec_d_of(w));
    }
}

/// The instruction round trip, value side: decoding an encoded
/// instruction yields the instruction, for every constructible one.
pub proof fn lemma_decode_encode(inst: Instruction)
    requires
        spec_wf(inst),
    ensures
        spec_decode(spec_encode(inst)) == Some(inst),
{
    match inst {
        Instruction::ABC(op, a, b, c) => {
            lemma_opcode_from_value(op);
            lemma_pack_extracts(spec_opcode_value(op) as u32, a as u32, b as u32, c as u32, 0);
        },
        Instruction::AD(op, a, d) => {
            lemma_opcode_from_value(op);
            lemma_pack_extracts(spec_opcode_value(op) as u32, a as u32, 0, 0, d as u32);
        },
        Instruction::AJ(op, a, j) => {
            lemma_opcode_from_value(op);
            lemma_pack_extracts(spec_opcode_value(op) as u32, a as u32, 0, 0, (j + BCBIAS_J) as u32);
        },
    }
}

impl Opcode {
    /// The wire value of this operation.
    pub fn value(self) -> (r: u8)
        ensures
            r == spec_opcode_value(self),
    {
        match self {
            Opcode::ISLT => 0,
            Opcode::ISGE => 1,
            Opcode::ISLE => 2,
            Opcode::ISGT => 3,
            Opcode::ISEQV => 4,
            Opcode::ISNEV => 5,
            Opcode::ISEQS => 6,
            Opcode::ISNES => 7,
            Opcode::ISEQN => 8,
            Opcode::ISNEN => 9,
            Opcode::ISEQP => 10,
            Opcode::ISNEP => 11,
            Opcode::ISTC => 12,
            Opcode::ISFC => 13,
            Opcode::IST => 14,
            Opcode::ISF => 15,
            Opcode::ISTYPE => 16,
            Opcode::ISNUM => 17,
            Opcode::MOV => 18,
            Opcode::NOT => 19,
            Opcode::UNM => 20,
            Opcode::LEN => 21,
            Opcode::ADDVN => 22,
            Opcode::SUBVN => 23,
            Opcode::MULVN => 24,
            Opcode::DIVVN => 25,
            Opcode::MODVN => 26,
            Opcode::ADDNV => 27,
            Opcode::SUBNV => 28,
            Opcode::MULNV => 29,
            Opcode::DIVNV => 30,
            Opcode::MODNV => 31,
            Opcode::ADDVV => 32,
            Opcode::SUBVV => 33,
            Opcode::MULVV => 34,
            Opcode::DIVVV => 35,
            Opcode::MODVV => 36,
            Opcode::POW => 37,
            Opcode::CAT => 38,
            Opcode::KSTR => 39,
            Opcode::KCDATA => 40,
            Opcode::KSHORT => 41,
            Opcode::KNUM => 42,
            Opcode::KPRI => 43,
            Opcode::KNIL => 44,
            Opcode::UGET => 45,
            Opcode::USETV => 46,
            Opcode::USETS => 47,
            Opcode::USETN => 48,
            Opcode::USETP => 49,
            Opcode::UCLO => 50,
            Opcode::FNEW => 51,
            Opcode::TNEW => 52,
            Opcode::TDUP => 53,
            Opcode::GGET => 54,
            Opcode::GSET => 55,
            Opcode::TGETV => 56,
            Opcode::TGETS => 57,
            Opcode::TGETB => 58,
            Opcode::TGETR => 59,
            Opcode::TSETV => 60,
            Opcode::TSETS => 61,
            Opcode::TSETB => 62,
            Opcode::TSETM => 63,
            Opcode::TSETR => 64,
            Opcode::CALLM => 65,
            Opcode::CALL => 66,
            Opcode::CALLMT => 67,
            Opcode::CALLT => 68,
            Opcode::ITERC => 69,
            Opcode::ITERN => 70,
            Opcode::VARG => 71,
            Opcode::ISNEXT => 72,
            Opcode::RETM => 73,
            Opcode::RET => 74,
            Opcode::RET0 => 75,
            Opcode::RET1 => 76,
            Opcode::FORI => 77,
            Opcode::JFORI => 78,
            Opcode::FORL => 79,
            Opcode::IFORL => 80,
            Opcode::JFORL => 81,
            Opcode::ITERL => 82,
            Opcode::IITERL => 83,
            Opcode::JITERL => 84,
            Opcode::LOOP => 85,
            Opcode::ILOOP => 86,
            Opcode::JLOOP => 87,
            Opcode::JMP => 88,
            Opcode::FUNCF => 89,
            Opcode::IFUNCF => 90,
            Opcode::JFUNCF => 91,
            Opcode::FUNCV => 92,
            Opcode::IFUNCV => 93,
            Opcode::JFUNCV => 94,
            Opcode::FUNCC => 95,
            Opcode::FUNCCW => 96,
        }
    }

    /// The operation a wire value names, or nothing outside the closed
    /// set.
    pub fn from_u8(v: u8) -> (r: Option<Opcode>)
        ensures
            r == spec_opcode_from(v),
    {
        match v {
            0u8 => Some(Opcode::ISLT),
            1u8 => Some(Opcode::ISGE),
            2u8 => Some(Opcode::ISLE),
            3u8 => Some(Opcode::ISGT),
            4u8 => Some(Opcode::ISEQV),
            5u8 => Some(Opcode::ISNEV),
            6u8 => Some(Opcode::ISEQS),
            7u8 => Some(Opcode::ISNES),
            8u8 => Some(Opcode::ISEQN),
            9u8 => Some(Opcode::ISNEN),
            10u8 => Some(Opcode::ISEQP),
            11u8 => Some(Opcode::ISNEP),
            12u8 => Some(Opcode::ISTC),
            13u8 => Some(Opcode::ISFC),
            14u8 => Some(Opcode::IST),
            15u8 => Some(Opcode::ISF),
            16u8 => Some(Opcode::ISTYPE),
            17u8 => Some(Opcode::ISNUM),
            18u8 => Some(Opcode::MOV),
            19u8 => Some(Opcode::NOT),
            20u8 => Some(Opcode::UNM),
            21u8 => Some(Opcode::LEN),
            22u8 => Some(Opcode::ADDVN),
            23u8 => Some(Opcode::SUBVN),
            24u8 => Some(Opcode::MULVN),
            25u8 => Some(Opcode::DIVVN),
            26u8 => Some(Opcode::MODVN),
            27u8 => Some(Opcode::ADDNV),
            28u8 => Some(Opcode::SUBNV),
            29u8 => Some(Opcode::MULNV),
            30u8 => Some(Opcode::DIVNV),
            31u8 => Some(Opcode::MODNV),
            32u8 => Some(Opcode::ADDVV),
            33u8 => Some(Opcode::SUBVV),
            34u8 => Some(Opcode::MULVV),
            35u8 => Some(Opcode::DIVVV),
            36u8 => Some(Opcode::MODVV),
            37u8 => Some(Opcode::POW),
            38u8 => Some(Opcode::CAT),
            39u8 => Some(Opcode::KSTR),
            40u8 => Some(Opcode::KCDATA),
            41u8 => Some(Opcode::KSHORT),
            42u8 => Some(Opcode::KNUM),
            43u8 => Some(Opcode::KPRI),
            44u8 => Some(Opcode::KNIL),
            45u8 => Some(Opcode::UGET),
            46u8 => Some(Opcode::USETV),
            47u8 => Some(Opcode::USETS),
            48u8 => Some(Opcode::USETN),
            49u8 => Some(Opcode::USETP),
            50u8 => Some(Opcode::UCLO),
            51u8 => Some(Opcode::FNEW),
            52u8 => Some(Opcode::TNEW),
            53u8 => Some(Opcode::TDUP),
            54u8 => Some(Opcode::GGET),
            55u8 => Some(Opcode::GSET),
            56u8 => Some(Opcode::TGETV),
            57u8 => Some(Opcode::TGETS),
            58u8 => Some(Opcode::TGETB),
            59u8 => Some(Opcode::TGETR),
            60u8 => Some(Opcode::TSETV),
            61u8 => Some(Opcode::TSETS),
            62u8 => Some(Opcode::TSETB),
            63u8 => Some(Opcode::TSETM),
            64u8 => Some(Opcode::TSETR),
            65u8 => Some(Opcode::CALLM),
            66u8 => Some(Opcode::CALL),
            67u8 => Some(Opcode::CALLMT),
            68u8 => Some(Opcode::CALLT),
            69u8 => Some(Opcode::ITERC),
            70u8 => Some(Opcode::ITERN),
            71u8 => Some(Opcode::VARG),
            72u8 => Some(Opcode::ISNEXT),
            73u8 => Some(Opcode::RETM),
            74u8 => Some(Opcode::RET),
            75u8 => Some(Opcode::RET0),
            76u8 => Some(Opcode::RET1),
            77u8 => Some(Opcode::FORI),
            78u8 => Some(Opcode::JFORI),
            79u8 => Some(Opcode::FORL),
            80u8 => Some(Opcode::IFORL),
            81u8 => Some(Opcode::JFORL),
            82u8 => Some(Opcode::ITERL),
            83u8 => Some(Opcode::IITERL),
            84u8 => Some(Opcode::JITERL),
            85u8 => Some(Opcode::LOOP),
            86u8 => Some(Opcode::ILOOP),
            87u8 => Some(Opcode::JLOOP),
            88u8 => Some(Opcode::JMP),
            89u8 => Some(Opcode::FUNCF),
            90u8 => Some(Opcode::IFUNCF),
            91u8 => Some(Opcode::JFUNCF),
            92u8 => Some(Opcode::FUNCV),
            93u8 => Some(Opcode::IFUNCV),
            94u8 => Some(Opcode::JFUNCV),
            95u8 => Some(Opcode::FUNCC),
            96u8 => Some(Opcode::FUNCCW),
            _ => None,
        }
    }

    /// Whether this operation takes the AD form: under the operand-mode
    /// table, every operation does except the call and iterator-call
    /// family.
    pub fn uses_ad_format(self) -> (r: bool)
        ensures
            r == spec_uses_ad_format(self),
    {
        match self {
            Opcode::CALLM | Opcode::CALL | Opcode::CALLMT | Opcode::CALLT | Opcode::ITERC | Opcode::ITERN => false,
            _ => true,
        }
    }
}

impl Instruction {
    /// Decode an instruction from its raw 32-bit word; the word's opcode
    /// field must be inside the closed set.
    pub fn decode(raw: u32) -> (r: Instruction)
        requires
            spec_decode(raw) is Some,
        ensures
            Some(r) == spec_decode(raw),
            spec_wf(r),
    {
        proof {
            lemma_decode_wf(raw);
            lemma_fields_in_range(raw);
        }
        let opval = raw & 0xff;
        let op = match Opcode::from_u8(opval as u8) {
            Some(op) => op,
            None => Opcode::ISLT,
        };
        let a = ((raw >> 8) & 0xff) as u8;
        if op.uses_ad_format() {
            let d = ((raw >> 16) & 0xffff) as u16;
            if matches!(op, Opcode::JMP) {
                Instruction::AJ(op, a, (d as i32) - BCBIAS_J)
            } else {
                Instruction::AD(op, a, d)
            }
        } else {
            let b = ((raw >> 24) & 0xff) as u8;
            let c = ((raw >> 16) & 0xff) as u8;
            Instruction::ABC(op, a, b, c)
        }
    }

    /// Decode an instruction, rejecting a word whose opcode field is
    /// outside the closed set as an invalid tag.
    pub fn try_decode(raw: u32) -> (r: Result<Instruction, CodecError>)
        ensures
            match r {
                Ok(i) => Some(i) == spec_decode(raw) && spec_wf(i),
                Err(e) => spec_decode(raw) is None && e == CodecError::InvalidTag,
            },
    {
        proof {
            lemma_fields_in_range(raw);
        }
        let opval = raw & 0xff;
        match Opcode::from_u8(opval as u8) {
            Some(op) => Ok(Self::decode(raw)),
            None => Err(CodecError::InvalidTag),
        }
    }

    /// Encode a constructible instruction into its raw 32-bit word.
    pub fn encode(inst: Instruction) -> (r: u32)
        requires
            spec_wf(inst),
        ensures
            r == spec_encode(inst),
            spec_decode(r) == Some(inst),
    {
        proof {
            lemma_decode_encode(inst);
        }
        match inst {
            Instruction::ABC(op, a, b, c) => {
                let o = op.value() as u32;
                o | ((a as u32) << 8) | ((c as u32) << 16) | ((b as u32) << 24)
            },
            Instruction::AD(op, a, d) => {
                let o = op.value() as u32;
                o | ((a as u32) << 8) | ((d as u32) << 16)
            },
            Instruction::AJ(op, a, j) => {
                let o = op.value() as u32;
                let d = (j + BCBIAS_J) as u32;
                o | ((a as u32) << 8) | (d << 16)
            },
        }
    }
}

/// What reading one instruction at `pos` yields: a 32-bit word in the
/// context's byte order, decoded through the opcode table.
pub open spec fn spec_read_instr(b: Seq<u8>, pos: int, ctx: crate::luajit::ctx::BytecodeContext) -> Result<
    (Instruction, int),
    CodecError,
> {
    match crate::reader::spec_read_u32(b, pos, ctx.endian) {
        Ok((w, q)) => match spec_decode(w) {
            Some(i) => Ok((i, q)),
            None => Err(CodecError::InvalidTag),
        },
        Err(e) => Err(e),
    }
}

impl Instruction {
    /// Reads one instruction at `offset`.
    pub fn read(src: &[u8], offset: usize, ctx: crate::luajit::ctx::BytecodeContext) -> (r: Result<
        (Instruction, usize),
        CodecError,
    >)
        ensures
            match r {
                Ok((i, n)) => spec_read_instr(src@, offset as int, ctx) == Ok::<
                    (Instruction, int),
                    CodecError,
                >((i, n as int)) && spec_wf(i) && offset <= n <= src@.len(),
                Err(e) => spec_read_instr(src@, offset as int, ctx) == Err::<
                    (Instruction, int),
                    CodecError,
                >(e),
            },
    {
        match crate::reader::read_u32(src, offset, ctx.endian) {
            Ok((w, q)) => match Instruction::try_decode(w) {
                Ok(i) => Ok((i, q)),
                Err(e) => Err(e),
            },
            Err(e) => Err(e),
        }
    }
}

/// Reads `n` consecutive instructions.
#[verifier::loop_isolation(false)]
pub fn read_instr_list(src: &[u8], offset: usize, n: usize, ctx: crate::luajit::ctx::BytecodeContext) -> (r: Result<
    (Vec<Instruction>, usize),
    CodecError,
>)
    requires
        offset <= src@.len(),
    ensures
        ({
            let s = crate::codec::spec_read_list(
                offset as int,
                n as nat,
                |p: int| spec_read_instr(src@, p, ctx),
                Seq::<Instruction>::empty(),
            );
            match r {
                Ok((v, m)) => s == Ok::<(Seq<Instruction>, int), CodecError>((v@, m as int))
                    && offset <= m <= src@.len() && v@.len() == n && (forall|j: int|
                    0 <= j < v@.len() ==> spec_wf(#[trigger] v@[j])),
                Err(err) => s == Err::<(Seq<Instruction>, int), CodecError>(err),
            }
        }),
{
    let ghost f = |p: int| spec_read_instr(src@, p, ctx);
    let mut out: Vec<Instruction> = Vec::new();
    let mut pos: usize = offset;
    let mut i: usize = 0;
    while i < n
        invariant
            0 <= i <= n,
            offset <= pos <= src@.len(),
            out@.len() == i,
            forall|j: int| 0 <= j < out@.len() ==> spec_wf(#[trigger] out@[j]),
            crate::codec::spec_read_list(pos as int, (n - i) as nat, f, out@)
                == crate::codec::spec_read_list(
                offset as int,
                n as nat,
                f,
                Seq::<Instruction>::empty(),
            ),
        decreases n - i,
    {
        match Instruction::read(src, pos, ctx) {
            Ok((x, q)) => {
                out.push(x);
                pos = q;
                i = i + 1;
            },
            Err(err) => {
                return Err(err);
            },
        }
    }
    Ok((out, pos))
}

} // verus!

verus! {

impl Instruction {
    /// Writes this instruction's 32-bit word at `offset` in the
    /// context's byte order.  Fails, leaving the buffer untouched, when
    /// there is no room.
    pub fn write(self, dst: &mut [u8], offset: &mut usize, ctx: crate::luajit::ctx::BytecodeContext) -> (r: Result<
        usize,
        CodecError,
    >)
        requires
            spec_wf(self),
        ensures
            r is Ok <==> *old(offset) + 4 <= old(dst)@.len(),
            r is Ok ==> {
                &&& r == Ok::<usize, CodecError>(4usize)
                &&& *final(offset) == *old(offset) + 4
                &&& final(dst)@ == crate::reader::spec_store(
                    old(dst)@,
                    *old(offset) as int,
                    crate::reader::spec_u32_bytes(spec_encode(self), ctx.endian),
                )
            },
            r is Err ==> {
                &&& r == Err::<usize, CodecError>(CodecError::Truncated)
                &&& *final(offset) == *old(offset)
                &&& final(dst)@ == old(dst)@
            },
    {
        let w = Instruction::encode(self);
        match crate::reader::write_u32(dst, offset, w, ctx.endian) {
            Ok(()) => Ok(4),
            Err(e) => Err(e),
        }
    }
}

} // verus!
