//! The Lua 5.1 instruction codec: a closed set of 38 opcodes, each using
//! one of three operand shapes, packed into a 32-bit word with a 6-bit
//! opcode, an 8-bit A field and two 9-bit B and C fields.

use vstd::prelude::*;
use crate::CommonCtx;
use crate::error::CodecError;
use crate::pack::InstrShape;
use crate::pack::MAXARG_SBX;
use crate::pack::a_of;
use crate::pack::b_of;
use crate::pack::bx_of;
use crate::pack::c_of;
use crate::pack::lemma_fields_in_range;
use crate::pack::lemma_pack_covers;
use crate::pack::lemma_pack_extracts;
use crate::pack::op_of;
use crate::pack::spec_a_of;
use crate::pack::spec_b_of;
use crate::pack::spec_bx_of;
use crate::pack::spec_c_of;
use crate::pack::spec_op_of;
use crate::pack::spec_pack_abc;
use crate::pack::spec_pack_abx;

verus! {

/// A decoded Lua 5.1 instruction, as one of the operand shapes the
/// version uses: invalid field combinations are unrepresentable.
#[derive(Debug, Copy, Clone, PartialEq, Eq, Structural)]
#[allow(non_camel_case_types)]
pub enum Instruction {
    iABC(Opcode, u8, u16, u16),
    iABx(Opcode, u8, u32),
    iAsBx(Opcode, u8, i32),
}

/// The closed Lua 5.1 opcode set, in wire order: an opcode's position in
/// this list is its value in the low six bits of an instruction word.
#[derive(Debug, Copy, Clone, PartialEq, Eq, Structural)]
#[allow(non_camel_case_types)]
pub enum Opcode {
    OP_MOVE,
    OP_LOADK,
    OP_LOADBOOL,
    OP_LOADNIL,
    OP_GETUPVAL,
    OP_GETGLOBAL,
    OP_GETTABLE,
    OP_SETGLOBAL,
    OP_SETUPVAL,
    OP_SETTABLE,
    OP_NEWTABLE,
    OP_SELF,
    OP_ADD,
    OP_SUB,
    OP_MUL,
    OP_DIV,
    OP_MOD,
    OP_POW,
    OP_UNM,
    OP_NOT,
    OP_LEN,
    OP_CONCAT,
    OP_JMP,
    OP_EQ,
    OP_LT,
    OP_LE,
    OP_TEST,
    OP_TESTSET,
    OP_CALL,
    OP_TAILCALL,
    OP_RETURN,
    OP_FORLOOP,
    OP_FORPREP,
    OP_TFORLOOP,
    OP_SETLIST,
    OP_CLOSE,
    OP_CLOSURE,
    OP_VARARG,
}

/// The wire value of an opcode.
pub open spec fn spec_opcode_value(op: Opcode) -> u8 {
    match op {
        Opcode::OP_MOVE => 0,
        Opcode::OP_LOADK => 1,
        Opcode::OP_LOADBOOL => 2,
        Opcode::OP_LOADNIL => 3,
        Opcode::OP_GETUPVAL => 4,
        Opcode::OP_GETGLOBAL => 5,
        Opcode::OP_GETTABLE => 6,
        Opcode::OP_SETGLOBAL => 7,
        Opcode::OP_SETUPVAL => 8,
        Opcode::OP_SETTABLE => 9,
        Opcode::OP_NEWTABLE => 10,
        Opcode::OP_SELF => 11,
        Opcode::OP_ADD => 12,
        Opcode::OP_SUB => 13,
        Opcode::OP_MUL => 14,
        Opcode::OP_DIV => 15,
        Opcode::OP_MOD => 16,
        Opcode::OP_POW => 17,
        Opcode::OP_UNM => 18,
        Opcode::OP_NOT => 19,
        Opcode::OP_LEN => 20,
        Opcode::OP_CONCAT => 21,
        Opcode::OP_JMP => 22,
        Opcode::OP_EQ => 23,
        Opcode::OP_LT => 24,
        Opcode::OP_LE => 25,
        Opcode::OP_TEST => 26,
        Opcode::OP_TESTSET => 27,
        Opcode::OP_CALL => 28,
        Opcode::OP_TAILCALL => 29,
        Opcode::OP_RETURN => 30,
        Opcode::OP_FORLOOP => 31,
        Opcode::OP_FORPREP => 32,
        Opcode::OP_TFORLOOP => 33,
        Opcode::OP_SETLIST => 34,
        Opcode::OP_CLOSE => 35,
        Opcode::OP_CLOSURE => 36,
        Opcode::OP_VARARG => 37,
    }
}

/// The opcode a wire value names, if it is inside the closed set.
pub open spec fn spec_opcode_from(v: u8) -> Option<Opcode> {
    match v {
        0u8 => Some(Opcode::OP_MOVE),
        1u8 => Some(Opcode::OP_LOADK),
        2u8 => Some(Opcode::OP_LOADBOOL),
        3u8 => Some(Opcode::OP_LOADNIL),
        4u8 => Some(Opcode::OP_GETUPVAL),
        5u8 => Some(Opcode::OP_GETGLOBAL),
        6u8 => Some(Opcode::OP_GETTABLE),
        7u8 => Some(Opcode::OP_SETGLOBAL),
        8u8 => Some(Opcode::OP_SETUPVAL),
        9u8 => Some(Opcode::OP_SETTABLE),
        10u8 => Some(Opcode::OP_NEWTABLE),
        11u8 => Some(Opcode::OP_SELF),
        12u8 => Some(Opcode::OP_ADD),
        13u8 => Some(Opcode::OP_SUB),
        14u8 => Some(Opcode::OP_MUL),
        15u8 => Some(Opcode::OP_DIV),
        16u8 => Some(Opcode::OP_MOD),
        17u8 => Some(Opcode::OP_POW),
        18u8 => Some(Opcode::OP_UNM),
        19u8 => Some(Opcode::OP_NOT),
        20u8 => Some(Opcode::OP_LEN),
        21u8 => Some(Opcode::OP_CONCAT),
        22u8 => Some(Opcode::OP_JMP),
        23u8 => Some(Opcode::OP_EQ),
        24u8 => Some(Opcode::OP_LT),
        25u8 => Some(Opcode::OP_LE),
        26u8 => Some(Opcode::OP_TEST),
        27u8 => Some(Opcode::OP_TESTSET),
        28u8 => Some(Opcode::OP_CALL),
        29u8 => Some(Opcode::OP_TAILCALL),
        30u8 => Some(Opcode::OP_RETURN),
        31u8 => Some(Opcode::OP_FORLOOP),
        32u8 => Some(Opcode::OP_FORPREP),
        33u8 => Some(Opcode::OP_TFORLOOP),
        34u8 => Some(Opcode::OP_SETLIST),
        35u8 => Some(Opcode::OP_CLOSE),
        36u8 => Some(Opcode::OP_CLOSURE),
        37u8 => Some(Opcode::OP_VARARG),
        _ => None,
    }
}

/// Which operand shape each opcode uses: a static table, consulted before
/// the remaining bits are interpreted.
pub open spec fn spec_shape_of(op: Opcode) -> InstrShape {
    match op {
        Opcode::OP_LOADK | Opcode::OP_GETGLOBAL | Opcode::OP_SETGLOBAL | Opcode::OP_CLOSURE
            => InstrShape::Abx,
        Opcode::OP_JMP | Opcode::OP_FORLOOP | Opcode::OP_FORPREP => InstrShape::Asbx,
        _ => InstrShape::Abc,
    }
}

/// A constructible instruction: its shape agrees with its opcode's table
/// entry and every operand lies within its wire field.
pub open spec fn spec_wf(inst: Instruction) -> bool {
    match inst {
        Instruction::iABC(op, a, b, c) => spec_shape_of(op) == InstrShape::Abc && b < 512 && c
            < 512,
        Instruction::iABx(op, a, bx) => spec_shape_of(op) == InstrShape::Abx && bx < 0x40000,
        Instruction::iAsBx(op, a, sbx) => spec_shape_of(op) == InstrShape::Asbx && -0x1ffff <= sbx
            <= 0x20000,
    }
}

/// What decoding a 32-bit word yields: the instruction, or nothing when
/// the opcode field is outside the closed set.
pub open spec fn spec_decode(w: u32) -> Option<Instruction> {
    match spec_opcode_from(spec_op_of(w) as u8) {
        Some(op) => Some(
            match spec_shape_of(op) {
                InstrShape::Abx => Instruction::iABx(op, spec_a_of(w) as u8, spec_bx_of(w)),
                InstrShape::Asbx => Instruction::iAsBx(
                    op,
                    spec_a_of(w) as u8,
                    (spec_bx_of(w) - MAXARG_SBX) as i32,
                ),
                _ => Instruction::iABC(
                    op,
                    spec_a_of(w) as u8,
                    spec_b_of(w) as u16,
                    spec_c_of(w) as u16,
                ),
            },
        ),
        None => None,
    }
}

/// What encoding an instruction yields: its fields packed back into a
/// 32-bit word, the bias added to a signed offset.
pub open spec fn spec_encode(inst: Instruction) -> u32 {
    match inst {
        Instruction::iABC(op, a, b, c) => spec_pack_abc(
            spec_opcode_value(op) as u32,
            a as u32,
            b as u32,
            c as u32,
        ),
        Instruction::iABx(op, a, bx) => spec_pack_abx(spec_opcode_value(op) as u32, a as u32, bx),
        Instruction::iAsBx(op, a, sbx) => spec_pack_abx(
            spec_opcode_value(op) as u32,
            a as u32,
            (sbx + MAXARG_SBX) as u32,
        ),
    }
}

/// Wire values round-trip through the opcode table.
pub proof fn lemma_opcode_from_value(op: Opcode)
    ensures
        spec_opcode_from(spec_opcode_value(op)) == Some(op),
        spec_opcode_value(op) < 64,
{
}

/// Everything the decoder produces is a constructible instruction.
pub proof fn lemma_decode_wf(w: u32)
    ensures
        spec_decode(w) matches Some(inst) ==> spec_wf(inst),
{
    lemma_fields_in_range(w);
}

/// The instruction round trip, wire side: re-encoding a decoded word
/// yields the word, for every word whose opcode is in the closed set.
pub proof fn lemma_encode_decode(w: u32)
    requires
        spec_decode(w) is Some,
    ensures
        spec_encode(spec_decode(w)->Some_0) == w,
{
    lemma_fields_in_range(w);
    lemma_pack_covers(w);
    let op = spec_decode(w)->Some_0->iAsBx_0;
    if spec_decode(w)->Some_0 is iAsBx {
        assert(spec_op_of(w) == spec_opcode_value(op));
        assert((((spec_bx_of(w) - MAXARG_SBX) as i32) + MAXARG_SBX) as u32 == spec_bx_of(w));
    }
}

/// The instruction round trip, value side: decoding an encoded
/// instruction yields the instruction, for every constructible one.
pub proof fn lemma_decode_encode(inst: Instruction)
    requires
        spec_wf(inst),
    ensures
        spec_decode(spec_encode(inst)) == Some(inst),
{
    match inst {
        Instruction::iABC(op, a, b, c) => {
            lemma_opcode_from_value(op);
            lemma_pack_extracts(spec_opcode_value(op) as u32, a as u32, b as u32, c as u32, 0, 0);
        },
        Instruction::iABx(op, a, bx) => {
            lemma_opcode_from_value(op);
            lemma_pack_extracts(spec_opcode_value(op) as u32, a as u32, 0, 0, bx, 0);
        },
        Instruction::iAsBx(op, a, sbx) => {
            lemma_opcode_from_value(op);
            lemma_pack_extracts(
                spec_opcode_value(op) as u32,
                a as u32,
                0,
                0,
                (sbx + MAXARG_SBX) as u32,
                0,
            );
        },
    }
}

impl Opcode {
    /// The wire value of this opcode.
    pub fn value(self) -> (r: u8)
        ensures
            r == spec_opcode_value(self),
            r < 64,
    {
        match self {
            Opcode::OP_MOVE => 0,
            Opcode::OP_LOADK => 1,
            Opcode::OP_LOADBOOL => 2,
            Opcode::OP_LOADNIL => 3,
            Opcode::OP_GETUPVAL => 4,
            Opcode::OP_GETGLOBAL => 5,
            Opcode::OP_GETTABLE => 6,
            Opcode::OP_SETGLOBAL => 7,
            Opcode::OP_SETUPVAL => 8,
            Opcode::OP_SETTABLE => 9,
            Opcode::OP_NEWTABLE => 10,
            Opcode::OP_SELF => 11,
            Opcode::OP_ADD => 12,
            Opcode::OP_SUB => 13,
            Opcode::OP_MUL => 14,
            Opcode::OP_DIV => 15,
            Opcode::OP_MOD => 16,
            Opcode::OP_POW => 17,
            Opcode::OP_UNM => 18,
            Opcode::OP_NOT => 19,
            Opcode::OP_LEN => 20,
            Opcode::OP_CONCAT => 21,
            Opcode::OP_JMP => 22,
            Opcode::OP_EQ => 23,
            Opcode::OP_LT => 24,
            Opcode::OP_LE => 25,
            Opcode::OP_TEST => 26,
            Opcode::OP_TESTSET => 27,
            Opcode::OP_CALL => 28,
            Opcode::OP_TAILCALL => 29,
            Opcode::OP_RETURN => 30,
            Opcode::OP_FORLOOP => 31,
            Opcode::OP_FORPREP => 32,
            Opcode::OP_TFORLOOP => 33,
            Opcode::OP_SETLIST => 34,
            Opcode::OP_CLOSE => 35,
            Opcode::OP_CLOSURE => 36,
            Opcode::OP_VARARG => 37,
        }
    }

    /// The opcode a wire value names, or nothing outside the closed set.
    pub fn from_u8(v: u8) -> (r: Option<Opcode>)
        ensures
            r == spec_opcode_from(v),
    {
        match v {
            0u8 => Some(Opcode::OP_MOVE),
            1u8 => Some(Opcode::OP_LOADK),
            2u8 => Some(Opcode::OP_LOADBOOL),
            3u8 => Some(Opcode::OP_LOADNIL),
            4u8 => Some(Opcode::OP_GETUPVAL),
            5u8 => Some(Opcode::OP_GETGLOBAL),
            6u8 => Some(Opcode::OP_GETTABLE),
            7u8 => Some(Opcode::OP_SETGLOBAL),
            8u8 => Some(Opcode::OP_SETUPVAL),
            9u8 => Some(Opcode::OP_SETTABLE),
            10u8 => Some(Opcode::OP_NEWTABLE),
            11u8 => Some(Opcode::OP_SELF),
            12u8 => Some(Opcode::OP_ADD),
            13u8 => Some(Opcode::OP_SUB),
            14u8 => Some(Opcode::OP_MUL),
            15u8 => Some(Opcode::OP_DIV),
            16u8 => Some(Opcode::OP_MOD),
            17u8 => Some(Opcode::OP_POW),
            18u8 => Some(Opcode::OP_UNM),
            19u8 => Some(Opcode::OP_NOT),
            20u8 => Some(Opcode::OP_LEN),
            21u8 => Some(Opcode::OP_CONCAT),
            22u8 => Some(Opcode::OP_JMP),
            23u8 => Some(Opcode::OP_EQ),
            24u8 => Some(Opcode::OP_LT),
            25u8 => Some(Opcode::OP_LE),
            26u8 => Some(Opcode::OP_TEST),
            27u8 => Some(Opcode::OP_TESTSET),
            28u8 => Some(Opcode::OP_CALL),
            29u8 => Some(Opcode::OP_TAILCALL),
            30u8 => Some(Opcode::OP_RETURN),
            31u8 => Some(Opcode::OP_FORLOOP),
            32u8 => Some(Opcode::OP_FORPREP),
            33u8 => Some(Opcode::OP_TFORLOOP),
            34u8 => Some(Opcode::OP_SETLIST),
            35u8 => Some(Opcode::OP_CLOSE),
            36u8 => Some(Opcode::OP_CLOSURE),
            37u8 => Some(Opcode::OP_VARARG),
            _ => None,
        }
    }

    /// Which operand shape this opcode uses.
    pub fn shape(self) -> (r: InstrShape)
        ensures
            r == spec_shape_of(self),
    {
        match self {
            Opcode::OP_LOADK | Opcode::OP_GETGLOBAL | Opcode::OP_SETGLOBAL | Opcode::OP_CLOSURE
                => InstrShape::Abx,
            Opcode::OP_JMP | Opcode::OP_FORLOOP | Opcode::OP_FORPREP => InstrShape::Asbx,
            _ => InstrShape::Abc,
        }
    }
}

impl Instruction {
    /// Decode an instruction from its raw 32-bit word; the word's opcode
    /// field must be inside the closed set.
    pub fn decode(inst: u32) -> (r: Instruction)
        requires
            spec_decode(inst) is Some,
        ensures
            Some(r) == spec_decode(inst),
            spec_wf(r),
    {
        proof {
            lemma_decode_wf(inst);
        }
        let opval = op_of(inst);
        let op = match Opcode::from_u8(opval as u8) {
            Some(op) => op,
            None => Opcode::OP_MOVE,
        };
        let a = a_of(inst) as u8;
        match op.shape() {
            InstrShape::Abx => Instruction::iABx(op, a, bx_of(inst)),
            InstrShape::Asbx => {
                let sbx: i32 = (bx_of(inst) as i32) - (MAXARG_SBX as i32);
                Instruction::iAsBx(op, a, sbx)
            },
            _ => Instruction::iABC(op, a, b_of(inst) as u16, c_of(inst) as u16),
        }
    }

    /// Decode an instruction, rejecting a word whose opcode field is
    /// outside the closed set as an invalid tag.
    pub fn try_decode(inst: u32) -> (r: Result<Instruction, CodecError>)
        ensures
            match r {
                Ok(i) => Some(i) == spec_decode(inst) && spec_wf(i),
                Err(e) => spec_decode(inst) is None && e == CodecError::InvalidTag,
            },
    {
        let opval = op_of(inst);
        match Opcode::from_u8(opval as u8) {
            Some(op) => Ok(Self::decode(inst)),
            None => Err(CodecError::InvalidTag),
        }
    }

    /// Encode a constructible instruction into its raw 32-bit word.
    pub fn encode(instruction: Instruction) -> (r: u32)
        requires
            spec_wf(instruction),
        ensures
            r == spec_encode(instruction),
            spec_decode(r) == Some(instruction),
    {
        proof {
            lemma_decode_encode(instruction);
        }
        match instruction {
            Instruction::iABC(op, a, b, c) => {
                let o = op.value() as u32;
                o | ((a as u32) << 6) | ((c as u32) << 14) | ((b as u32) << 23)
            },
            Instruction::iABx(op, a, bx) => {
                let o = op.value() as u32;
                o | ((a as u32) << 6) | (bx << 14)
            },
            Instruction::iAsBx(op, a, sbx) => {
                let o = op.value() as u32;
                let bx = (sbx + (MAXARG_SBX as i32)) as u32;
                o | ((a as u32) << 6) | (bx << 14)
            },
        }
    }
}

} // verus!

verus! {

/// What reading one instruction at `pos` yields: a 32-bit word in the
/// context's byte order, decoded through the opcode table; an opcode
/// outside the closed set is an invalid tag.
pub open spec fn spec_read_instr(b: Seq<u8>, pos: int, ctx: CommonCtx) -> Result<
    (Instruction, int),
    CodecError,
> {
    match crate::reader::spec_read_u32(b, pos, ctx.endianness) {
        Ok((w, q)) => match spec_decode(w) {
            Some(i) => Ok((i, q)),
            None => Err(CodecError::InvalidTag),
        },
        Err(e) => Err(e),
    }
}

impl Instruction {
    /// Reads one instruction at `offset`.
    pub fn read(src: &[u8], offset: usize, ctx: CommonCtx) -> (r: Result<
        (Instruction, usize),
        CodecError,
    >)
        ensures
            match r {
                Ok((i, n)) => spec_read_instr(src@, offset as int, ctx) == Ok::<
                    (Instruction, int),
                    CodecError,
                >((i, n as int)) && spec_wf(i) && offset <= n <= src@.len(),
                Err(e) => spec_read_instr(src@, offset as int, ctx) == Err::<
                    (Instruction, int),
                    CodecError,
                >(e),
            },
    {
        match crate::reader::read_u32(src, offset, ctx.endianness) {
            Ok((w, q)) => match Instruction::try_decode(w) {
                Ok(i) => Ok((i, q)),
                Err(e) => Err(e),
            },
            Err(e) => Err(e),
        }
    }
}

/// Reads `n` consecutive instructions.
#[verifier::loop_isolation(false)]
pub fn read_instr_list(src: &[u8], offset: usize, n: usize, ctx: CommonCtx) -> (r: Result<
    (Vec<Instruction>, usize),
    CodecError,
>)
    requires
        offset <= src@.len(),
    ensures
        ({
            let s = crate::codec::spec_read_list(
                offset as int,
                n as nat,
                |p: int| spec_read_instr(src@, p, ctx),
                Seq::<Instruction>::empty(),
            );
            match r {
                Ok((v, m)) => s == Ok::<(Seq<Instruction>, int), CodecError>((v@, m as int))
                    && offset <= m <= src@.len() && v@.len() == n && (forall|j: int|
                    0 <= j < v@.len() ==> spec_wf(#[trigger] v@[j])),
                Err(err) => s == Err::<(Seq<Instruction>, int), CodecError>(err),
            }
        }),
{
    let ghost f = |p: int| spec_read_instr(src@, p, ctx);
    let mut out: Vec<Instruction> = Vec::new();
    let mut pos: usize = offset;
    let mut i: usize = 0;
    while i < n
        invariant
            0 <= i <= n,
            offset <= pos <= src@.len(),
            out@.len() == i,
            forall|j: int| 0 <= j < out@.len() ==> spec_wf(#[trigger] out@[j]),
            crate::codec::spec_read_list(pos as int, (n - i) as nat, f, out@)
                == crate::codec::spec_read_list(
                offset as int,
                n as nat,
                f,
                Seq::<Instruction>::empty(),
            ),
        decreases n - i,
    {
        match Instruction::read(src, pos, ctx) {
            Ok((x, q)) => {
                out.push(x);
                pos = q;
                i = i + 1;
            },
            Err(err) => {
                return Err(err);
            },
        }
    }
    Ok((out, pos))
}

} // verus!

verus! {

impl Instruction {
    /// Writes this instruction's 32-bit word at `offset` in the
    /// context's byte order.  Fails, leaving the buffer untouched, when
    /// there is no room.
    pub fn write(self, dst: &mut [u8], offset: &mut usize, ctx: CommonCtx) -> (r: Result<
        usize,
        CodecError,
    >)
        requires
            spec_wf(self),
        ensures
            r is Ok <==> *old(offset) + 4 <= old(dst)@.len(),
            r is Ok ==> {
                &&& r == Ok::<usize, CodecError>(4usize)
                &&& *final(offset) == *old(offset) + 4
                &&& final(dst)@ == crate::reader::spec_store(
                    old(dst)@,
                    *old(offset) as int,
                    crate::reader::spec_u32_bytes(spec_encode(self), ctx.endianness),
                )
            },
            r is Err ==> {
                &&& r == Err::<usize, CodecError>(CodecError::Truncated)
                &&& *final(offset) == *old(offset)
                &&& final(dst)@ == old(dst)@
            },
    {
        let w = Instruction::encode(self);
        match crate::reader::write_u32(dst, offset, w, ctx.endianness) {
            Ok(()) => Ok(4),
            Err(e) => Err(e),
        }
    }
}

} // verus!
