//! End-to-end chunk decodes for all four Lua versions, plus the
//! malformed-input and invalid-tag failure paths.

use luasleuth::error::CodecError;
use luasleuth::reader::{read_u32, read_u64};
use luasleuth::Endianness;

/// A minimal single-function 5.1 dump: empty constant pool, no nested
/// prototypes, one implicit return instruction.
fn dump51() -> Vec<u8> {
    vec![
        0x1B, 0x4C, 0x75, 0x61, 0x51, 0, 1, 4, 4, 4, 8, 0, // header
        0, 0, 0, 0, // source: absent
        0, 0, 0, 0, // line_defined
        0, 0, 0, 0, // last_line_defined
        0, 0, 0, 2, // nups, nparams, vararg, maxstack
        1, 0, 0, 0, // one instruction
        0x1E, 0x00, 0x80, 0x00, // RETURN 0 1
        0, 0, 0, 0, // no constants
        0, 0, 0, 0, // no nested prototypes
        0, 0, 0, 0, // no line info
        0, 0, 0, 0, // no locals
        0, 0, 0, 0, // no upvalue names
    ]
}

#[test]
fn test_lua51_minimal_dump() {
    let bytes = dump51();
    let bc = luasleuth::lua51::Disassembler::new(&bytes).disassemble().expect("decode");
    assert_eq!(bc.header.version.into_tuple(), (5, 1));
    assert_eq!(bc.header.size_of_size_t, 4);
    assert_eq!(bc.header.size_of_lua_number, 8);
    let p = bc.prototype;
    assert_eq!(p.source.size, 0);
    assert_eq!(p.line_defined, 0);
    assert_eq!(p.is_vararg, 0);
    assert_eq!(p.code.size, 1);
    assert_eq!(p.code.data.len(), 1);
    assert_eq!(p.constants.size, 0);
    assert_eq!(p.constants.data.len(), 0);
    assert_eq!(p.prototypes.size, 0);
}

#[test]
fn test_lua51_truncated_mid_instruction_array() {
    // Cutting the dump inside the instruction array must fail with the
    // truncated-input error kind, not panic or zero-fill.
    let bytes = dump51();
    let cut = &bytes[..34];
    let r = luasleuth::lua51::Disassembler::new(cut).disassemble();
    assert!(matches!(r, Err(CodecError::Truncated)));
}

#[test]
fn test_lua51_bad_signature() {
    let mut bytes = dump51();
    bytes[1] = b'X';
    let r = luasleuth::lua51::Disassembler::new(&bytes).disassemble();
    assert!(matches!(r, Err(CodecError::InvalidTag)));
}

#[test]
fn test_lua51_unsupported_version_tag() {
    let mut bytes = dump51();
    bytes[4] = 0x50;
    let r = luasleuth::lua51::Disassembler::new(&bytes).disassemble();
    assert!(matches!(r, Err(CodecError::UnsupportedVersion)));
}

#[test]
fn test_lua51_corrupt_constant_tag() {
    // The same dump with one number constant; corrupting its tag byte to
    // a value outside the closed set must fail as an invalid tag.
    let mut bytes = vec![
        0x1B, 0x4C, 0x75, 0x61, 0x51, 0, 1, 4, 4, 4, 8, 0, // header
        0, 0, 0, 0, // source: absent
        0, 0, 0, 0, 0, 0, 0, 0, // line range
        0, 0, 0, 2, // scalars
        1, 0, 0, 0, 0x1E, 0x00, 0x80, 0x00, // code
        1, 0, 0, 0, // one constant
        3, 0x1F, 0x85, 0xEB, 0x51, 0xB8, 0x1E, 0x09, 0x40, // number 3.14
        0, 0, 0, 0, // no nested prototypes
        0, 0, 0, 0, 0, 0, 0, 0, 0, 0, 0, 0, // empty debug tables
    ];
    let ok = luasleuth::lua51::Disassembler::new(&bytes).disassemble().expect("decode");
    assert_eq!(ok.prototype.constants.size, 1);
    assert!(matches!(
        ok.prototype.constants.data[0],
        luasleuth::lua51::constants::Constant::Number(_)
    ));
    bytes[40] = 7;
    let r = luasleuth::lua51::Disassembler::new(&bytes).disassemble();
    assert!(matches!(r, Err(CodecError::InvalidTag)));
}

#[test]
fn test_lua51_corrupt_opcode() {
    let mut bytes = dump51();
    // Overwrite the instruction word with an out-of-range opcode value.
    bytes[32] = 0x3F;
    let r = luasleuth::lua51::Disassembler::new(&bytes).disassemble();
    assert!(matches!(r, Err(CodecError::InvalidTag)));
}

/// A 5.2 chunk whose prototype was compiled from "@.\\example.lua".
fn dump52() -> Vec<u8> {
    vec![
        0x1B, 0x4C, 0x75, 0x61, 0x52, 0, 1, 4, 8, 4, 8, 0, // header
        0x19, 0x93, 0x0D, 0x0A, 0x1A, 0x0A, // error correction data
        0, 0, 0, 0, 0, 0, 0, 0, // line range
        0, 1, 2, // nparams, vararg, maxstack
        1, 0, 0, 0, 0x1F, 0x00, 0x80, 0x00, // one RETURN
        0, 0, 0, 0, // no constants
        0, 0, 0, 0, // no nested prototypes
        0, 0, 0, 0, // no upvalues
        15, 0, 0, 0, 0, 0, 0, 0, // debug source: length 15 at size_t 8
        0x40, 0x2E, 0x5C, 0x65, 0x78, 0x61, 0x6D, 0x70, 0x6C, 0x65, 0x2E, 0x6C, 0x75, 0x61,
        0, // "@.\example.lua" and its trailing zero
        0, 0, 0, 0, 0, 0, 0, 0, 0, 0, 0, 0, // empty debug tables
    ]
}

#[test]
fn test_can_parse_bytecode_file() {
    let bytes = dump52();
    let bc = luasleuth::lua52::Disassembler::new(&bytes).disassemble().expect("decode");
    assert_eq!(bc.header.size_of_size_t, 8);
    assert_eq!(bc.header.version.into_tuple(), (5, 2));
    let p = bc.prototype;
    assert_eq!(p.debug_info.source.data, b"@.\\example.lua".to_vec());
    assert_eq!(p.line_defined, 0);
    assert_eq!(p.last_line_defined, 0);
    assert_eq!(p.number_of_parameters, 0);
    assert_eq!(p.is_vararg, 1);
    assert_eq!(p.max_stack_size, 2);
}

/// A 5.3 chunk with source "@example.lua", one parameter, vararg set.
fn dump53() -> Vec<u8> {
    vec![
        0x1B, 0x4C, 0x75, 0x61, 0x53, 0, // signature, version, format
        0x19, 0x93, 0x0D, 0x0A, 0x1A, 0x0A, // error correction data
        4, 8, 4, 8, 8, // size fields
        0x78, 0x56, 0, 0, 0, 0, 0, 0, // sample integer 0x5678
        0, 0, 0, 0, 0, 0x28, 0x77, 0x40, // sample float 370.5
        1, // size_of_upvalues
        13, 0x40, 0x65, 0x78, 0x61, 0x6D, 0x70, 0x6C, 0x65, 0x2E, 0x6C, 0x75,
        0x61, // source "@example.lua"
        0, 0, 0, 0, 0, 0, 0, 0, // line range
        1, 1, 2, // nparams, vararg, maxstack
        1, 0, 0, 0, 0x26, 0x00, 0x80, 0x00, // one RETURN
        0, 0, 0, 0, // no constants
        1, 0, 0, 0, 1, 0, // one upvalue: in stack, index 0
        0, 0, 0, 0, // no nested prototypes
        0, 0, 0, 0, 0, 0, 0, 0, 0, 0, 0, 0, // empty debug tables
    ]
}

#[test]
fn test_lua53_dump_matches_exactly() {
    let bytes = dump53();
    let bc = luasleuth::lua53::Disassembler::new(&bytes).disassemble().expect("decode");
    assert_eq!(bc.header.version.into_tuple(), (5, 3), "Got an unexpected Lua version");
    assert_eq!(bc.size_of_upvalues, 1);
    let p = bc.prototype;
    assert_eq!(p.source.data, b"@example.lua".to_vec());
    assert_eq!(p.source.size, 13);
    assert_eq!(p.line_defined, 0);
    assert_eq!(p.last_line_defined, 0);
    assert_eq!(p.number_of_parameters, 1);
    assert_eq!(p.is_vararg, 1);
    assert_eq!(p.max_stack_size, 2);
    assert_eq!(p.instructions.size, 1);
    assert_eq!(p.upvalues.size, 1);
    assert_eq!(p.upvalues.data[0].in_stack, 1);
    assert_eq!(p.upvalues.data[0].index, 0);
}

/// A minimal 5.4 chunk: one return instruction, one upvalue.
fn dump54() -> Vec<u8> {
    vec![
        0x1B, 0x4C, 0x75, 0x61, 0x54, 0, // signature, version, format
        0x19, 0x93, 0x0D, 0x0A, 0x1A, 0x0A, // error correction data
        4, 8, 8, // instruction, integer, number sizes
        0x78, 0x56, 0, 0, 0, 0, 0, 0, // sample integer
        0, 0, 0, 0, 0, 0x28, 0x77, 0x40, // sample float 370.5
        1, // size_of_upvalues
        0x80, // source: absent
        0x80, 0x80, // line range as size varints
        0, 1, 2, // nparams, vararg, maxstack
        0x01, 0x47, 0x00, 0x00, 0x00, // one RETURN0
        0x00, // no constants
        0x01, 1, 0, 0, // one upvalue: in stack, index 0, kind 0
        0x00, // no nested prototypes
        0x00, 0x00, 0x00, 0x00, // empty debug tables
    ]
}

#[test]
fn test_lua54_minimal_dump() {
    let bytes = dump54();
    let bc = luasleuth::lua54::Disassembler::new(&bytes).disassemble().expect("decode");
    assert_eq!(bc.header.version.into_tuple(), (5, 4));
    assert_eq!(bc.size_of_upvalues, 1);
    let p = bc.prototype;
    assert_eq!(p.source.size, 0);
    assert_eq!(p.line_defined.value, 0);
    assert_eq!(p.is_vararg, 1);
    assert_eq!(p.max_stack_size, 2);
    assert_eq!(p.instructions.size, 1);
    assert_eq!(p.upvalues.size, 1);
    assert_eq!(p.upvalues.data[0].kind, 0);
}

#[test]
fn test_lua54_boolean_constants() {
    type Constant = luasleuth::lua54::constants::Constant;
    let c = Constant::Boolean(true);
    assert_eq!(c.get_type(), 17);
    let c = Constant::Boolean(false);
    assert_eq!(c.get_type(), 1);
    let long = luasleuth::string::LuaString::from_bytes(vec![b'a'; 41]);
    assert_eq!(Constant::String(long).get_type(), 20);
    let short = luasleuth::string::LuaString::from_bytes(vec![b'a'; 4]);
    assert_eq!(Constant::String(short).get_type(), 4);
}

#[test]
fn bytecode_binary_test_can_parse_bytecode_file() {
    // A 5.3 chunk whose prototype was compiled from "@.\\example.lua":
    // no parameters, vararg, two stack slots.
    let bytes: Vec<u8> = vec![
        0x1B, 0x4C, 0x75, 0x61, 0x53, 0x00, 0x19, 0x93, 0x0D, 0x0A, 0x1A, 0x0A,
        0x04, 0x08, 0x04, 0x08, 0x08, 0x78, 0x56, 0x00, 0x00, 0x00, 0x00, 0x00,
        0x00, 0x00, 0x00, 0x00, 0x00, 0x00, 0x28, 0x77, 0x40, 0x01, 0x0F, 0x40,
        0x2E, 0x5C, 0x65, 0x78, 0x61, 0x6D, 0x70, 0x6C, 0x65, 0x2E, 0x6C, 0x75,
        0x61, 0x00, 0x00, 0x00, 0x00, 0x00, 0x00, 0x00, 0x00, 0x00, 0x01, 0x02,
        0x01, 0x00, 0x00, 0x00, 0x26, 0x00, 0x80, 0x00, 0x00, 0x00, 0x00, 0x00,
        0x01, 0x00, 0x00, 0x00, 0x01, 0x00, 0x00, 0x00, 0x00, 0x00, 0x00, 0x00,
        0x00, 0x00, 0x00, 0x00, 0x00, 0x00, 0x00, 0x00, 0x00, 0x00,
    ];
    let bytecode = luasleuth::lua53::Disassembler::new(&bytes).disassemble().expect(
        "Failed to read bytecode data",
    );
    assert_eq!(bytecode.header.version.into_tuple(), (5, 3), "Got an unexpected Lua version");
    assert_eq!(bytecode.size_of_upvalues, 1);
    let prototype = bytecode.prototype;
    assert_eq!(prototype.source.data, b"@.\\example.lua".to_vec());
    assert_eq!(prototype.line_defined, 0);
    assert_eq!(prototype.last_line_defined, 0);
    assert_eq!(prototype.number_of_parameters, 0);
    assert_eq!(prototype.is_vararg, 1);
    assert_eq!(prototype.max_stack_size, 2);
}

#[test]
fn test_lua51_nested_prototype() {
    // A root function carrying one nested prototype with its own
    // constant pool and line range.
    let bytes: Vec<u8> = vec![
        0x1B, 0x4C, 0x75, 0x61, 0x51, 0x00, 0x01, 0x04, 0x04, 0x04, 0x08, 0x00,
        0x00, 0x00, 0x00, 0x00, 0x00, 0x00, 0x00, 0x00, 0x00, 0x00, 0x00, 0x00,
        0x00, 0x00, 0x02, 0x02, 0x01, 0x00, 0x00, 0x00, 0x1E, 0x00, 0x80, 0x00,
        0x00, 0x00, 0x00, 0x00, 0x01, 0x00, 0x00, 0x00, 0x00, 0x00, 0x00, 0x00,
        0x07, 0x00, 0x00, 0x00, 0x09, 0x00, 0x00, 0x00, 0x00, 0x01, 0x00, 0x02,
        0x01, 0x00, 0x00, 0x00, 0x1E, 0x00, 0x80, 0x00, 0x01, 0x00, 0x00, 0x00,
        0x01, 0x01, 0x00, 0x00, 0x00, 0x00, 0x00, 0x00, 0x00, 0x00, 0x00, 0x00,
        0x00, 0x00, 0x00, 0x00, 0x00, 0x00, 0x00, 0x00, 0x00, 0x00, 0x00, 0x00,
        0x00, 0x00, 0x00, 0x00, 0x00, 0x00,
    ];
    let bc = luasleuth::lua51::Disassembler::new(&bytes).disassemble().expect("decode");
    let root = bc.prototype;
    assert_eq!(root.prototypes.size, 1);
    assert_eq!(root.prototypes.data.len(), 1);
    let child = &root.prototypes.data[0];
    assert_eq!(child.line_defined, 7);
    assert_eq!(child.last_line_defined, 9);
    assert_eq!(child.number_of_parameters, 1);
    assert_eq!(child.constants.size, 1);
    assert!(matches!(
        child.constants.data[0],
        luasleuth::lua51::constants::Constant::Boolean(true)
    ));
    assert_eq!(child.prototypes.size, 0);
}

#[test]
fn test_reader_big_endian_scalars() {
    let bytes = [0x12u8, 0x34, 0x56, 0x78, 0x9A, 0xBC, 0xDE, 0xF0];
    let (le, _) = read_u32(&bytes, 0, Endianness::Little).expect("read");
    assert_eq!(le, 0x78563412);
    let (be, _) = read_u32(&bytes, 0, Endianness::Big).expect("read");
    assert_eq!(be, 0x12345678);
    let (be64, n) = read_u64(&bytes, 0, Endianness::Big).expect("read");
    assert_eq!(be64, 0x123456789ABCDEF0);
    assert_eq!(n, 8);
}

#[test]
fn test_truncation_at_every_cut_lua51() {
    // The truncation law, exercised: every strict prefix of a valid
    // chunk decodes to exactly the truncated-input error.
    let bytes = dump51();
    for m in 0..bytes.len() {
        let r = luasleuth::lua51::Disassembler::new(&bytes[..m]).disassemble();
        assert!(matches!(r, Err(CodecError::Truncated)), "cut at {}", m);
    }
}

#[test]
fn test_truncation_at_every_cut_other_versions() {
    let dumps: Vec<(u8, Vec<u8>)> = vec![
        (2, dump52()),
        (3, dump53()),
        (4, dump54()),
    ];
    for (minor, bytes) in dumps {
        for m in 0..bytes.len() {
            let cut = &bytes[..m];
            let r = match minor {
                2 => luasleuth::lua52::Disassembler::new(cut).disassemble().err(),
                3 => luasleuth::lua53::Disassembler::new(cut).disassemble().err(),
                _ => luasleuth::lua54::Disassembler::new(cut).disassemble().err(),
            };
            assert!(
                matches!(r, Some(CodecError::Truncated)),
                "5.{} cut at {}",
                minor,
                m
            );
        }
    }
}
