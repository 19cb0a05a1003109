//! The LuaJIT string codec and a small end-to-end chunk decode.

use luasleuth::luajit::jitstring::JitString;

#[test]
fn test_read_success() {
    let data: [u8; 0x0E] = [
        0x12, 0x48, 0x65, 0x6C, 0x6C, 0x6F, 0x2C, 0x20, 0x57, 0x6F, 0x72, 0x6C, 0x64, 0x21,
    ];

    let (string, _) = JitString::read(&data, 0).expect("Failed to read JitString from data");
    assert_eq!(string, JitString::new("Hello, World!"));
}

#[test]
fn test_jitstring_empty_and_bad_tag() {
    // A combined value of exactly the string type constant encodes the
    // empty string.
    let (s, n) = JitString::read(&[0x05], 0).expect("decode");
    assert_eq!(s.size, 0);
    assert!(s.data.is_empty());
    assert_eq!(n, 1);
    assert!(s == JitString::empty());
    // A combined value below the string type constant is not a string.
    assert!(JitString::read(&[0x04], 0).is_err());
}

#[test]
fn test_luajit_chunk() {
    let bytes: Vec<u8> = vec![
        0x1B, 0x4C, 0x4A, 2, // signature, dump version
        0x02, // flags
        0x06, 0x78, // chunk name "x"
        0x00, // prototype length
        0, 0, 1, 0, // flags, parameters, frame size, upvalues
        0x00, 0x00, // constant counts
        0x01, // one instruction
        0x00, 0x00, 0x00, // debug metadata sizes
        0x4B, 0x00, 0x00, 0x00, // RET0
    ];
    let bc = luasleuth::luajit::Disassembler::new(&bytes).disassemble().expect("decode");
    assert_eq!(bc.header.version, 2);
    assert_eq!(bc.header.flags.value(), 2);
    let name = bc.header.chunk_name.expect("chunk name present");
    assert_eq!(name.data, b"x".to_vec());
    let p = bc.prototype;
    assert_eq!(p.frame_size, 1);
    assert_eq!(p.instruction_count.value(), 1);
    assert_eq!(p.instructions.len(), 1);
    assert!(matches!(
        p.instructions[0],
        luasleuth::luajit::instructions::Instruction::AD(
            luasleuth::luajit::instructions::Opcode::RET0,
            0,
            0,
        )
    ));
    assert!(p.debug_metadata.is_some());
}

#[test]
fn test_luajit_stripped_chunk_has_no_name() {
    let bytes: Vec<u8> = vec![
        0x1B, 0x4C, 0x4A, 2, // signature, dump version
        0x00, // flags: no debug data under this codec's flag reading
        0x00, // prototype length
        0, 0, 1, 0, // flags, parameters, frame size, upvalues
        0x00, 0x00, // constant counts
        0x00, // no instructions
    ];
    let bc = luasleuth::luajit::Disassembler::new(&bytes).disassemble().expect("decode");
    assert!(bc.header.chunk_name.is_none());
    assert!(bc.prototype.debug_metadata.is_none());
    assert_eq!(bc.prototype.instructions.len(), 0);
}

#[test]
fn test_luajit_array_size_roundtrip() {
    type ArrayU8 = luasleuth::luajit::array::Array<u8>;
    let a: ArrayU8 = ArrayU8 { size: 300, data: vec![0; 300] };
    let mut buf = [0u8; 8];
    let mut w: usize = 0;
    let written = a.write_size(&mut buf, &mut w).expect("encode");
    assert_eq!(written, 2);
    assert_eq!(&buf[..2], &[0xAC, 0x02]);
    let mut r: usize = 0;
    let size = ArrayU8::read_size(&buf, &mut r).expect("decode");
    assert_eq!(size, 300);
    assert_eq!(r, 2);
}

#[test]
fn test_luajit_truncation_at_every_cut() {
    let bytes: Vec<u8> = vec![
        0x1B, 0x4C, 0x4A, 2, // signature, dump version
        0x02, // flags
        0x06, 0x78, // chunk name "x"
        0x00, // prototype length
        0, 0, 1, 0, // flags, parameters, frame size, upvalues
        0x00, 0x00, // constant counts
        0x01, // one instruction
        0x00, 0x00, 0x00, // debug metadata sizes
        0x4B, 0x00, 0x00, 0x00, // RET0
    ];
    luasleuth::luajit::Disassembler::new(&bytes).disassemble().expect("decode");
    for m in 0..bytes.len() {
        let r = luasleuth::luajit::Disassembler::new(&bytes[..m]).disassemble();
        assert!(
            matches!(r, Err(luasleuth::error::CodecError::Truncated)),
            "cut at {}",
            m
        );
    }
}
