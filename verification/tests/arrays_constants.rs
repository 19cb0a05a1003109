//! Array size fields across versions, and the 5.1 constant write path.

use luasleuth::array::Array;
use luasleuth::error::CodecError;
use luasleuth::lua51::constants::Constant;
use luasleuth::{CommonCtx, Endianness, Version};

fn ctx(minor: u8, size_t: u8) -> CommonCtx {
    CommonCtx {
        size_of_size_t: size_t,
        lua_version: Version { major: 5, minor },
        endianness: Endianness::Little,
    }
}

#[test]
fn test_array_size_roundtrip_51() {
    let a: Array<u8> = Array { size: 7, data: vec![0; 7] };
    let mut buf = [0u8; 8];
    let mut w: usize = 0;
    let written = a.write_size(&mut buf, &mut w, ctx(1, 4)).expect("encode");
    assert_eq!(written, 4);
    assert_eq!(&buf[..4], &[7, 0, 0, 0]);
    let mut r: usize = 0;
    let size = Array::<u8>::read_size(&buf, &mut r, ctx(1, 4)).expect("decode");
    assert_eq!(size, 7);
}

#[test]
fn test_array_size_54_is_varint() {
    let bytes = [0xAC, 0x02];
    let mut r: usize = 0;
    let size = Array::<u8>::read_size(&bytes, &mut r, ctx(4, 0)).expect("decode");
    assert_eq!(size, 300);
    assert_eq!(r, 2);
}

#[test]
fn test_array_size_write_54_unimplemented() {
    let a: Array<u8> = Array { size: 1, data: vec![0] };
    let mut buf = [0u8; 8];
    let mut w: usize = 0;
    let r = a.write_size(&mut buf, &mut w, ctx(4, 0));
    assert!(matches!(r, Err(CodecError::Unimplemented)));
    assert_eq!(w, 0);
}

#[test]
fn test_array_size_unknown_version() {
    let bytes = [0u8; 4];
    let mut r: usize = 0;
    let e = Array::<u8>::read_size(&bytes, &mut r, ctx(7, 4));
    assert!(matches!(e, Err(CodecError::UnsupportedVersion)));
}

#[test]
fn test_array_size_negative_is_error() {
    let bytes = [0xFF, 0xFF, 0xFF, 0xFF];
    let mut r: usize = 0;
    let e = Array::<u8>::read_size(&bytes, &mut r, ctx(1, 4));
    assert!(matches!(e, Err(CodecError::Truncated)));
}

fn write_then_read_constant(c: &Constant, ctx: CommonCtx) -> Constant {
    let mut buf = [0u8; 64];
    let mut w: usize = 0;
    let written = c.write(&mut buf, &mut w, ctx).expect("encode");
    assert_eq!(written, w);
    let (back, n) = Constant::read(&buf, 0, ctx).expect("decode");
    assert_eq!(n, w);
    back
}

#[test]
fn test_constant51_write_roundtrip() {
    let c = ctx(1, 4);
    assert!(matches!(write_then_read_constant(&Constant::Nil, c), Constant::Nil));
    assert!(matches!(
        write_then_read_constant(&Constant::Boolean(true), c),
        Constant::Boolean(true)
    ));
    let bits = (3.14f64).to_bits();
    match write_then_read_constant(&Constant::Number(bits), c) {
        Constant::Number(b) => assert_eq!(b, bits),
        _ => panic!("wrong variant"),
    }
    let s = luasleuth::string::LuaString::from_bytes(b"key".to_vec());
    match write_then_read_constant(&Constant::String(s), c) {
        Constant::String(back) => {
            assert_eq!(back.size, 4);
            assert_eq!(back.data, b"key".to_vec());
        },
        _ => panic!("wrong variant"),
    }
}

#[test]
fn test_constant51_write_failure_kinds() {
    // No room: even a one-byte nil cannot be written into a full buffer.
    let mut buf = [0u8; 2];
    let mut w: usize = 2;
    assert!(matches!(
        Constant::Nil.write(&mut buf, &mut w, ctx(1, 4)),
        Err(CodecError::Truncated)
    ));
    assert_eq!(w, 2);
    // An invalid size_t width in the context rejects a string constant.
    let s = Constant::String(luasleuth::string::LuaString::from_bytes(b"k".to_vec()));
    let mut big = [0u8; 32];
    let mut w2: usize = 0;
    assert!(matches!(s.write(&mut big, &mut w2, ctx(1, 3)), Err(CodecError::InvalidTag)));
    assert_eq!(w2, 0);
    // In-family size-field failure is the truncated kind.
    let a: Array<u8> = Array { size: 1, data: vec![0] };
    let mut tiny = [0u8; 2];
    let mut w3: usize = 0;
    assert!(matches!(
        a.write_size(&mut tiny, &mut w3, ctx(2, 4)),
        Err(CodecError::Truncated)
    ));
}

#[test]
fn test_is_constant_tag_valid() {
    assert_eq!(Constant::Nil.get_type(), 0);
    assert_eq!(Constant::Boolean(false).get_type(), 1);
    assert_eq!(Constant::Number((3.14f64).to_bits()).get_type(), 3);
    let s = luasleuth::string::LuaString::from_bytes(b"hello".to_vec());
    assert_eq!(Constant::String(s).get_type(), 4);
}

#[test]
fn test_constant53_integer_and_float_tags() {
    type C53 = luasleuth::lua53::constants::Constant;
    // Tag 3 carries a float in 5.3, tag 19 an integer.
    let bytes = [3u8, 0, 0, 0, 0, 0, 0x28, 0x77, 0x40];
    let (c, n) = C53::read(&bytes, 0, ctx(3, 8)).expect("decode");
    assert_eq!(n, 9);
    match c {
        C53::Float(bits) => assert_eq!(f64::from_bits(bits), 370.5),
        _ => panic!("wrong variant"),
    }
    let bytes = [19u8, 0x2A, 0, 0, 0, 0, 0, 0, 0];
    let (c, _) = C53::read(&bytes, 0, ctx(3, 8)).expect("decode");
    assert!(matches!(c, C53::Integer(42)));
    assert!(C53::read(&[21u8], 0, ctx(3, 8)).is_err());
}

#[test]
fn test_lua_version_enum_is_exposed() {
    let v = luasleuth::LuaVersion::Lua53;
    assert!(matches!(v, luasleuth::LuaVersion::Lua53));
    assert_eq!(Version { major: 5, minor: 3 }.into_tuple(), (5, 3));
}
