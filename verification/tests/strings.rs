//! The three string encodings: content lengths, the absent string, and
//! the 5.3 long-string fallback.

use luasleuth::string::LuaString;
use luasleuth::{CommonCtx, Endianness, Version};

fn ctx(minor: u8, size_t: u8) -> CommonCtx {
    CommonCtx {
        size_of_size_t: size_t,
        lua_version: Version { major: 5, minor },
        endianness: Endianness::Little,
    }
}

#[test]
fn test_string51_content_is_declared_minus_one() {
    // Declared length 5: four visible bytes plus the trailing zero.
    let bytes = [5u8, 0, 0, 0, b'h', b'u', b's', b'h', 0];
    let (s, n) = LuaString::read_lua51_string(&bytes, 0, ctx(1, 4)).expect("decode");
    assert_eq!(s.size, 5);
    assert_eq!(s.data, b"hush".to_vec());
    assert_eq!(n, 9);
}

#[test]
fn test_string51_zero_length_is_absent() {
    let bytes = [0u8, 0, 0, 0];
    let (s, n) = LuaString::read_lua51_string(&bytes, 0, ctx(1, 4)).expect("decode");
    assert_eq!(s.size, 0);
    assert!(s.data.is_empty());
    assert_eq!(n, 4);
}

#[test]
fn test_string51_eight_byte_size_t() {
    let bytes = [3u8, 0, 0, 0, 0, 0, 0, 0, b'o', b'k', 0];
    let (s, n) = LuaString::read_lua51_string(&bytes, 0, ctx(1, 8)).expect("decode");
    assert_eq!(s.size, 3);
    assert_eq!(s.data, b"ok".to_vec());
    assert_eq!(n, 11);
}

#[test]
fn test_string53_short_form() {
    let bytes = [4u8, b'l', b'u', b'a'];
    let (s, n) = LuaString::read_lua53_string(&bytes, 0, ctx(3, 8)).expect("decode");
    assert_eq!(s.size, 4);
    assert_eq!(s.data, b"lua".to_vec());
    assert_eq!(n, 4);
}

#[test]
fn test_string53_long_fallback_on_ff() {
    // 0xFF escapes to the 5.1-style long encoding that follows.
    let bytes = [0xFFu8, 5, 0, 0, 0, b'l', b'o', b'n', b'g', 0];
    let (s, n) = LuaString::read_lua53_string(&bytes, 0, ctx(3, 4)).expect("decode");
    assert_eq!(s.size, 5);
    assert_eq!(s.data, b"long".to_vec());
    assert_eq!(n, 10);
}

#[test]
fn test_string54_zero_is_absent_not_empty() {
    // A declared length of zero yields the absent string: no content is
    // consumed and the size stays zero.
    let bytes = [0x80u8, 0xAA];
    let (s, n) = LuaString::read_lua54_string(&bytes, 0).expect("decode");
    assert_eq!(s.size, 0);
    assert!(s.data.is_empty());
    assert_eq!(n, 1);
}

#[test]
fn test_string54_content() {
    // Size varint 4 (one byte, high bit marks the end), then 3 bytes.
    let bytes = [0x84u8, b'y', b'e', b's'];
    let (s, n) = LuaString::read_lua54_string(&bytes, 0).expect("decode");
    assert_eq!(s.size, 4);
    assert_eq!(s.data, b"yes".to_vec());
    assert_eq!(n, 4);
}

#[test]
fn test_string51_write_roundtrip() {
    let original = LuaString::from_bytes(b"echo".to_vec());
    let mut buf = [0u8; 16];
    let mut w: usize = 0;
    original.write_lua51_string(&mut buf, &mut w, ctx(1, 4)).expect("encode");
    assert_eq!(w, 9);
    let (back, n) = LuaString::read_lua51_string(&buf, 0, ctx(1, 4)).expect("decode");
    assert_eq!(n, w);
    assert!(back == original);
}

#[test]
fn test_string53_write_unimplemented() {
    let s = LuaString::from_bytes(b"x".to_vec());
    let mut buf = [0u8; 16];
    let mut w: usize = 0;
    assert!(s.write_lua53_string(&mut buf, &mut w, ctx(3, 8)).is_err());
    assert!(s.write_lua54_string(&mut buf, &mut w, ctx(4, 0)).is_err());
    assert_eq!(w, 0);
}

#[test]
fn test_string_dispatch_follows_version() {
    let b51 = [2u8, 0, 0, 0, b'a', 0];
    let (s, _) = LuaString::read(&b51, 0, ctx(2, 4)).expect("decode");
    assert_eq!(s.data, b"a".to_vec());
    let b53 = [2u8, b'b'];
    let (s, _) = LuaString::read(&b53, 0, ctx(3, 4)).expect("decode");
    assert_eq!(s.data, b"b".to_vec());
    let b54 = [0x82u8, b'c'];
    let (s, _) = LuaString::read(&b54, 0, ctx(4, 0)).expect("decode");
    assert_eq!(s.data, b"c".to_vec());
    assert!(LuaString::read(&b51, 0, ctx(9, 4)).is_err());
}
