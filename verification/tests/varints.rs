//! Round-trip and minimality checks for the variable-length integer
//! codecs.

use luasleuth::leb128::{sleb_size, uleb_size, Sleb128, Uleb128};
use luasleuth::unsigned::{unsigned_size, LuaUnsigned};

fn uleb_roundtrip(x: u64) {
    let mut buf = [0u8; 16];
    let mut w: usize = 0;
    Uleb128::write(&mut buf, &mut w, x).expect("encode");
    assert_eq!(w, uleb_size(x));
    let mut r: usize = 0;
    let back = Uleb128::read(&buf, &mut r).expect("decode");
    assert_eq!(back, x);
    assert_eq!(r, w);
}

#[test]
fn test_uleb_roundtrip_values() {
    let cases: Vec<u64> = vec![
        0,
        1,
        127,
        128,
        129,
        300,
        16383,
        16384,
        0xFFFF_FFFF,
        0x0123_4567_89AB_CDEF,
        u64::MAX - 1,
        u64::MAX,
    ];
    for x in cases {
        uleb_roundtrip(x);
    }
}

#[test]
fn test_uleb_known_encoding() {
    let mut buf = [0u8; 16];
    let mut w: usize = 0;
    Uleb128::write(&mut buf, &mut w, 300).expect("encode");
    assert_eq!(&buf[..w], &[0xAC, 0x02]);
    // A redundant continuation byte decodes to the same value but is
    // never produced by the encoder.
    let redundant = [0x80u8, 0x00];
    let mut r: usize = 0;
    let v = Uleb128::read(&redundant, &mut r).expect("decode");
    assert_eq!(v, 0);
    assert_eq!(r, 2);
    assert_eq!(uleb_size(0), 1);
}

#[test]
fn test_uleb_minimal_lengths() {
    assert_eq!(uleb_size(0), 1);
    assert_eq!(uleb_size(127), 1);
    assert_eq!(uleb_size(128), 2);
    assert_eq!(uleb_size(16383), 2);
    assert_eq!(uleb_size(16384), 3);
    assert_eq!(uleb_size(u64::MAX), 10);
}

#[test]
fn test_uleb_overlong_guard() {
    // Eleven continuation bytes would shift information past 64 bits.
    let bad = [0xFFu8, 0xFF, 0xFF, 0xFF, 0xFF, 0xFF, 0xFF, 0xFF, 0xFF, 0x7F];
    let mut r: usize = 0;
    assert!(Uleb128::read(&bad, &mut r).is_err());
}

fn sleb_roundtrip(x: i64) {
    let mut buf = [0u8; 16];
    let mut w: usize = 0;
    Sleb128::write(&mut buf, &mut w, x).expect("encode");
    assert_eq!(w, sleb_size(x));
    let mut r: usize = 0;
    let back = Sleb128::read(&buf, &mut r).expect("decode");
    assert_eq!(back, x);
    assert_eq!(r, w);
}

#[test]
fn test_sleb_roundtrip_values() {
    let cases: Vec<i64> = vec![
        0,
        1,
        -1,
        63,
        64,
        -64,
        -65,
        127,
        128,
        -128,
        -129,
        i64::MAX,
        i64::MIN,
        0x0123_4567_89AB_CDEF,
        -0x0123_4567_89AB_CDEF,
    ];
    for x in cases {
        sleb_roundtrip(x);
    }
}

#[test]
fn test_sleb_minimal_lengths() {
    assert_eq!(sleb_size(0), 1);
    assert_eq!(sleb_size(63), 1);
    assert_eq!(sleb_size(-64), 1);
    assert_eq!(sleb_size(64), 2);
    assert_eq!(sleb_size(-65), 2);
    assert_eq!(sleb_size(i64::MAX), 10);
    assert_eq!(sleb_size(i64::MIN), 10);
}

#[test]
fn test_unsigned_roundtrip() {
    let cases: Vec<usize> = vec![0, 1, 5, 127, 128, 300, 65535, 1 << 20];
    for x in cases {
        let mut buf = [0u8; 16];
        let mut w: usize = 0;
        LuaUnsigned::new(x).write(&mut buf, &mut w).expect("encode");
        assert_eq!(w, unsigned_size(x));
        let (back, n) = LuaUnsigned::decode(&buf, 0).expect("decode");
        assert_eq!(back.value, x);
        assert_eq!(n, w);
    }
}

#[test]
fn test_unsigned_known_encoding() {
    // The 5.4 size format stores groups most significant first and sets
    // the high bit on the final byte.
    let mut buf = [0u8; 8];
    let mut w: usize = 0;
    LuaUnsigned::new(5).write(&mut buf, &mut w).expect("encode");
    assert_eq!(&buf[..w], &[0x85]);
    let mut buf2 = [0u8; 8];
    let mut w2: usize = 0;
    LuaUnsigned::new(300).write(&mut buf2, &mut w2).expect("encode");
    assert_eq!(&buf2[..w2], &[0x02, 0xAC]);
    let (v, n) = LuaUnsigned::decode(&[0x02, 0xAC], 0).expect("decode");
    assert_eq!(v.value, 300);
    assert_eq!(n, 2);
}
