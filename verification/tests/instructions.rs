//! Instruction round trips: for every opcode in each version's table and
//! a spread of operand patterns, re-encoding a decoded word yields the
//! word, and decoding an encoded instruction yields the instruction.

use luasleuth::lua51::instructions::Instruction as I51;
use luasleuth::lua51::instructions::Opcode as Op51;
use luasleuth::lua52::instructions::Instruction as I52;
use luasleuth::lua52::instructions::Opcode as Op52;
use luasleuth::lua53::instructions::Instruction as I53;
use luasleuth::lua54::instructions::Instruction as I54;
use luasleuth::lua54::instructions::Opcode as Op54;
use luasleuth::luajit::instructions::Instruction as Ij;
use luasleuth::luajit::instructions::Opcode as Opj;

#[test]
fn test_lua51_word_roundtrip_all_opcodes() {
    // Field-bit patterns exercised on top of each opcode.
    let patterns: Vec<u32> = vec![0, 0xFFFF_FFC0, 0x0000_0FC0, 0xAAAA_AAC0 & !0x3F];
    for op in 0..38u32 {
        for pat in &patterns {
            let w = op | (pat & !0x3F);
            let inst = I51::try_decode(w).expect("valid opcode");
            assert_eq!(I51::encode(inst), w);
        }
    }
    // An opcode outside the closed set is a terminal decode error.
    assert!(I51::try_decode(38).is_err());
    assert!(I51::try_decode(63).is_err());
}

#[test]
fn test_lua51_value_roundtrip() {
    let samples = vec![
        I51::iABC(Op51::OP_MOVE, 3, 7, 511),
        I51::iABC(Op51::OP_RETURN, 0, 1, 0),
        I51::iABx(Op51::OP_LOADK, 255, 0x3FFFF),
        I51::iAsBx(Op51::OP_JMP, 0, -0x1FFFF),
        I51::iAsBx(Op51::OP_FORLOOP, 9, 0x20000),
        I51::iAsBx(Op51::OP_FORPREP, 9, -1),
    ];
    for inst in samples {
        let w = I51::encode(inst);
        let back = I51::try_decode(w).expect("valid");
        assert_eq!(back, inst);
    }
}

#[test]
fn test_lua52_word_roundtrip_all_opcodes() {
    let patterns: Vec<u32> = vec![0, 0xFFFF_FFC0, 0x1234_5680];
    for op in 0..40u32 {
        for pat in &patterns {
            let w = op | (pat & !0x3F);
            let inst = I52::try_decode(w).expect("valid opcode");
            assert_eq!(I52::encode(inst), w);
        }
    }
    assert!(I52::try_decode(40).is_err());
}

#[test]
fn test_lua52_ax_shape() {
    let inst = I52::iAx(Op52::OP_EXTRAARG, 0x3FF_FFFF);
    let w = I52::encode(inst);
    assert_eq!(I52::try_decode(w).expect("valid"), inst);
}

#[test]
fn test_lua53_word_roundtrip_all_opcodes() {
    let patterns: Vec<u32> = vec![0, 0xFFFF_FFC0, 0x0F0F_0F00];
    for op in 0..47u32 {
        for pat in &patterns {
            let w = op | (pat & !0x3F);
            let inst = I53::try_decode(w).expect("valid opcode");
            assert_eq!(I53::encode(inst), w);
        }
    }
    assert!(I53::try_decode(47).is_err());
}

#[test]
fn test_lua54_word_roundtrip_all_opcodes() {
    let patterns: Vec<u32> = vec![0, 0xFFFF_FF80, 0x00F0_0F00];
    for op in 0..83u32 {
        // The boolean-load opcodes keep only their A field; their other
        // bits decode as zero, so only the canonical word round-trips.
        let noarg = matches!(op, 5 | 6 | 7);
        for pat in &patterns {
            let w = op | (pat & !0x7F);
            let inst = I54::try_decode(w).expect("valid opcode");
            let w2 = I54::encode(inst);
            if noarg {
                // Canonicalization: the re-encoded word zeroes the unused
                // fields and then round-trips exactly.
                assert_eq!(I54::try_decode(w2).expect("valid"), inst);
                assert_eq!(I54::encode(I54::try_decode(w2).expect("valid")), w2);
            } else {
                assert_eq!(w2, w);
            }
        }
    }
    assert!(I54::try_decode(83).is_err());
    // The 5.4 signed-jump shape spans 25 bits with its own bias.
    let jmp = I54::isJ(Op54::OP_JMP, -0xFFFFFF);
    let w = I54::encode(jmp);
    assert_eq!(I54::try_decode(w).expect("valid"), jmp);
    let jmp2 = I54::isJ(Op54::OP_JMP, 0x1000000);
    let w2 = I54::encode(jmp2);
    assert_eq!(I54::try_decode(w2).expect("valid"), jmp2);
}

#[test]
fn test_luajit_word_roundtrip_all_opcodes() {
    let patterns: Vec<u32> = vec![0, 0xFFFF_FF00, 0x00AB_CD00];
    for op in 0..97u32 {
        for pat in &patterns {
            let w = op | (pat & !0xFF);
            let inst = Ij::try_decode(w).expect("valid opcode");
            assert_eq!(Ij::encode(inst), w);
        }
    }
    assert!(Ij::try_decode(97).is_err());
    let jmp = Ij::AJ(Opj::JMP, 1, -0x8000);
    let w = Ij::encode(jmp);
    assert_eq!(Ij::try_decode(w).expect("valid"), jmp);
}

#[test]
fn test_luajit_uses_ad_format() {
    assert!(!Opj::CALL.uses_ad_format());
    assert!(!Opj::CALLM.uses_ad_format());
    assert!(!Opj::CALLMT.uses_ad_format());
    assert!(!Opj::CALLT.uses_ad_format());
    assert!(!Opj::ITERC.uses_ad_format());
    assert!(!Opj::ITERN.uses_ad_format());
    assert!(Opj::JMP.uses_ad_format());
    assert!(Opj::KSHORT.uses_ad_format());
    assert!(Opj::RET0.uses_ad_format());
}
