use lc3_vm::bits::{sign_extend, swap16};
use lc3_vm::decode::{decode, encode, Instruction, JsrTarget, OpCode, Operand};

#[test]
fn sign_extend_five_bit_negative() {
    // 0b10000 read as a 5-bit two's-complement field is -16, i.e. 0xFFF0.
    assert_eq!(sign_extend(0b10000, 5), 0xFFF0);
}

#[test]
fn sign_extend_positive_and_boundaries() {
    assert_eq!(sign_extend(0b01111, 5), 15);
    assert_eq!(sign_extend(0, 5), 0);
    assert_eq!(sign_extend(0x1FF, 9), 0xFFFF); // -1 in 9 bits
    assert_eq!(sign_extend(0x100, 9), 0xFF00); // -256 in 9 bits
    assert_eq!(sign_extend(0x3F, 6), 0xFFFF); // -1 in 6 bits
    assert_eq!(sign_extend(0x20, 6), 0xFFE0); // -32 in 6 bits
    assert_eq!(sign_extend(0x7FF, 11), 0xFFFF); // -1 in 11 bits
}

#[test]
fn swap16_big_endian_pair() {
    assert_eq!(swap16([0x30, 0x00]), 0x3000);
    assert_eq!(swap16([0x12, 0x34]), 0x1234);
    assert_eq!(swap16([0x00, 0xFF]), 0x00FF);
}

#[test]
fn opcode_from_u16_all_tags() {
    assert!(matches!(OpCode::from_u16(0), OpCode::BR));
    assert!(matches!(OpCode::from_u16(1), OpCode::ADD));
    assert!(matches!(OpCode::from_u16(2), OpCode::LD));
    assert!(matches!(OpCode::from_u16(3), OpCode::ST));
    assert!(matches!(OpCode::from_u16(4), OpCode::JSR));
    assert!(matches!(OpCode::from_u16(5), OpCode::AND));
    assert!(matches!(OpCode::from_u16(6), OpCode::LDR));
    assert!(matches!(OpCode::from_u16(7), OpCode::STR));
    assert!(matches!(OpCode::from_u16(8), OpCode::RTI));
    assert!(matches!(OpCode::from_u16(9), OpCode::NOT));
    assert!(matches!(OpCode::from_u16(10), OpCode::LDI));
    assert!(matches!(OpCode::from_u16(11), OpCode::STI));
    assert!(matches!(OpCode::from_u16(12), OpCode::JMP));
    assert!(matches!(OpCode::from_u16(13), OpCode::RES));
    assert!(matches!(OpCode::from_u16(14), OpCode::LEA));
    assert!(matches!(OpCode::from_u16(15), OpCode::TRAP));
    assert!(matches!(OpCode::from_u16(16), OpCode::ERR));
}

#[test]
fn decode_add_immediate() {
    // ADD R0, R1, #3
    let i = decode(0x1063);
    assert_eq!(i, Instruction::Add { dr: 0, sr1: 1, operand: Operand::Imm(3) });
}

#[test]
fn decode_add_register() {
    // ADD R2, R3, R4
    let i = decode(0x14C4);
    assert_eq!(i, Instruction::Add { dr: 2, sr1: 3, operand: Operand::Reg(4) });
}

#[test]
fn decode_add_negative_immediate() {
    // ADD R0, R0, #-1 (imm5 = 0b11111)
    let i = decode(0x103F);
    assert_eq!(i, Instruction::Add { dr: 0, sr1: 0, operand: Operand::Imm(0xFFFF) });
}

#[test]
fn decode_br_and_offset() {
    // BRnzp with offset -2 (0x1FE)
    let i = decode(0x0FFE);
    assert_eq!(i, Instruction::Br { n: true, z: true, p: true, pc_offset: 0xFFFE });
    // BRz with offset 1
    let i = decode(0x0401);
    assert_eq!(i, Instruction::Br { n: false, z: true, p: false, pc_offset: 1 });
}

#[test]
fn decode_jsr_both_forms() {
    // JSR with offset 4
    assert_eq!(decode(0x4804), Instruction::Jsr { target: JsrTarget::Offset(4) });
    // JSRR R5
    assert_eq!(decode(0x4140), Instruction::Jsr { target: JsrTarget::Reg(5) });
}

#[test]
fn decode_loads_and_stores() {
    assert_eq!(decode(0x2601), Instruction::Ld { dr: 3, pc_offset: 1 });
    assert_eq!(decode(0x3A02), Instruction::St { sr: 5, pc_offset: 2 });
    assert_eq!(decode(0xA609), Instruction::Ldi { dr: 3, pc_offset: 9 });
    assert_eq!(decode(0xB401), Instruction::Sti { sr: 2, pc_offset: 1 });
    assert_eq!(decode(0x6781), Instruction::Ldr { dr: 3, base: 6, offset: 1 });
    assert_eq!(decode(0x7781), Instruction::Str { sr: 3, base: 6, offset: 1 });
    assert_eq!(decode(0xE005), Instruction::Lea { dr: 0, pc_offset: 5 });
}

#[test]
fn decode_not_jmp_trap_reserved() {
    assert_eq!(decode(0x927F), Instruction::Not { dr: 1, sr: 1 });
    assert_eq!(decode(0xC1C0), Instruction::Jmp { base: 7 });
    assert_eq!(decode(0xF025), Instruction::Trap { vector: 0x25 });
    assert_eq!(decode(0xF125), Instruction::Trap { vector: 0x25 }); // high bits ignored
    assert_eq!(decode(0x8000), Instruction::Rti);
    assert_eq!(decode(0xD000), Instruction::Res);
}

#[test]
fn encode_reproduces_decoded_words() {
    // Every operand bit of these opcodes lives in a field, so decoding and
    // re-encoding gives the word back.
    let words: [u16; 12] = [
        0x0FFE, // BRnzp
        0x0401, // BRz
        0x1063, // ADD immediate
        0x14C4, // ADD register, bits 3-4 clear
        0x2601, // LD
        0x3A02, // ST
        0x5063, // AND immediate
        0x5444, // AND register, bits 3-4 clear
        0x6781, // LDR
        0x7781, // STR
        0xE005, // LEA
        0xEFFF, // LEA, all offset bits set
    ];
    for &w in words.iter() {
        assert_eq!(encode(decode(w)), w);
    }
}

#[test]
fn encode_canonical_forms() {
    assert_eq!(encode(Instruction::Trap { vector: 0x25 }), 0xF025);
    assert_eq!(encode(Instruction::Jmp { base: 7 }), 0xC1C0);
    assert_eq!(encode(Instruction::Not { dr: 1, sr: 1 }), 0x927F);
    assert_eq!(encode(Instruction::Jsr { target: JsrTarget::Offset(4) }), 0x4804);
    assert_eq!(encode(Instruction::Jsr { target: JsrTarget::Reg(5) }), 0x4140);
    // A sign-extended immediate is masked back down to its field.
    assert_eq!(
        encode(Instruction::Add { dr: 0, sr1: 0, operand: Operand::Imm(0xFFFF) }),
        0x103F
    );
}
