//! The instruction decoder: a pure function from a raw 16-bit word to an
//! opcode tag plus its operand fields, and the matching encoder.

use vstd::prelude::*;
use crate::bits::{sext, sign_extend};

verus! {

/// The 4-bit opcode tag held in the top four bits of an instruction word.
#[allow(non_camel_case_types)]
#[derive(Clone, Copy, PartialEq, Eq, Structural, Debug)]
pub enum OpCode {
    BR,
    ADD,
    LD,
    ST,
    JSR,
    AND,
    LDR,
    STR,
    RTI,
    NOT,
    LDI,
    STI,
    JMP,
    RES,
    LEA,
    TRAP,
    ERR,
}

/// The opcode tag selected by a 4-bit value; `ERR` for values 16 and above,
/// which no 4-bit field can produce.
pub open spec fn spec_opcode_from(value: u16) -> OpCode {
    if value == 0 {
        OpCode::BR
    } else if value == 1 {
        OpCode::ADD
    } else if value == 2 {
        OpCode::LD
    } else if value == 3 {
        OpCode::ST
    } else if value == 4 {
        OpCode::JSR
    } else if value == 5 {
        OpCode::AND
    } else if value == 6 {
        OpCode::LDR
    } else if value == 7 {
        OpCode::STR
    } else if value == 8 {
        OpCode::RTI
    } else if value == 9 {
        OpCode::NOT
    } else if value == 10 {
        OpCode::LDI
    } else if value == 11 {
        OpCode::STI
    } else if value == 12 {
        OpCode::JMP
    } else if value == 13 {
        OpCode::RES
    } else if value == 14 {
        OpCode::LEA
    } else if value == 15 {
        OpCode::TRAP
    } else {
        OpCode::ERR
    }
}

impl OpCode {
    /// Maps a 4-bit opcode tag value to its opcode.
    pub fn from_u16(value: u16) -> (r: OpCode)
        ensures
            r == spec_opcode_from(value),
    {
        match value {
            0 => OpCode::BR,
            1 => OpCode::ADD,
            2 => OpCode::LD,
            3 => OpCode::ST,
            4 => OpCode::JSR,
            5 => OpCode::AND,
            6 => OpCode::LDR,
            7 => OpCode::STR,
            8 => OpCode::RTI,
            9 => OpCode::NOT,
            10 => OpCode::LDI,
            11 => OpCode::STI,
            12 => OpCode::JMP,
            13 => OpCode::RES,
            14 => OpCode::LEA,
            15 => OpCode::TRAP,
            _ => OpCode::ERR,
        }
    }
}

/// The second operand of ADD and AND: either a source register or a 5-bit
/// immediate, held sign-extended to a full word.
#[derive(Clone, Copy, PartialEq, Eq, Structural, Debug)]
pub enum Operand {
    Reg(u16),
    Imm(u16),
}

/// The jump target of JSR: a base register, or an 11-bit PC-relative offset
/// held sign-extended to a full word.
#[derive(Clone, Copy, PartialEq, Eq, Structural, Debug)]
pub enum JsrTarget {
    Reg(u16),
    Offset(u16),
}

/// A decoded instruction: one variant per opcode, carrying that opcode's
/// operand fields. Register fields are indices below 8; every immediate and
/// offset field is held already sign-extended to a full 16-bit word.
#[derive(Clone, Copy, PartialEq, Eq, Structural, Debug)]
pub enum Instruction {
    Br { n: bool, z: bool, p: bool, pc_offset: u16 },
    Add { dr: u16, sr1: u16, operand: Operand },
    Ld { dr: u16, pc_offset: u16 },
    St { sr: u16, pc_offset: u16 },
    Jsr { target: JsrTarget },
    And { dr: u16, sr1: u16, operand: Operand },
    Ldr { dr: u16, base: u16, offset: u16 },
    Str { sr: u16, base: u16, offset: u16 },
    Rti,
    Not { dr: u16, sr: u16 },
    Ldi { dr: u16, pc_offset: u16 },
    Sti { sr: u16, pc_offset: u16 },
    Jmp { base: u16 },
    Res,
    Lea { dr: u16, pc_offset: u16 },
    Trap { vector: u16 },
}

/// The second operand encoded in bits 0 to 5 of an ADD or AND word.
pub open spec fn spec_decode_operand(w: u16) -> Operand {
    if (w >> 5) & 1 == 1 {
        Operand::Imm(sext(w & 0x1F, 5))
    } else {
        Operand::Reg(w & 7)
    }
}

/// The instruction denoted by a raw 16-bit word: the opcode tag is the top
/// four bits, and the remaining bits are read as that opcode's fields.
pub open spec fn spec_decode(w: u16) -> Instruction {
    let op = w >> 12;
    if op == 0 {
        (Instruction::Br {
            n: (w >> 11) & 1 == 1,
            z: (w >> 10) & 1 == 1,
            p: (w >> 9) & 1 == 1,
            pc_offset: sext(w & 0x1FF, 9),
        })
    } else if op == 1 {
        (Instruction::Add { dr: (w >> 9) & 7, sr1: (w >> 6) & 7, operand: spec_decode_operand(w) })
    } else if op == 2 {
        (Instruction::Ld { dr: (w >> 9) & 7, pc_offset: sext(w & 0x1FF, 9) })
    } else if op == 3 {
        (Instruction::St { sr: (w >> 9) & 7, pc_offset: sext(w & 0x1FF, 9) })
    } else if op == 4 {
        (Instruction::Jsr {
            target: if (w >> 11) & 1 == 1 {
                JsrTarget::Offset(sext(w & 0x7FF, 11))
            } else {
                JsrTarget::Reg((w >> 6) & 7)
            },
        })
    } else if op == 5 {
        (Instruction::And { dr: (w >> 9) & 7, sr1: (w >> 6) & 7, operand: spec_decode_operand(w) })
    } else if op == 6 {
        (Instruction::Ldr { dr: (w >> 9) & 7, base: (w >> 6) & 7, offset: sext(w & 0x3F, 6) })
    } else if op == 7 {
        (Instruction::Str { sr: (w >> 9) & 7, base: (w >> 6) & 7, offset: sext(w & 0x3F, 6) })
    } else if op == 8 {
        Instruction::Rti
    } else if op == 9 {
        (Instruction::Not { dr: (w >> 9) & 7, sr: (w >> 6) & 7 })
    } else if op == 10 {
        (Instruction::Ldi { dr: (w >> 9) & 7, pc_offset: sext(w & 0x1FF, 9) })
    } else if op == 11 {
        (Instruction::Sti { sr: (w >> 9) & 7, pc_offset: sext(w & 0x1FF, 9) })
    } else if op == 12 {
        (Instruction::Jmp { base: (w >> 6) & 7 })
    } else if op == 13 {
        Instruction::Res
    } else if op == 14 {
        (Instruction::Lea { dr: (w >> 9) & 7, pc_offset: sext(w & 0x1FF, 9) })
    } else {
        (Instruction::Trap { vector: w & 0xFF })
    }
}

/// Every register field of the instruction is a valid index below 8, and a
/// trap vector fits in 8 bits.
pub open spec fn instr_wf(i: Instruction) -> bool {
    match i {
        Instruction::Br { .. } => true,
        Instruction::Add { dr, sr1, operand } => dr < 8 && sr1 < 8 && (operand matches Operand::Reg(r) ==> r < 8),
        Instruction::Ld { dr, .. } => dr < 8,
        Instruction::St { sr, .. } => sr < 8,
        Instruction::Jsr { target } => (target matches JsrTarget::Reg(b) ==> b < 8),
        Instruction::And { dr, sr1, operand } => dr < 8 && sr1 < 8 && (operand matches Operand::Reg(r) ==> r < 8),
        Instruction::Ldr { dr, base, .. } => dr < 8 && base < 8,
        Instruction::Str { sr, base, .. } => sr < 8 && base < 8,
        Instruction::Rti => true,
        Instruction::Not { dr, sr } => dr < 8 && sr < 8,
        Instruction::Ldi { dr, .. } => dr < 8,
        Instruction::Sti { sr, .. } => sr < 8,
        Instruction::Jmp { base } => base < 8,
        Instruction::Res => true,
        Instruction::Lea { dr, .. } => dr < 8,
        Instruction::Trap { vector } => vector < 0x100,
    }
}

/// Decodes a raw instruction word into its opcode and operand fields.
pub fn decode(word: u16) -> (r: Instruction)
    ensures
        r == spec_decode(word),
        instr_wf(r),
{
    proof {
        assert((word >> 9) & 7 < 8 && (word >> 6) & 7 < 8 && word & 7 < 8 && word & 0xFF < 0x100
            && word >> 12 < 16) by (bit_vector);
    }
    match OpCode::from_u16(word >> 12) {
        OpCode::BR => Instruction::Br {
            n: (word >> 11) & 1 == 1,
            z: (word >> 10) & 1 == 1,
            p: (word >> 9) & 1 == 1,
            pc_offset: sign_extend(word & 0x1FF, 9),
        },
        OpCode::ADD => Instruction::Add {
            dr: (word >> 9) & 7,
            sr1: (word >> 6) & 7,
            operand: decode_operand(word),
        },
        OpCode::LD => Instruction::Ld { dr: (word >> 9) & 7, pc_offset: sign_extend(word & 0x1FF, 9) },
        OpCode::ST => Instruction::St { sr: (word >> 9) & 7, pc_offset: sign_extend(word & 0x1FF, 9) },
        OpCode::JSR => Instruction::Jsr {
            target: if (word >> 11) & 1 == 1 {
                JsrTarget::Offset(sign_extend(word & 0x7FF, 11))
            } else {
                JsrTarget::Reg((word >> 6) & 7)
            },
        },
        OpCode::AND => Instruction::And {
            dr: (word >> 9) & 7,
            sr1: (word >> 6) & 7,
            operand: decode_operand(word),
        },
        OpCode::LDR => Instruction::Ldr {
            dr: (word >> 9) & 7,
            base: (word >> 6) & 7,
            offset: sign_extend(word & 0x3F, 6),
        },
        OpCode::STR => Instruction::Str {
            sr: (word >> 9) & 7,
            base: (word >> 6) & 7,
            offset: sign_extend(word & 0x3F, 6),
        },
        OpCode::RTI => Instruction::Rti,
        OpCode::NOT => Instruction::Not { dr: (word >> 9) & 7, sr: (word >> 6) & 7 },
        OpCode::LDI => Instruction::Ldi { dr: (word >> 9) & 7, pc_offset: sign_extend(word & 0x1FF, 9) },
        OpCode::STI => Instruction::Sti { sr: (word >> 9) & 7, pc_offset: sign_extend(word & 0x1FF, 9) },
        OpCode::JMP => Instruction::Jmp { base: (word >> 6) & 7 },
        OpCode::RES => Instruction::Res,
        OpCode::LEA => Instruction::Lea { dr: (word >> 9) & 7, pc_offset: sign_extend(word & 0x1FF, 9) },
        OpCode::TRAP => Instruction::Trap { vector: word & 0xFF },
        OpCode::ERR => vstd::pervasive::unreached(),
    }
}

/// Decodes the second operand of an ADD or AND word.
fn decode_operand(word: u16) -> (r: Operand)
    ensures
        r == spec_decode_operand(word),
        (r matches Operand::Reg(x) ==> x < 8),
{
    proof {
        assert(word & 7 < 8) by (bit_vector);
    }
    if (word >> 5) & 1 == 1 {
        Operand::Imm(sign_extend(word & 0x1F, 5))
    } else {
        Operand::Reg(word & 7)
    }
}

/// The canonical instruction word for the operand fields of an ADD or AND.
pub open spec fn spec_encode_operand(o: Operand) -> u16 {
    match o {
        Operand::Reg(r) => r & 7,
        Operand::Imm(m) => (1u16 << 5) | (m & 0x1F),
    }
}

/// The canonical instruction word holding the given opcode and fields; bits
/// that belong to no field of the opcode are zero, except the low six bits of
/// NOT, which the architecture fixes to ones.
pub open spec fn spec_encode(i: Instruction) -> u16 {
    match i {
        Instruction::Br { n, z, p, pc_offset } => ((if n {
            0x0800u16
        } else {
            0u16
        }) | (if z {
            0x0400u16
        } else {
            0u16
        }) | (if p {
            0x0200u16
        } else {
            0u16
        }) | (pc_offset & 0x1FF)),
        Instruction::Add { dr, sr1, operand } => ((1u16 << 12) | ((dr & 7) << 9) | ((sr1 & 7) << 6)
            | spec_encode_operand(operand)),
        Instruction::Ld { dr, pc_offset } => ((2u16 << 12) | ((dr & 7) << 9) | (pc_offset & 0x1FF)),
        Instruction::St { sr, pc_offset } => ((3u16 << 12) | ((sr & 7) << 9) | (pc_offset & 0x1FF)),
        Instruction::Jsr { target } => (match target {
            JsrTarget::Reg(b) => (4u16 << 12) | ((b & 7) << 6),
            JsrTarget::Offset(off) => (4u16 << 12) | (1u16 << 11) | (off & 0x7FF),
        }),
        Instruction::And { dr, sr1, operand } => ((5u16 << 12) | ((dr & 7) << 9) | ((sr1 & 7) << 6)
            | spec_encode_operand(operand)),
        Instruction::Ldr { dr, base, offset } => ((6u16 << 12) | ((dr & 7) << 9) | ((base & 7) << 6)
            | (offset & 0x3F)),
        Instruction::Str { sr, base, offset } => ((7u16 << 12) | ((sr & 7) << 9) | ((base & 7) << 6)
            | (offset & 0x3F)),
        Instruction::Rti => (8u16 << 12),
        Instruction::Not { dr, sr } => ((9u16 << 12) | ((dr & 7) << 9) | ((sr & 7) << 6) | 0x3F),
        Instruction::Ldi { dr, pc_offset } => ((10u16 << 12) | ((dr & 7) << 9) | (pc_offset & 0x1FF)),
        Instruction::Sti { sr, pc_offset } => ((11u16 << 12) | ((sr & 7) << 9) | (pc_offset & 0x1FF)),
        Instruction::Jmp { base } => ((12u16 << 12) | ((base & 7) << 6)),
        Instruction::Res => (13u16 << 12),
        Instruction::Lea { dr, pc_offset } => ((14u16 << 12) | ((dr & 7) << 9) | (pc_offset & 0x1FF)),
        Instruction::Trap { vector } => ((15u16 << 12) | (vector & 0xFF)),
    }
}

/// Encodes an instruction into its canonical 16-bit word.
pub fn encode(i: Instruction) -> (r: u16)
    ensures
        r == spec_encode(i),
{
    match i {
        Instruction::Br { n, z, p, pc_offset } => (if n {
            0x0800u16
        } else {
            0u16
        }) | (if z {
            0x0400u16
        } else {
            0u16
        }) | (if p {
            0x0200u16
        } else {
            0u16
        }) | (pc_offset & 0x1FF),
        Instruction::Add { dr, sr1, operand } => (1u16 << 12) | ((dr & 7) << 9) | ((sr1 & 7) << 6)
            | encode_operand(operand),
        Instruction::Ld { dr, pc_offset } => (2u16 << 12) | ((dr & 7) << 9) | (pc_offset & 0x1FF),
        Instruction::St { sr, pc_offset } => (3u16 << 12) | ((sr & 7) << 9) | (pc_offset & 0x1FF),
        Instruction::Jsr { target } => match target {
            JsrTarget::Reg(b) => (4u16 << 12) | ((b & 7) << 6),
            JsrTarget::Offset(off) => (4u16 << 12) | (1u16 << 11) | (off & 0x7FF),
        },
        Instruction::And { dr, sr1, operand } => (5u16 << 12) | ((dr & 7) << 9) | ((sr1 & 7) << 6)
            | encode_operand(operand),
        Instruction::Ldr { dr, base, offset } => (6u16 << 12) | ((dr & 7) << 9) | ((base & 7) << 6)
            | (offset & 0x3F),
        Instruction::Str { sr, base, offset } => (7u16 << 12) | ((sr & 7) << 9) | ((base & 7) << 6)
            | (offset & 0x3F),
        Instruction::Rti => 8u16 << 12,
        Instruction::Not { dr, sr } => (9u16 << 12) | ((dr & 7) << 9) | ((sr & 7) << 6) | 0x3F,
        Instruction::Ldi { dr, pc_offset } => (10u16 << 12) | ((dr & 7) << 9) | (pc_offset & 0x1FF),
        Instruction::Sti { sr, pc_offset } => (11u16 << 12) | ((sr & 7) << 9) | (pc_offset & 0x1FF),
        Instruction::Jmp { base } => (12u16 << 12) | ((base & 7) << 6),
        Instruction::Res => 13u16 << 12,
        Instruction::Lea { dr, pc_offset } => (14u16 << 12) | ((dr & 7) << 9) | (pc_offset & 0x1FF),
        Instruction::Trap { vector } => (15u16 << 12) | (vector & 0xFF),
    }
}

/// Encodes the second operand of an ADD or AND.
fn encode_operand(o: Operand) -> (r: u16)
    ensures
        r == spec_encode_operand(o),
{
    match o {
        Operand::Reg(r) => r & 7,
        Operand::Imm(m) => (1u16 << 5) | (m & 0x1F),
    }
}

/// Decoding a word and re-encoding the decoded fields reproduces the word,
/// for the opcodes whose encodings cover every operand bit: BR, ADD, LD, ST,
/// AND, LDR, STR and LEA. The one exception is the register form of ADD and
/// AND, which leaves bits 3 and 4 outside every field: there those two bits
/// must be zero.
pub proof fn lemma_decode_encode_round_trip(v: u16)
    requires
        (v >> 12 == 0 || v >> 12 == 1 || v >> 12 == 2 || v >> 12 == 3 || v >> 12 == 5 || v >> 12
            == 6 || v >> 12 == 7 || v >> 12 == 14),
        ((v >> 12 == 1 || v >> 12 == 5) && (v >> 5) & 1 == 0) ==> (v >> 3) & 3 == 0,
    ensures
        spec_encode(spec_decode(v)) == v,
{
    assert((v >> 5) & 1 == 0 || (v >> 5) & 1 == 1) by (bit_vector);
    if v >> 12 == 0 {
        assert((if (v >> 11) & 1 == 1 {
            0x0800u16
        } else {
            0u16
        }) | (if (v >> 10) & 1 == 1 {
            0x0400u16
        } else {
            0u16
        }) | (if (v >> 9) & 1 == 1 {
            0x0200u16
        } else {
            0u16
        }) | (sext(v & 0x1FF, 9) & 0x1FF) == v) by (bit_vector)
            requires
                v >> 12 == 0,
        ;
    } else if v >> 12 == 1 {
        if (v >> 5) & 1 == 1 {
            assert((1u16 << 12) | ((((v >> 9) & 7) & 7) << 9) | ((((v >> 6) & 7) & 7) << 6) | ((
            1u16 << 5) | (sext(v & 0x1F, 5) & 0x1F)) == v) by (bit_vector)
                requires
                    v >> 12 == 1 && (v >> 5) & 1 == 1,
            ;
        } else {
            assert((1u16 << 12) | ((((v >> 9) & 7) & 7) << 9) | ((((v >> 6) & 7) & 7) << 6) | ((v
                & 7) & 7) == v) by (bit_vector)
                requires
                    v >> 12 == 1 && (v >> 5) & 1 == 0 && (v >> 3) & 3 == 0,
            ;
        }
    } else if v >> 12 == 2 {
        assert((2u16 << 12) | ((((v >> 9) & 7) & 7) << 9) | (sext(v & 0x1FF, 9) & 0x1FF) == v)
            by (bit_vector)
            requires
                v >> 12 == 2,
        ;
    } else if v >> 12 == 3 {
        assert((3u16 << 12) | ((((v >> 9) & 7) & 7) << 9) | (sext(v & 0x1FF, 9) & 0x1FF) == v)
            by (bit_vector)
            requires
                v >> 12 == 3,
        ;
    } else if v >> 12 == 5 {
        if (v >> 5) & 1 == 1 {
            assert((5u16 << 12) | ((((v >> 9) & 7) & 7) << 9) | ((((v >> 6) & 7) & 7) << 6) | ((
            1u16 << 5) | (sext(v & 0x1F, 5) & 0x1F)) == v) by (bit_vector)
                requires
                    v >> 12 == 5 && (v >> 5) & 1 == 1,
            ;
        } else {
            assert((5u16 << 12) | ((((v >> 9) & 7) & 7) << 9) | ((((v >> 6) & 7) & 7) << 6) | ((v
                & 7) & 7) == v) by (bit_vector)
                requires
                    v >> 12 == 5 && (v >> 5) & 1 == 0 && (v >> 3) & 3 == 0,
            ;
        }
    } else if v >> 12 == 6 {
        assert((6u16 << 12) | ((((v >> 9) & 7) & 7) << 9) | ((((v >> 6) & 7) & 7) << 6) | (sext(
            v & 0x3F, 6) & 0x3F) == v) by (bit_vector)
            requires
                v >> 12 == 6,
        ;
    } else if v >> 12 == 7 {
        assert((7u16 << 12) | ((((v >> 9) & 7) & 7) << 9) | ((((v >> 6) & 7) & 7) << 6) | (sext(
            v & 0x3F, 6) & 0x3F) == v) by (bit_vector)
            requires
                v >> 12 == 7,
        ;
    } else {
        assert((14u16 << 12) | ((((v >> 9) & 7) & 7) << 9) | (sext(v & 0x1FF, 9) & 0x1FF) == v)
            by (bit_vector)
            requires
                v >> 12 == 14,
        ;
    }
}

} // verus!
