//! Decoding of raw 32-bit little-endian instruction words, and the
//! inverse encoding used to assemble test programs.
//!
//! Decoding is a pure, total function: every word maps to some
//! [`Instruction`], with unrecognized encodings mapping to
//! [`Instruction::UNKNOWN`].  Field extraction is written with division
//! and remainder by fixed powers of two, which keeps the specification
//! and the executable code in the same vocabulary.

use vstd::prelude::*;

use vstd::arithmetic::div_mod::lemma_mod_multiples_vanish;

use crate::instruction::{
    Add, AddI, Branch, Instruction, Jalr, Load, Lui, SllI, Store, Sub,
};

verus! {

/// The opcode: bits 0 to 6.
pub open spec fn op_slot(w: u32) -> u32 {
    w % 128
}

/// The `rd` field: bits 7 to 11.
pub open spec fn rd_slot(w: u32) -> u32 {
    (w / 128) % 32
}

/// The minor opcode `funct3`: bits 12 to 14.
pub open spec fn f3_slot(w: u32) -> u32 {
    (w / 4096) % 8
}

/// The `rs1` field: bits 15 to 19.
pub open spec fn rs1_slot(w: u32) -> u32 {
    (w / 32768) % 32
}

/// The `rs2` field: bits 20 to 24.
pub open spec fn rs2_slot(w: u32) -> u32 {
    (w / 1048576) % 32
}

/// The major function code `funct7`: bits 25 to 31.
pub open spec fn f7_slot(w: u32) -> u32 {
    w / 33554432
}

/// The immediate field of an I-form word: bits 20 to 31, unsigned.
pub open spec fn i_imm_slot(w: u32) -> u32 {
    w / 1048576
}

/// The immediate of an S-form word, reassembled unsigned from its two
/// pieces: bits 25 to 31 are the high part, bits 7 to 11 the low part.
pub open spec fn s_imm_slot(w: u32) -> int {
    f7_slot(w) * 32 + rd_slot(w)
}

/// The branch offset of a B-form word, reassembled unsigned from its
/// shuffled pieces; always even.
pub open spec fn b_imm_slot(w: u32) -> int {
    (f7_slot(w) / 64) * 4096 + (rd_slot(w) % 2) * 2048 + (f7_slot(w) % 64) * 32 + (rd_slot(w)
        / 2) * 2
}

/// Sign-extend a 12-bit unsigned field to its signed value.
pub open spec fn sext12(raw: int) -> i16 {
    if raw >= 2048 {
        (raw - 4096) as i16
    } else {
        raw as i16
    }
}

/// Sign-extend a 13-bit unsigned field to its signed value.
pub open spec fn sext13(raw: int) -> i16 {
    if raw >= 4096 {
        (raw - 8192) as i16
    } else {
        raw as i16
    }
}

/// What `decode` returns for a given word.
///
/// The address at which the word sits does not influence the result:
/// every recognized encoding is position-independent, with branch
/// offsets resolved against the program counter only at execution time.
pub open spec fn spec_decode(w: u32) -> Instruction {
    let opv = op_slot(w);
    let rd = rd_slot(w) as u8;
    let rs1 = rs1_slot(w) as u8;
    let rs2 = rs2_slot(w) as u8;
    if opv == 0x33 {
        if f3_slot(w) == 0 && f7_slot(w) == 0 {
            Instruction::ADD(Add { rs1, rs2, rd })
        } else if f3_slot(w) == 0 && f7_slot(w) == 32 {
            Instruction::SUB(Sub { rs1, rs2, rd })
        } else {
            Instruction::UNKNOWN
        }
    } else if opv == 0x13 {
        if f3_slot(w) == 0 {
            Instruction::ADDI(AddI { rs1, rd, imm12: sext12(i_imm_slot(w) as int) })
        } else if f3_slot(w) == 1 {
            Instruction::SLLI(SllI { rs1, rd, shamt: rs2_slot(w) as u8 })
        } else {
            Instruction::UNKNOWN
        }
    } else if opv == 0x03 {
        let load = Load { rs1, rd, imm12: sext12(i_imm_slot(w) as int) };
        if f3_slot(w) == 0 {
            Instruction::LB(load)
        } else if f3_slot(w) == 1 {
            Instruction::LH(load)
        } else if f3_slot(w) == 2 {
            Instruction::LW(load)
        } else if f3_slot(w) == 4 {
            Instruction::LBU(load)
        } else if f3_slot(w) == 5 {
            Instruction::LHU(load)
        } else {
            Instruction::UNKNOWN
        }
    } else if opv == 0x23 {
        let store = Store { rs1, rs2, imm12: sext12(s_imm_slot(w)) };
        if f3_slot(w) == 0 {
            Instruction::SB(store)
        } else if f3_slot(w) == 1 {
            Instruction::SH(store)
        } else if f3_slot(w) == 2 {
            Instruction::SW(store)
        } else {
            Instruction::UNKNOWN
        }
    } else if opv == 0x63 {
        let branch = Branch { rs1, rs2, offset: sext13(b_imm_slot(w)) };
        if f3_slot(w) == 0 {
            Instruction::BEQ(branch)
        } else if f3_slot(w) == 1 {
            Instruction::BNE(branch)
        } else if f3_slot(w) == 4 {
            Instruction::BLT(branch)
        } else if f3_slot(w) == 5 {
            Instruction::BGE(branch)
        } else if f3_slot(w) == 6 {
            Instruction::BLTU(branch)
        } else if f3_slot(w) == 7 {
            Instruction::BGEU(branch)
        } else {
            Instruction::UNKNOWN
        }
    } else if opv == 0x67 {
        if f3_slot(w) == 0 {
            Instruction::JALR(Jalr { rd, rs1, imm12: sext12(i_imm_slot(w) as int) })
        } else {
            Instruction::UNKNOWN
        }
    } else if opv == 0x37 {
        Instruction::LUI(Lui { rd, imm: ((w / 4096) * 4096) as u32 })
    } else if w == 0x73 {
        Instruction::ECALL
    } else if w == 0x00100073 {
        Instruction::EBREAK
    } else {
        Instruction::UNKNOWN
    }
}

/// Decode the raw word fetched from `addr`.
///
/// Total: never fails; unrecognized words decode to `UNKNOWN` so that the
/// executor can report them uniformly as illegal-instruction traps.  The
/// address is part of the decoder's interface, but the result does not
/// depend on it: all encodings here are position-independent.
pub fn decode(addr: u32, word: u32) -> (r: Instruction)
    ensures
        r == spec_decode(word),
        r.wf(),
{
    let _ = addr;
    let w = word;
    let opv = w % 128;
    let rd = ((w / 128) % 32) as u8;
    let f3 = (w / 4096) % 8;
    let rs1 = ((w / 32768) % 32) as u8;
    let rs2 = ((w / 1048576) % 32) as u8;
    let f7 = w / 33554432;
    if opv == 0x33 {
        if f3 == 0 && f7 == 0 {
            Instruction::ADD(Add { rs1, rs2, rd })
        } else if f3 == 0 && f7 == 32 {
            Instruction::SUB(Sub { rs1, rs2, rd })
        } else {
            Instruction::UNKNOWN
        }
    } else if opv == 0x13 {
        if f3 == 0 {
            Instruction::ADDI(AddI { rs1, rd, imm12: sext12_exec(w / 1048576) })
        } else if f3 == 1 {
            Instruction::SLLI(SllI { rs1, rd, shamt: ((w / 1048576) % 32) as u8 })
        } else {
            Instruction::UNKNOWN
        }
    } else if opv == 0x03 {
        let load = Load { rs1, rd, imm12: sext12_exec(w / 1048576) };
        if f3 == 0 {
            Instruction::LB(load)
        } else if f3 == 1 {
            Instruction::LH(load)
        } else if f3 == 2 {
            Instruction::LW(load)
        } else if f3 == 4 {
            Instruction::LBU(load)
        } else if f3 == 5 {
            Instruction::LHU(load)
        } else {
            Instruction::UNKNOWN
        }
    } else if opv == 0x23 {
        let store = Store { rs1, rs2, imm12: sext12_exec(f7 * 32 + ((w / 128) % 32)) };
        if f3 == 0 {
            Instruction::SB(store)
        } else if f3 == 1 {
            Instruction::SH(store)
        } else if f3 == 2 {
            Instruction::SW(store)
        } else {
            Instruction::UNKNOWN
        }
    } else if opv == 0x63 {
        let rdslot = (w / 128) % 32;
        let raw13 = (f7 / 64) * 4096 + (rdslot % 2) * 2048 + (f7 % 64) * 32 + (rdslot / 2) * 2;
        let branch = Branch { rs1, rs2, offset: sext13_exec(raw13) };
        if f3 == 0 {
            Instruction::BEQ(branch)
        } else if f3 == 1 {
            Instruction::BNE(branch)
        } else if f3 == 4 {
            Instruction::BLT(branch)
        } else if f3 == 5 {
            Instruction::BGE(branch)
        } else if f3 == 6 {
            Instruction::BLTU(branch)
        } else if f3 == 7 {
            Instruction::BGEU(branch)
        } else {
            Instruction::UNKNOWN
        }
    } else if opv == 0x67 {
        if f3 == 0 {
            Instruction::JALR(Jalr { rd, rs1, imm12: sext12_exec(w / 1048576) })
        } else {
            Instruction::UNKNOWN
        }
    } else if opv == 0x37 {
        Instruction::LUI(Lui { rd, imm: (w / 4096) * 4096 })
    } else if w == 0x73 {
        Instruction::ECALL
    } else if w == 0x00100073 {
        Instruction::EBREAK
    } else {
        Instruction::UNKNOWN
    }
}

/// Executable form of [`sext12`].
fn sext12_exec(raw: u32) -> (r: i16)
    requires
        raw < 4096,
    ensures
        r == sext12(raw as int),
{
    if raw >= 2048 {
        ((raw as i32) - 4096) as i16
    } else {
        raw as i16
    }
}

/// Executable form of [`sext13`].
fn sext13_exec(raw: u32) -> (r: i16)
    requires
        raw < 8192,
    ensures
        r == sext13(raw as int),
{
    if raw >= 4096 {
        ((raw as i32) - 8192) as i16
    } else {
        raw as i16
    }
}

/// Whether an instruction has an encoding as a single word.
///
/// `UNKNOWN` stands for every word that is not an encoding, so it has
/// none itself; the other variants need their immediates inside the
/// ranges that the word layout can carry.
pub open spec fn encodable(inst: Instruction) -> bool {
    inst.wf() && match inst {
        Instruction::ADD(_) => true,
        Instruction::SUB(_) => true,
        Instruction::ADDI(i) => -2048 <= i.imm12 <= 2047,
        Instruction::SLLI(i) => i.shamt < 32,
        Instruction::LB(l) => -2048 <= l.imm12 <= 2047,
        Instruction::LH(l) => -2048 <= l.imm12 <= 2047,
        Instruction::LW(l) => -2048 <= l.imm12 <= 2047,
        Instruction::LBU(l) => -2048 <= l.imm12 <= 2047,
        Instruction::LHU(l) => -2048 <= l.imm12 <= 2047,
        Instruction::SB(st) => -2048 <= st.imm12 <= 2047,
        Instruction::SH(st) => -2048 <= st.imm12 <= 2047,
        Instruction::SW(st) => -2048 <= st.imm12 <= 2047,
        Instruction::JALR(j) => -2048 <= j.imm12 <= 2047,
        Instruction::BEQ(b) => -4096 <= b.offset <= 4094 && b.offset % 2 == 0,
        Instruction::BNE(b) => -4096 <= b.offset <= 4094 && b.offset % 2 == 0,
        Instruction::BLT(b) => -4096 <= b.offset <= 4094 && b.offset % 2 == 0,
        Instruction::BLTU(b) => -4096 <= b.offset <= 4094 && b.offset % 2 == 0,
        Instruction::BGE(b) => -4096 <= b.offset <= 4094 && b.offset % 2 == 0,
        Instruction::BGEU(b) => -4096 <= b.offset <= 4094 && b.offset % 2 == 0,
        Instruction::LUI(u) => u.imm % 4096 == 0,
        Instruction::ECALL => true,
        Instruction::EBREAK => true,
        Instruction::UNKNOWN => false,
    }
}

proof fn lemma_word_fields(w: u32, opv: u32, rd: u32, f3v: u32, rs1: u32, rs2: u32, f7v: u32)
    by (bit_vector)
    requires
        opv < 128,
        rd < 32,
        f3v < 8,
        rs1 < 32,
        rs2 < 32,
        f7v < 128,
        w == opv + rd * 128 + f3v * 4096 + rs1 * 32768 + rs2 * 1048576 + f7v * 33554432,
    ensures
        w % 128 == opv,
        (w / 128) % 32 == rd,
        (w / 4096) % 8 == f3v,
        (w / 32768) % 32 == rs1,
        (w / 1048576) % 32 == rs2,
        w / 33554432 == f7v,
        w / 1048576 == rs2 + f7v * 32,
{
}

proof fn lemma_word_fields_i(w: u32, opv: u32, rd: u32, f3v: u32, rs1: u32, raw: u32)
    by (bit_vector)
    requires
        opv < 128,
        rd < 32,
        f3v < 8,
        rs1 < 32,
        raw < 4096,
        w == opv + rd * 128 + f3v * 4096 + rs1 * 32768 + raw * 1048576,
    ensures
        w % 128 == opv,
        (w / 128) % 32 == rd,
        (w / 4096) % 8 == f3v,
        (w / 32768) % 32 == rs1,
        (w / 1048576) % 32 == raw % 32,
        w / 1048576 == raw,
        w / 33554432 == raw / 32,
        (raw / 32) * 32 + raw % 32 == raw,
{
}

proof fn lemma_b_layout(raw13: u32, rdslot: u32, f7slot: u32)
    by (bit_vector)
    requires
        raw13 < 8192,
        raw13 % 2 == 0,
        rdslot == ((raw13 / 2) % 16) * 2 + (raw13 / 2048) % 2,
        f7slot == (raw13 / 4096) * 64 + (raw13 / 32) % 64,
    ensures
        rdslot < 32,
        f7slot < 128,
        (f7slot / 64) * 4096 + (rdslot % 2) * 2048 + (f7slot % 64) * 32 + (rdslot / 2) * 2
            == raw13,
{
}

proof fn lemma_u_layout(w: u32, rd: u32, imm: u32)
    by (bit_vector)
    requires
        rd < 32,
        imm % 4096 == 0,
        w == 0x37 + rd * 128 + imm,
    ensures
        w % 128 == 0x37,
        (w / 128) % 32 == rd,
        (w / 4096) * 4096 == imm,
{
}

/// Build an R-form word from its fields.
fn encode_rtype(opv: u32, f3v: u32, f7v: u32, rd: u8, rs1: u8, rs2: u8) -> (w: u32)
    requires
        opv < 128,
        f3v < 8,
        f7v < 128,
        rd < 32,
        rs1 < 32,
        rs2 < 32,
    ensures
        op_slot(w) == opv,
        f3_slot(w) == f3v,
        f7_slot(w) == f7v,
        rd_slot(w) == rd,
        rs1_slot(w) == rs1,
        rs2_slot(w) == rs2,
{
    let w = opv + (rd as u32) * 128 + f3v * 4096 + (rs1 as u32) * 32768 + (rs2 as u32) * 1048576
        + f7v * 33554432;
    proof {
        lemma_word_fields(w, opv, rd as u32, f3v, rs1 as u32, rs2 as u32, f7v);
    }
    w
}

/// The unsigned 12-bit field that sign-extends to `imm`.
fn raw12_of(imm: i16) -> (raw: u32)
    requires
        -2048 <= imm <= 2047,
    ensures
        raw < 4096,
        sext12(raw as int) == imm,
{
    if imm >= 0 {
        imm as u32
    } else {
        ((imm as i32) + 4096) as u32
    }
}

/// Build an I-form word from its fields.
fn encode_itype(opv: u32, f3v: u32, rd: u8, rs1: u8, imm12: i16) -> (w: u32)
    requires
        opv < 128,
        f3v < 8,
        rd < 32,
        rs1 < 32,
        -2048 <= imm12 <= 2047,
    ensures
        op_slot(w) == opv,
        f3_slot(w) == f3v,
        rd_slot(w) == rd,
        rs1_slot(w) == rs1,
        sext12(i_imm_slot(w) as int) == imm12,
{
    let raw = raw12_of(imm12);
    let w = opv + (rd as u32) * 128 + f3v * 4096 + (rs1 as u32) * 32768 + raw * 1048576;
    proof {
        lemma_word_fields_i(w, opv, rd as u32, f3v, rs1 as u32, raw);
    }
    w
}

/// Build an S-form word from its fields.
fn encode_stype(f3v: u32, rs1: u8, rs2: u8, imm12: i16) -> (w: u32)
    requires
        f3v < 8,
        rs1 < 32,
        rs2 < 32,
        -2048 <= imm12 <= 2047,
    ensures
        op_slot(w) == 0x23,
        f3_slot(w) == f3v,
        rs1_slot(w) == rs1,
        rs2_slot(w) == rs2,
        sext12(s_imm_slot(w)) == imm12,
{
    let raw = raw12_of(imm12);
    let w = 0x23 + (raw % 32) * 128 + f3v * 4096 + (rs1 as u32) * 32768 + (rs2 as u32) * 1048576
        + (raw / 32) * 33554432;
    proof {
        lemma_word_fields(w, 0x23, raw % 32, f3v, rs1 as u32, rs2 as u32, raw / 32);
        assert((raw / 32) * 32 + raw % 32 == raw) by (bit_vector)
            requires
                raw < 4096,
        ;
    }
    w
}

/// Build a B-form word from its fields.
fn encode_btype(f3v: u32, b: Branch) -> (w: u32)
    requires
        f3v < 8,
        b.rs1 < 32,
        b.rs2 < 32,
        -4096 <= b.offset <= 4094,
        b.offset % 2 == 0,
    ensures
        op_slot(w) == 0x63,
        f3_slot(w) == f3v,
        rs1_slot(w) == b.rs1,
        rs2_slot(w) == b.rs2,
        sext13(b_imm_slot(w)) == b.offset,
{
    let off = b.offset;
    let raw13: u32 = if off >= 0 {
        off as u32
    } else {
        ((off as i32) + 8192) as u32
    };
    proof {
        if off < 0 {
            lemma_mod_multiples_vanish(4096, off as int, 2);
        }
        assert(raw13 % 2 == 0);
        assert(raw13 < 8192);
    }
    let rdslot = ((raw13 / 2) % 16) * 2 + (raw13 / 2048) % 2;
    let f7slot = (raw13 / 4096) * 64 + (raw13 / 32) % 64;
    proof {
        lemma_b_layout(raw13, rdslot, f7slot);
    }
    let w = 0x63 + rdslot * 128 + f3v * 4096 + (b.rs1 as u32) * 32768 + (b.rs2 as u32) * 1048576
        + f7slot * 33554432;
    proof {
        lemma_word_fields(w, 0x63, rdslot, f3v, b.rs1 as u32, b.rs2 as u32, f7slot);
    }
    w
}

/// Encode an instruction into the word that decodes back to it.
///
/// This is the assembler used to lay test programs out in memory; the
/// postcondition is the round trip itself.
pub fn encode(inst: Instruction) -> (w: u32)
    requires
        encodable(inst),
    ensures
        spec_decode(w) == inst,
{
    match inst {
        Instruction::ADD(i) => encode_rtype(0x33, 0, 0, i.rd, i.rs1, i.rs2),
        Instruction::SUB(i) => encode_rtype(0x33, 0, 32, i.rd, i.rs1, i.rs2),
        Instruction::ADDI(i) => encode_itype(0x13, 0, i.rd, i.rs1, i.imm12),
        Instruction::SLLI(i) => encode_rtype(0x13, 1, 0, i.rd, i.rs1, i.shamt),
        Instruction::LB(l) => encode_itype(0x03, 0, l.rd, l.rs1, l.imm12),
        Instruction::LH(l) => encode_itype(0x03, 1, l.rd, l.rs1, l.imm12),
        Instruction::LW(l) => encode_itype(0x03, 2, l.rd, l.rs1, l.imm12),
        Instruction::LBU(l) => encode_itype(0x03, 4, l.rd, l.rs1, l.imm12),
        Instruction::LHU(l) => encode_itype(0x03, 5, l.rd, l.rs1, l.imm12),
        Instruction::SB(st) => encode_stype(0, st.rs1, st.rs2, st.imm12),
        Instruction::SH(st) => encode_stype(1, st.rs1, st.rs2, st.imm12),
        Instruction::SW(st) => encode_stype(2, st.rs1, st.rs2, st.imm12),
        Instruction::JALR(j) => encode_itype(0x67, 0, j.rd, j.rs1, j.imm12),
        Instruction::BEQ(b) => encode_btype(0, b),
        Instruction::BNE(b) => encode_btype(1, b),
        Instruction::BLT(b) => encode_btype(4, b),
        Instruction::BGE(b) => encode_btype(5, b),
        Instruction::BLTU(b) => encode_btype(6, b),
        Instruction::BGEU(b) => encode_btype(7, b),
        Instruction::LUI(u) => {
            let w = 0x37 + (u.rd as u32) * 128 + u.imm;
            proof {
                lemma_u_layout(w, u.rd as u32, u.imm);
            }
            w
        },
        Instruction::ECALL => 0x73,
        Instruction::EBREAK => 0x00100073,
        Instruction::UNKNOWN => 0,
    }
}

} // verus!
