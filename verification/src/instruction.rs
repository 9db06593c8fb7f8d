//! The decoded instruction set: a closed sum type over opcode classes,
//! each with its class-specific operand shape.
//!
//! Decoding is total: a raw word that matches no recognized encoding
//! becomes [`Instruction::UNKNOWN`], which the executor treats as an
//! illegal-instruction trap rather than an error.

use vstd::prelude::*;

verus! {

/// Register-register addition: `rd <- rs1 + rs2`, wrapping modulo 2^32.
#[derive(Debug, Clone, Copy, Eq, PartialEq, Structural)]
pub struct Add {
    pub rs1: u8,
    pub rs2: u8,
    pub rd: u8,
}

/// Register-register subtraction: `rd <- rs1 - rs2`, wrapping modulo 2^32.
#[derive(Debug, Clone, Copy, Eq, PartialEq, Structural)]
pub struct Sub {
    pub rs1: u8,
    pub rs2: u8,
    pub rd: u8,
}

/// Register-immediate addition: `rd <- rs1 + imm12`, wrapping modulo 2^32.
#[derive(Debug, Clone, Copy, Eq, PartialEq, Structural)]
pub struct AddI {
    pub rs1: u8,
    pub rd: u8,
    /// 12 bit sign extended immediate value, -2048 to 2047.
    pub imm12: i16,
}

/// Logical shift left by an immediate amount.
///
/// The shift amount is taken modulo 32, so any `u8` value is meaningful.
#[derive(Debug, Clone, Copy, Eq, PartialEq, Structural)]
pub struct SllI {
    pub rs1: u8,
    pub rd: u8,
    /// 5 bit unsigned immediate value, 0 to 31; larger values act modulo 32.
    pub shamt: u8,
}

/// A memory load: `rd <- memory[rs1 + imm12]`, width and extension given
/// by the enclosing variant.
#[derive(Debug, Clone, Copy, Eq, PartialEq, Structural)]
pub struct Load {
    pub rs1: u8,
    pub rd: u8,
    /// 12 bit sign extended immediate value, -2048 to 2047.
    pub imm12: i16,
}

/// A memory store: `memory[rs1 + imm12] <- rs2`, low-order bytes only,
/// width given by the enclosing variant.
#[derive(Debug, Clone, Copy, Eq, PartialEq, Structural)]
pub struct Store {
    pub rs1: u8,
    pub rs2: u8,
    /// 12 bit sign extended immediate value, -2048 to 2047.
    pub imm12: i16,
}

/// Indirect jump-and-link: `pc <- rs1 + imm12` (wrapping), and the link
/// register `rd`, when not register 0, receives the wrapped `pc + 4`.
#[derive(Debug, Clone, Copy, Eq, PartialEq, Structural)]
pub struct Jalr {
    pub rd: u8,
    pub rs1: u8,
    /// 12 bit sign extended immediate value, -2048 to 2047.
    pub imm12: i16,
}

/// A conditional branch: if the predicate of the enclosing variant holds
/// of `rs1` and `rs2`, then `pc <- pc + offset` (wrapping), else `pc + 4`.
#[derive(Debug, Clone, Copy, Eq, PartialEq, Structural)]
pub struct Branch {
    pub rs1: u8,
    pub rs2: u8,
    /// 13 bit sign extended even offset, -4096 to 4094.
    pub offset: i16,
}

/// Load upper immediate: `rd <- imm`.
///
/// Decoding always produces an `imm` whose low 12 bits are zero; the
/// executor accepts any value, so a pre-decoded program may carry a full
/// 32-bit constant here.
#[derive(Debug, Clone, Copy, Eq, PartialEq, Structural)]
pub struct Lui {
    pub rd: u8,
    pub imm: u32,
}

/// One decoded instruction.
///
/// Loads come in widths of one, two and four bytes; byte and halfword
/// loads exist both sign-extending (`LB`, `LH`) and zero-extending
/// (`LBU`, `LHU`).  Stores mirror the widths.  `UNKNOWN` stands for any
/// unrecognized word and is executed as an illegal-instruction trap.
#[derive(Debug, Clone, Copy, Eq, PartialEq, Structural)]
#[allow(clippy::upper_case_acronyms)]
pub enum Instruction {
    ADD(Add),
    ADDI(AddI),
    SUB(Sub),
    SLLI(SllI),
    LB(Load),
    LH(Load),
    LW(Load),
    LBU(Load),
    LHU(Load),
    SB(Store),
    SH(Store),
    SW(Store),
    JALR(Jalr),
    BEQ(Branch),
    BNE(Branch),
    BLT(Branch),
    BLTU(Branch),
    BGE(Branch),
    BGEU(Branch),
    LUI(Lui),
    ECALL,
    EBREAK,
    UNKNOWN,
}

/// A register index addresses one of the 32 general-purpose registers.
pub open spec fn reg_ok(r: u8) -> bool {
    r < 32
}

impl Instruction {
    /// Every register field addresses one of the 32 registers.
    ///
    /// The decoder only produces well-formed instructions; pre-decoded
    /// programs must satisfy this before they can be executed.
    pub open spec fn wf(self) -> bool {
        match self {
            Instruction::ADD(i) => reg_ok(i.rs1) && reg_ok(i.rs2) && reg_ok(i.rd),
            Instruction::SUB(i) => reg_ok(i.rs1) && reg_ok(i.rs2) && reg_ok(i.rd),
            Instruction::ADDI(i) => reg_ok(i.rs1) && reg_ok(i.rd),
            Instruction::SLLI(i) => reg_ok(i.rs1) && reg_ok(i.rd),
            Instruction::LB(i) => reg_ok(i.rs1) && reg_ok(i.rd),
            Instruction::LH(i) => reg_ok(i.rs1) && reg_ok(i.rd),
            Instruction::LW(i) => reg_ok(i.rs1) && reg_ok(i.rd),
            Instruction::LBU(i) => reg_ok(i.rs1) && reg_ok(i.rd),
            Instruction::LHU(i) => reg_ok(i.rs1) && reg_ok(i.rd),
            Instruction::SB(i) => reg_ok(i.rs1) && reg_ok(i.rs2),
            Instruction::SH(i) => reg_ok(i.rs1) && reg_ok(i.rs2),
            Instruction::SW(i) => reg_ok(i.rs1) && reg_ok(i.rs2),
            Instruction::JALR(i) => reg_ok(i.rd) && reg_ok(i.rs1),
            Instruction::BEQ(i) => reg_ok(i.rs1) && reg_ok(i.rs2),
            Instruction::BNE(i) => reg_ok(i.rs1) && reg_ok(i.rs2),
            Instruction::BLT(i) => reg_ok(i.rs1) && reg_ok(i.rs2),
            Instruction::BLTU(i) => reg_ok(i.rs1) && reg_ok(i.rs2),
            Instruction::BGE(i) => reg_ok(i.rs1) && reg_ok(i.rs2),
            Instruction::BGEU(i) => reg_ok(i.rs1) && reg_ok(i.rs2),
            Instruction::LUI(i) => reg_ok(i.rd),
            Instruction::ECALL => true,
            Instruction::EBREAK => true,
            Instruction::UNKNOWN => true,
        }
    }
}

} // verus!
