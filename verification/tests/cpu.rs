//! Jump, memory and immediate instruction behaviour, driven through the
//! assembling harness.

use mozak_vm::code;
use mozak_vm::instruction::{Add, AddI, Branch, Instruction, Jalr, Load, Lui, Store, Sub};

#[test]
fn prove_jalr_goto_no_rs1() {
    let (_program, record) = code::execute(
        vec![Instruction::JALR(Jalr { rd: 0, rs1: 0, imm12: 4 })],
        &[],
        &[],
    );
    assert_eq!(record.last_state.get_pc(), 8);
}

#[test]
fn prove_jalr_goto_rs1_zero() {
    let (_program, record) = code::execute(
        vec![Instruction::JALR(Jalr { rd: 0, rs1: 1, imm12: 4 })],
        &[],
        &[(0x1, 0)],
    );
    assert_eq!(record.last_state.get_pc(), 8);
}

#[test]
fn prove_jalr_goto_imm_zero_rs1_not_zero() {
    let (_program, record) = code::execute(
        vec![Instruction::JALR(Jalr { rd: 0, rs1: 1, imm12: 0 })],
        &[],
        &[(0x1, 4)],
    );
    assert_eq!(record.last_state.get_pc(), 8);
}

#[test]
fn prove_jalr() {
    let (_program, record) = code::execute(
        vec![Instruction::JALR(Jalr { rd: 1, rs1: 0, imm12: 4 })],
        &[],
        &[(0x1, 0)],
    );
    assert_eq!(record.last_state.get_pc(), 8);
}

fn prove_triple_jalr() {
    let (_program, record) = code::execute(
        vec![
            // goto pc = 8
            Instruction::JALR(Jalr { rd: 0, rs1: 0, imm12: 8 }),
            // goto pc = 12
            Instruction::JALR(Jalr { rd: 0, rs1: 0, imm12: 12 }),
            // goto pc = 4
            Instruction::JALR(Jalr { rd: 0, rs1: 0, imm12: 4 }),
        ],
        &[],
        &[],
    );
    assert_eq!(record.last_state.get_pc(), 16);
}

#[test]
fn prove_triple_jalr_cpu() {
    prove_triple_jalr()
}

#[test]
fn prove_triple_jalr_mozak() {
    prove_triple_jalr()
}

#[test]
fn prove_sb_test() {
    let (_program, record) = code::execute(
        vec![Instruction::SB(Store { rs1: 6, rs2: 7, imm12: 0 })],
        &[],
        &[(6, 100), (7, 200)],
    );
    assert_eq!(record.last_state.load_u8(100), 200);
}

#[test]
fn prove_mem_read_write_test() {
    let (_program, record) = code::execute(
        vec![
            Instruction::SB(Store { rs1: 1, rs2: 2, imm12: 0 }),
            Instruction::LBU(Load { rs1: 0, rd: 0, imm12: 0 }),
        ],
        &[],
        &[(1, 100), (2, 200)],
    );
    assert_eq!(record.last_state.load_u8(100), 200);
}

#[test]
fn prove_halt() {
    let (_program, record) = code::execute(vec![], &[], &[]);
    assert!(record.last_state.has_halted());
}

#[test]
fn prove_lui() {
    let lui = Instruction::LUI(Lui { rd: 1, imm: 0x8000_0000 });
    let (_program, record) = code::execute(vec![lui], &[], &[]);
    assert_eq!(record.last_state.get_register_value(1), 0x8000_0000);
}

#[test]
fn prove_lui_2() {
    // Load the full constant 0xDEAD_BEEF: upper immediate rounded up,
    // then the signed low part.
    let (_program, record) = code::execute(
        vec![
            Instruction::LUI(Lui { rd: 1, imm: 0xDEAD_C000 }),
            Instruction::ADDI(AddI { rs1: 1, rd: 1, imm12: -273 }),
        ],
        &[],
        &[],
    );
    assert_eq!(record.last_state.get_register_value(1), 0xDEAD_BEEF);
}

#[test]
fn prove_beq() {
    let (_program, record) = code::execute(
        vec![Instruction::BEQ(Branch {
            rs1: 0,
            rs2: 1,
            offset: 42, // branch target, not taken here
        })],
        &[],
        &[(1, 2)],
    );
    assert_eq!(record.last_state.get_pc(), 8);
}

#[test]
fn add_wraps_modulo_two_to_32() {
    let (_program, record) = code::execute(
        vec![Instruction::ADD(Add { rs1: 1, rs2: 2, rd: 3 })],
        &[],
        &[(1, 3_000_000_000), (2, 2_000_000_000)],
    );
    // 5_000_000_000 mod 2^32
    assert_eq!(record.executed[0].aux.dst_val, 705_032_704);
    assert_eq!(record.last_state.get_register_value(3), 705_032_704);
}

#[test]
fn sub_wraps_modulo_two_to_32() {
    let (_program, record) = code::execute(
        vec![Instruction::SUB(Sub { rs1: 1, rs2: 2, rd: 3 })],
        &[],
        &[(1, 5), (2, 10)],
    );
    assert_eq!(record.executed[0].aux.dst_val, 4_294_967_291);
    assert_eq!(record.last_state.get_register_value(3), 4_294_967_291);
}

#[test]
fn jalr_wraps_target_and_links() {
    let (_program, record) = code::execute(
        vec![Instruction::JALR(Jalr { rd: 5, rs1: 1, imm12: 8 })],
        &[],
        &[(1, 0xFFFF_FFFC)],
    );
    // Target (0xFFFF_FFFC + 8) mod 2^32 = 4; the link register gets pc + 4.
    assert_eq!(record.executed[1].state.get_pc(), 4);
    assert_eq!(record.executed[0].aux.dst_val, 4);
    assert_eq!(record.last_state.get_register_value(5), 4);
}

#[test]
fn writes_to_register_zero_are_discarded() {
    let (_program, record) = code::execute(
        vec![Instruction::ADD(Add { rs1: 1, rs2: 2, rd: 0 })],
        &[],
        &[(1, 7), (2, 8)],
    );
    assert_eq!(record.executed[0].aux.dst_val, 15);
    assert_eq!(record.last_state.get_register_value(0), 0);
}

#[test]
fn store_byte_load_unsigned_round_trip() {
    let (_program, record) = code::execute(
        vec![
            Instruction::SB(Store { rs1: 1, rs2: 2, imm12: 0 }),
            Instruction::LBU(Load { rs1: 1, rd: 3, imm12: 0 }),
        ],
        &[],
        &[(1, 100), (2, 200)],
    );
    assert_eq!(record.last_state.get_register_value(3), 200);
}

#[test]
fn store_load_round_trips_by_width() {
    let (_program, record) = code::execute(
        vec![
            Instruction::SH(Store { rs1: 1, rs2: 2, imm12: 0 }),
            Instruction::LHU(Load { rs1: 1, rd: 3, imm12: 0 }),
            Instruction::LH(Load { rs1: 1, rd: 4, imm12: 0 }),
            Instruction::SW(Store { rs1: 1, rs2: 5, imm12: 4 }),
            Instruction::LW(Load { rs1: 1, rd: 6, imm12: 4 }),
            Instruction::LB(Load { rs1: 1, rd: 7, imm12: 0 }),
        ],
        &[],
        &[(1, 256), (2, 0x1BEEF), (5, 0xCAFE_F00D)],
    );
    // Halfword: only the low 16 bits of 0x1BEEF survive; LH sign-extends.
    assert_eq!(record.last_state.get_register_value(3), 0xBEEF);
    assert_eq!(record.last_state.get_register_value(4), 0xFFFF_BEEF);
    // Word: exact round trip.
    assert_eq!(record.last_state.get_register_value(6), 0xCAFE_F00D);
    // Byte: 0xEF sign-extends.
    assert_eq!(record.last_state.get_register_value(7), 0xFFFF_FFEF);
}

#[test]
fn unaligned_word_load_traps() {
    let (_program, record) = code::execute(
        vec![Instruction::LW(Load { rs1: 1, rd: 3, imm12: 0 })],
        &[],
        &[(1, 102)],
    );
    assert!(record.last_state.has_halted());
    // The trap freezes the program counter at the faulting step.
    assert_eq!(record.last_state.get_pc(), 0);
    assert_eq!(record.executed.len(), 1);
    assert!(!record.executed[0].aux.will_halt);
}

#[test]
fn shift_left_by_31_wraps() {
    let (_program, record) = code::execute(
        vec![mozak_vm::instruction::Instruction::SLLI(mozak_vm::instruction::SllI {
            rs1: 1,
            rd: 3,
            shamt: 31,
        })],
        &[],
        &[(1, 2)],
    );
    // 2 << 31 == 2^32 == 0 mod 2^32.
    assert_eq!(record.last_state.get_register_value(3), 0);
}

#[test]
fn ebreak_traps_without_halt_flag() {
    let (_program, record) = code::execute(vec![Instruction::EBREAK], &[], &[]);
    assert!(record.last_state.has_halted());
    assert_eq!(record.executed.len(), 1);
    assert!(!record.executed[0].aux.will_halt);
    assert_eq!(record.last_state.get_pc(), 0);
}

#[test]
fn voluntary_halt_sets_will_halt() {
    let (_program, record) = code::execute(vec![], &[], &[]);
    let last = record.executed.len() - 1;
    assert!(record.executed[last].aux.will_halt);
    assert_eq!(record.executed.len(), 2);
}

#[test]
fn clock_ticks_once_per_step_from_its_epoch() {
    let (_program, record) = code::execute(
        vec![Instruction::ADD(Add { rs1: 0, rs2: 0, rd: 1 })],
        &[],
        &[],
    );
    assert_eq!(record.executed[0].state.get_clk(), mozak_vm::state::CLK_EPOCH);
    assert_eq!(record.executed[1].state.get_clk(), mozak_vm::state::CLK_EPOCH + 1);
    assert_eq!(record.last_state.get_clk(), mozak_vm::state::CLK_EPOCH + 3);
}

#[test]
fn state_before_final_is_the_halting_step_state() {
    let (_program, record) = code::execute(
        vec![Instruction::JALR(Jalr { rd: 1, rs1: 0, imm12: 4 })],
        &[],
        &[],
    );
    // The state right before the halting ECALL still shows the link value.
    assert_eq!(record.state_before_final().get_register_value(1), 4);
    assert_eq!(record.len(), 3);
}
