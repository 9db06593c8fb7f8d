//! System-call behaviour, determinism, and the decoder/encoder pair.

use mozak_vm::code;
use mozak_vm::decode::{decode, encode};
use mozak_vm::elf::Program;
use mozak_vm::instruction::{Add, AddI, Branch, Instruction, Jalr, Load, SllI, Store, Sub};
use mozak_vm::vm::run;

/// Build a program image holding the given words at 0, 4, 8, ...
fn program_of_words(words: &[u32]) -> Program {
    let mut image: im::hashmap::HashMap<u32, u8> = im::hashmap::HashMap::new();
    for (i, w) in words.iter().enumerate() {
        let base = 4 * (i as u32);
        for (j, b) in w.to_le_bytes().iter().enumerate() {
            image.insert(base + j as u32, *b);
        }
    }
    Program::from_image(image)
}

#[test]
fn io_read_copies_the_input_tape() {
    // ECALL with call number IO_READ, address 200, length 3; then the
    // harness halt sequence.
    let (program, _ignored) = code::execute(vec![Instruction::ECALL], &[], &[]);
    let record = run(
        &program,
        &[(10, 1), (11, 200), (12, 3)],
        vec![7, 8, 9],
    );
    assert!(record.last_state.has_halted());
    assert_eq!(record.last_state.load_u8(200), 7);
    assert_eq!(record.last_state.load_u8(201), 8);
    assert_eq!(record.last_state.load_u8(202), 9);
}

#[test]
fn io_read_past_the_tape_traps() {
    let (program, _ignored) = code::execute(vec![Instruction::ECALL], &[], &[]);
    let record = run(&program, &[(10, 1), (11, 200), (12, 5)], vec![7, 8]);
    assert!(record.last_state.has_halted());
    assert_eq!(record.executed.len(), 1);
    assert!(!record.executed[0].aux.will_halt);
    assert_eq!(record.last_state.get_pc(), 0);
}

#[test]
fn io_write_appends_memory_bytes_to_the_output() {
    let (program, _ignored) =
        code::execute(vec![Instruction::ECALL], &[(100, 55), (101, 66)], &[]);
    let record = run(&program, &[(10, 2), (11, 100), (12, 2)], vec![]);
    assert!(record.last_state.has_halted());
    assert_eq!(record.last_state.output, vec![55, 66]);
}

#[test]
fn unknown_call_number_traps() {
    let (program, _ignored) = code::execute(vec![Instruction::ECALL], &[], &[]);
    let record = run(&program, &[(10, 77)], vec![]);
    assert!(record.last_state.has_halted());
    assert_eq!(record.executed.len(), 1);
    assert!(!record.executed[0].aux.will_halt);
}

#[test]
fn empty_memory_decodes_to_a_trap() {
    let program = Program::empty();
    let record = run(&program, &[], vec![]);
    assert_eq!(record.executed.len(), 1);
    assert!(record.last_state.has_halted());
    assert_eq!(record.executed[0].aux.inst, Instruction::UNKNOWN);
    assert_eq!(record.last_state.get_pc(), 0);
}

#[test]
fn rerunning_the_same_program_gives_an_identical_record() {
    let code = vec![
        Instruction::ADD(Add { rs1: 1, rs2: 2, rd: 3 }),
        Instruction::SB(Store { rs1: 3, rs2: 2, imm12: 0 }),
        Instruction::LBU(Load { rs1: 3, rd: 4, imm12: 0 }),
        Instruction::BEQ(Branch { rs1: 4, rs2: 4, offset: 4 }),
    ];
    let regs: &[(u8, u32)] = &[(1, 60), (2, 51)];
    let (program, first) = code::execute(code.clone(), &[], regs);
    let second = run(&program, regs, vec![]);
    assert_eq!(first.executed.len(), second.executed.len());
    for (a, b) in first.executed.iter().zip(second.executed.iter()) {
        assert_eq!(a.state.registers, b.state.registers);
        assert_eq!(a.state.pc, b.state.pc);
        assert_eq!(a.state.clk, b.state.clk);
        assert_eq!(a.state.halted, b.state.halted);
        assert_eq!(a.state.memory, b.state.memory);
        assert_eq!(a.aux, b.aux);
    }
    assert_eq!(first.last_state.registers, second.last_state.registers);
    assert_eq!(first.last_state.pc, second.last_state.pc);
    assert_eq!(first.last_state.clk, second.last_state.clk);
    assert_eq!(first.last_state.memory, second.last_state.memory);
}

#[test]
fn decode_recognizes_the_classic_add() {
    // add r5, r6, r7
    assert_eq!(
        decode(0, 0x0073_02B3),
        Instruction::ADD(Add { rs1: 6, rs2: 7, rd: 5 })
    );
}

#[test]
fn decode_takes_shift_amounts_modulo_32() {
    // A shift-immediate word whose raw amount field holds 33.
    let w = 0x13 + 0x80 + 0x1000 + 2 * 0x8000 + 33 * 0x10_0000;
    assert_eq!(
        decode(0, w),
        Instruction::SLLI(SllI { rs1: 2, rd: 1, shamt: 1 })
    );
}

#[test]
fn decode_unknown_words_and_system_words() {
    assert_eq!(decode(0, 0), Instruction::UNKNOWN);
    assert_eq!(decode(0, 0x73), Instruction::ECALL);
    assert_eq!(decode(0, 0x0010_0073), Instruction::EBREAK);
    assert_eq!(decode(0, 0xFFFF_FFFF), Instruction::UNKNOWN);
}

#[test]
fn decode_lui_zeroes_the_low_bits() {
    assert_eq!(
        decode(0, 0xDEAD_C0B7),
        Instruction::LUI(mozak_vm::instruction::Lui { rd: 1, imm: 0xDEAD_C000 })
    );
}

#[test]
fn encode_then_decode_is_the_identity() {
    let samples = vec![
        Instruction::ADD(Add { rs1: 6, rs2: 7, rd: 5 }),
        Instruction::SUB(Sub { rs1: 1, rs2: 31, rd: 2 }),
        Instruction::ADDI(AddI { rs1: 3, rd: 4, imm12: -2048 }),
        Instruction::ADDI(AddI { rs1: 3, rd: 4, imm12: 2047 }),
        Instruction::SLLI(SllI { rs1: 9, rd: 10, shamt: 31 }),
        Instruction::LB(Load { rs1: 8, rd: 9, imm12: -1 }),
        Instruction::LHU(Load { rs1: 8, rd: 9, imm12: 123 }),
        Instruction::LW(Load { rs1: 8, rd: 9, imm12: 4 }),
        Instruction::SB(Store { rs1: 5, rs2: 6, imm12: -100 }),
        Instruction::SH(Store { rs1: 5, rs2: 6, imm12: 100 }),
        Instruction::SW(Store { rs1: 5, rs2: 6, imm12: 0 }),
        Instruction::JALR(Jalr { rd: 1, rs1: 2, imm12: -4 }),
        Instruction::BEQ(Branch { rs1: 1, rs2: 2, offset: -4096 }),
        Instruction::BNE(Branch { rs1: 1, rs2: 2, offset: 4094 }),
        Instruction::BLT(Branch { rs1: 1, rs2: 2, offset: -8 }),
        Instruction::BLTU(Branch { rs1: 1, rs2: 2, offset: 8 }),
        Instruction::BGE(Branch { rs1: 1, rs2: 2, offset: 42 }),
        Instruction::BGEU(Branch { rs1: 1, rs2: 2, offset: -42 }),
        Instruction::LUI(mozak_vm::instruction::Lui { rd: 7, imm: 0xFFFF_F000 }),
        Instruction::ECALL,
        Instruction::EBREAK,
    ];
    for inst in samples {
        assert_eq!(decode(0, encode(inst)), inst);
    }
}

#[test]
fn raw_words_execute_with_shift_amount_modulo_32() {
    // The same out-of-range shift word, followed by the halt sequence.
    let slli_raw = 0x13 + 3 * 0x80 + 0x1000 + 0x8000 + 33 * 0x10_0000;
    let halt_set = encode(Instruction::ADDI(AddI { rs1: 0, rd: 10, imm12: 0 }));
    let ecall = encode(Instruction::ECALL);
    let program = program_of_words(&[slli_raw, halt_set, ecall]);
    let record = run(&program, &[(1, 6)], vec![]);
    assert!(record.last_state.has_halted());
    // Shift by 33 mod 32 = 1: 6 << 1 == 12.
    assert_eq!(record.last_state.get_register_value(3), 12);
}

#[test]
fn branch_comparisons_follow_signedness() {
    // BLT is signed: 0xFFFF_FFFF is -1, so -1 < 1 and the branch to
    // +8 skips the next instruction; BLTU sees 0xFFFF_FFFF as the
    // largest value and falls through.
    let (_p, record) = code::execute(
        vec![
            Instruction::BLT(Branch { rs1: 1, rs2: 2, offset: 8 }),
            Instruction::ADD(Add { rs1: 0, rs2: 2, rd: 5 }),
            Instruction::BLTU(Branch { rs1: 1, rs2: 2, offset: 8 }),
            Instruction::ADD(Add { rs1: 0, rs2: 2, rd: 6 }),
        ],
        &[],
        &[(1, 0xFFFF_FFFF), (2, 1)],
    );
    assert!(record.last_state.has_halted());
    // The first ADD was skipped, the second executed.
    assert_eq!(record.last_state.get_register_value(5), 0);
    assert_eq!(record.last_state.get_register_value(6), 1);
}
