//! Loading executable images: the accepted shape and each rejection.

use mozak_vm::decode::encode;
use mozak_vm::elf::{InvalidFormatError, Program};
use mozak_vm::instruction::{AddI, Instruction, Jalr};
use mozak_vm::vm::run;

/// A minimal 32-bit little-endian executable image with one loadable
/// segment holding `payload` at virtual address `vaddr`, entry `entry`.
fn minimal_elf(entry: u32, vaddr: u32, payload: &[u8]) -> Vec<u8> {
    let phnum = 1u16;
    let phoff = 52u32;
    let mut b = vec![0u8; 52 + 32];
    b[0] = 0x7F;
    b[1] = b'E';
    b[2] = b'L';
    b[3] = b'F';
    b[4] = 1; // 32-bit
    b[5] = 1; // little endian
    b[6] = 1; // version
    b[16..18].copy_from_slice(&2u16.to_le_bytes()); // executable
    b[18..20].copy_from_slice(&243u16.to_le_bytes()); // RISC machine tag
    b[24..28].copy_from_slice(&entry.to_le_bytes());
    b[28..32].copy_from_slice(&phoff.to_le_bytes());
    b[42..44].copy_from_slice(&32u16.to_le_bytes()); // phentsize
    b[44..46].copy_from_slice(&phnum.to_le_bytes());
    let off = (52 + 32) as u32;
    let ph = 52;
    b[ph..ph + 4].copy_from_slice(&1u32.to_le_bytes()); // PT_LOAD
    b[ph + 4..ph + 8].copy_from_slice(&off.to_le_bytes());
    b[ph + 8..ph + 12].copy_from_slice(&vaddr.to_le_bytes());
    b[ph + 16..ph + 20].copy_from_slice(&(payload.len() as u32).to_le_bytes()); // filesz
    b[ph + 20..ph + 24].copy_from_slice(&(payload.len() as u32 + 8).to_le_bytes()); // memsz
    b.extend_from_slice(payload);
    b
}

#[test]
fn loads_and_runs_a_single_indirect_jump() {
    // The program image holds one jump with immediate 4 and no base
    // register contribution, then the halt sequence.
    let mut payload = Vec::new();
    for inst in [
        Instruction::JALR(Jalr { rd: 0, rs1: 0, imm12: 4 }),
        Instruction::ADDI(AddI { rs1: 0, rd: 10, imm12: 0 }),
        Instruction::ECALL,
    ] {
        payload.extend_from_slice(&encode(inst).to_le_bytes());
    }
    let bytes = minimal_elf(0, 0, &payload);
    let program = Program::load_elf(&bytes).expect("valid image");
    assert_eq!(program.entry, 0);
    let record = run(&program, &[], vec![]);
    assert_eq!(record.last_state.get_pc(), 8);
}

#[test]
fn loader_copies_min_of_file_and_memory_size() {
    let bytes = minimal_elf(0, 0x1000, &[1, 2, 3]);
    let program = Program::load_elf(&bytes).expect("valid image");
    assert_eq!(program.image.get(&0x1000), Some(&1));
    assert_eq!(program.image.get(&0x1001), Some(&2));
    assert_eq!(program.image.get(&0x1002), Some(&3));
    // Declared memory beyond the file bytes stays implicitly zero.
    assert_eq!(program.image.get(&0x1003), None);
}

#[test]
fn loader_rejects_short_input() {
    assert_eq!(Program::load_elf(&[0x7F, b'E', b'L', b'F']).err(), Some(InvalidFormatError::NotElf32LittleEndian));
}

#[test]
fn loader_rejects_bad_magic() {
    let mut bytes = minimal_elf(0, 0, &[]);
    bytes[0] = 0x7E;
    assert_eq!(Program::load_elf(&bytes).err(), Some(InvalidFormatError::NotElf32LittleEndian));
}

#[test]
fn loader_rejects_64_bit_images() {
    let mut bytes = minimal_elf(0, 0, &[]);
    bytes[4] = 2;
    assert_eq!(Program::load_elf(&bytes).err(), Some(InvalidFormatError::NotElf32LittleEndian));
}

#[test]
fn loader_rejects_big_endian_images() {
    let mut bytes = minimal_elf(0, 0, &[]);
    bytes[5] = 2;
    assert_eq!(Program::load_elf(&bytes).err(), Some(InvalidFormatError::NotElf32LittleEndian));
}

#[test]
fn loader_rejects_wrong_machine() {
    let mut bytes = minimal_elf(0, 0, &[]);
    bytes[18..20].copy_from_slice(&62u16.to_le_bytes());
    assert_eq!(Program::load_elf(&bytes).err(), Some(InvalidFormatError::WrongMachine));
}

#[test]
fn loader_rejects_non_executables() {
    let mut bytes = minimal_elf(0, 0, &[]);
    bytes[16..18].copy_from_slice(&3u16.to_le_bytes());
    assert_eq!(Program::load_elf(&bytes).err(), Some(InvalidFormatError::WrongType));
}

#[test]
fn loader_rejects_misaligned_entry() {
    let bytes = minimal_elf(2, 0, &[]);
    assert_eq!(Program::load_elf(&bytes).err(), Some(InvalidFormatError::MisalignedEntry));
}

#[test]
fn loader_rejects_too_many_segments() {
    // 257 loadable program headers, each with nothing to copy.
    let phnum = 257u16;
    let mut b = vec![0u8; 52 + 32 * 257];
    b[0] = 0x7F;
    b[1] = b'E';
    b[2] = b'L';
    b[3] = b'F';
    b[4] = 1;
    b[5] = 1;
    b[16..18].copy_from_slice(&2u16.to_le_bytes());
    b[18..20].copy_from_slice(&243u16.to_le_bytes());
    b[28..32].copy_from_slice(&52u32.to_le_bytes());
    b[42..44].copy_from_slice(&32u16.to_le_bytes());
    b[44..46].copy_from_slice(&phnum.to_le_bytes());
    for j in 0..257 {
        let ph = 52 + 32 * j;
        b[ph..ph + 4].copy_from_slice(&1u32.to_le_bytes());
    }
    assert_eq!(Program::load_elf(&b).err(), Some(InvalidFormatError::TooManySegments));
}

#[test]
fn loader_rejects_truncated_segment_table() {
    let mut bytes = minimal_elf(0, 0, &[]);
    bytes[44..46].copy_from_slice(&9u16.to_le_bytes());
    assert_eq!(Program::load_elf(&bytes).err(), Some(InvalidFormatError::Truncated));
}

#[test]
fn loader_rejects_truncated_segment_bytes() {
    let mut bytes = minimal_elf(0, 0, &[1, 2, 3]);
    // Claim more file bytes than the input holds.
    bytes[52 + 16..52 + 20].copy_from_slice(&1000u32.to_le_bytes());
    bytes[52 + 20..52 + 24].copy_from_slice(&1000u32.to_le_bytes());
    assert_eq!(Program::load_elf(&bytes).err(), Some(InvalidFormatError::Truncated));
}

#[test]
fn multiple_runs_from_one_program_do_not_interfere() {
    // A store into the program's own data area must not leak from one
    // run into the next.
    let mut payload = Vec::new();
    for inst in [
        Instruction::SB(mozak_vm::instruction::Store { rs1: 1, rs2: 2, imm12: 0 }),
        Instruction::ADDI(AddI { rs1: 0, rd: 10, imm12: 0 }),
        Instruction::ECALL,
    ] {
        payload.extend_from_slice(&encode(inst).to_le_bytes());
    }
    let bytes = minimal_elf(0, 0, &payload);
    let program = Program::load_elf(&bytes).expect("valid image");
    let first = run(&program, &[(1, 100), (2, 200)], vec![]);
    assert_eq!(first.last_state.load_u8(100), 200);
    let second = run(&program, &[(1, 100), (2, 0)], vec![]);
    assert_eq!(second.last_state.load_u8(100), 0);
    assert_eq!(program.image.get(&100), None);
}
