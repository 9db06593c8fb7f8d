//! The instruction executor and the run driver.
//!
//! One step fetches the word at the program counter, decodes it, and
//! computes the next state together with the auxiliary facts of the
//! step.  The whole transition is pinned by the specification function
//! [`spec_step`]: a pure, total function of the abstract state, so a
//! run is deterministic by construction.

use vstd::prelude::*;

use vstd::arithmetic::power2::{lemma2_to64, lemma_pow2_strictly_increases, lemma_pow2_unfold, pow2};

use crate::decode::{decode, spec_decode};
use crate::image::{img_get, img_insert, map_of};
use crate::instruction::Instruction;
use crate::state::{
    as_signed, mem_byte, reg_set, sext16, sext8, wrap32, wrap64, wrap_add_imm, wrap_add_u32,
    wrap_sub_u32, clk_tick, State, StateModel, ECALL_HALT, ECALL_IO_READ, ECALL_IO_WRITE,
    REG_ARG_ADDR, REG_ARG_LEN, REG_CALL,
};

verus! {

/// The memory operation of one step, if any.
#[derive(Debug, Clone, Copy, PartialEq, Eq)]
pub struct MemEntry {
    /// First byte address touched.
    pub addr: u32,
    /// The unsigned value read or written, in the low `8 * width` bits.
    pub value: u32,
    /// Width in bytes: 1, 2 or 4.
    pub width: u8,
    /// True for a store, false for a load.
    pub is_store: bool,
}

/// The auxiliary facts of one executed step.
#[derive(Debug, Clone, Copy, PartialEq, Eq)]
pub struct Aux {
    /// The value computed for the destination register, zero when the
    /// instruction has none.  It is recorded even when the destination
    /// is register 0 and the write itself is discarded.
    pub dst_val: u32,
    /// True exactly for the voluntary halt call.
    pub will_halt: bool,
    /// The memory operation of the step, if any.
    pub mem: Option<MemEntry>,
    /// The raw decoded instruction of the step.
    pub inst: Instruction,
}

/// The unsigned halfword held at `a`, little endian.
pub open spec fn half_at(m: Map<u32, u8>, a: u32) -> u32 {
    (mem_byte(m, a) + mem_byte(m, wrap32(a + 1)) * 256) as u32
}

/// The word held at `a`, little endian.
pub open spec fn word_at(m: Map<u32, u8>, a: u32) -> u32 {
    (mem_byte(m, a) + mem_byte(m, wrap32(a + 1)) * 256 + mem_byte(m, wrap32(a + 2)) * 65536
        + mem_byte(m, wrap32(a + 3)) * 16777216) as u32
}

/// Memory after storing the low byte of `v` at `a`.
pub open spec fn store_byte(m: Map<u32, u8>, a: u32, v: u32) -> Map<u32, u8> {
    m.insert(a, (v % 256) as u8)
}

/// Memory after storing the low halfword of `v` at `a`, little endian.
pub open spec fn store_half(m: Map<u32, u8>, a: u32, v: u32) -> Map<u32, u8> {
    m.insert(a, (v % 256) as u8).insert(wrap32(a + 1), ((v / 256) % 256) as u8)
}

/// Memory after storing `v` at `a`, little endian.
pub open spec fn store_word(m: Map<u32, u8>, a: u32, v: u32) -> Map<u32, u8> {
    m.insert(a, (v % 256) as u8).insert(wrap32(a + 1), ((v / 256) % 256) as u8).insert(
        wrap32(a + 2),
        ((v / 65536) % 256) as u8,
    ).insert(wrap32(a + 3), ((v / 16777216) % 256) as u8)
}

/// Memory after copying `n` bytes of the input tape, starting at
/// position `pos`, to consecutive addresses from `addr` on.
pub open spec fn read_tape(
    m: Map<u32, u8>,
    input: Seq<u8>,
    pos: int,
    addr: u32,
    n: int,
) -> Map<u32, u8>
    decreases n,
{
    if n <= 0 {
        m
    } else {
        read_tape(m, input, pos, addr, n - 1).insert(wrap32(addr + n - 1), input[pos + n - 1])
    }
}

/// The output tape after appending the `n` bytes of memory from `addr` on.
pub open spec fn written_tape(out: Seq<u8>, m: Map<u32, u8>, addr: u32, n: int) -> Seq<u8> {
    out + Seq::new(n as nat, |i: int| mem_byte(m, wrap32(addr + i)))
}

/// Next state and auxiliary facts of a step that only writes `v` to
/// register `rd` and falls through to the next instruction.
pub open spec fn step_reg_write(s: StateModel, inst: Instruction, rd: u8, v: u32) -> (
    StateModel,
    Aux,
) {
    (
        StateModel {
            regs: reg_set(s.regs, rd, v),
            pc: wrap32(s.pc + 4),
            clk: wrap64(s.clk + 1),
            ..s
        },
        Aux { dst_val: v, will_halt: false, mem: None, inst },
    )
}

/// Next state and auxiliary facts of a load into `rd`.
pub open spec fn step_load(
    s: StateModel,
    inst: Instruction,
    rd: u8,
    v: u32,
    addr: u32,
    raw: u32,
    width: u8,
) -> (StateModel, Aux) {
    (
        StateModel {
            regs: reg_set(s.regs, rd, v),
            pc: wrap32(s.pc + 4),
            clk: wrap64(s.clk + 1),
            ..s
        },
        Aux {
            dst_val: v,
            will_halt: false,
            mem: Some(MemEntry { addr, value: raw, width, is_store: false }),
            inst,
        },
    )
}

/// Next state and auxiliary facts of a store.
pub open spec fn step_store(
    s: StateModel,
    inst: Instruction,
    mem: Map<u32, u8>,
    addr: u32,
    raw: u32,
    width: u8,
) -> (StateModel, Aux) {
    (
        StateModel { mem, pc: wrap32(s.pc + 4), clk: wrap64(s.clk + 1), ..s },
        Aux {
            dst_val: 0,
            will_halt: false,
            mem: Some(MemEntry { addr, value: raw, width, is_store: true }),
            inst,
        },
    )
}

/// Next state and auxiliary facts of a trap: the step is recorded, the
/// program counter freezes, and the run halts non-gracefully.
pub open spec fn step_trap(s: StateModel, inst: Instruction) -> (StateModel, Aux) {
    (
        StateModel { clk: wrap64(s.clk + 1), halted: true, ..s },
        Aux { dst_val: 0, will_halt: false, mem: None, inst },
    )
}

/// Next state and auxiliary facts of a taken or untaken branch.
pub open spec fn step_branch(s: StateModel, inst: Instruction, taken: bool, offset: i16) -> (
    StateModel,
    Aux,
) {
    (
        StateModel {
            pc: if taken {
                wrap32(s.pc + offset)
            } else {
                wrap32(s.pc + 4)
            },
            clk: wrap64(s.clk + 1),
            ..s
        },
        Aux { dst_val: 0, will_halt: false, mem: None, inst },
    )
}

/// The semantics of one decoded instruction against state `s`.
///
/// Opaque by default: proofs about whole traces only need that it is a
/// function; proofs about one instruction reveal it.
#[verifier::opaque]
pub open spec fn spec_exec_inst(s: StateModel, inst: Instruction) -> (StateModel, Aux) {
    match inst {
        Instruction::ADD(i) => step_reg_write(s, inst, i.rd, wrap32(s.reg(i.rs1) + s.reg(i.rs2))),
        Instruction::SUB(i) => step_reg_write(s, inst, i.rd, wrap32(s.reg(i.rs1) - s.reg(i.rs2))),
        Instruction::ADDI(i) => step_reg_write(s, inst, i.rd, wrap32(s.reg(i.rs1) + i.imm12)),
        Instruction::SLLI(i) => step_reg_write(
            s,
            inst,
            i.rd,
            wrap32(s.reg(i.rs1) * pow2((i.shamt % 32) as nat)),
        ),
        Instruction::LB(l) => {
            let addr = wrap32(s.reg(l.rs1) + l.imm12);
            let raw = mem_byte(s.mem, addr) as u32;
            step_load(s, inst, l.rd, sext8(mem_byte(s.mem, addr)), addr, raw, 1)
        },
        Instruction::LBU(l) => {
            let addr = wrap32(s.reg(l.rs1) + l.imm12);
            let raw = mem_byte(s.mem, addr) as u32;
            step_load(s, inst, l.rd, raw, addr, raw, 1)
        },
        Instruction::LH(l) => {
            let addr = wrap32(s.reg(l.rs1) + l.imm12);
            let raw = half_at(s.mem, addr);
            step_load(s, inst, l.rd, sext16(raw), addr, raw, 2)
        },
        Instruction::LHU(l) => {
            let addr = wrap32(s.reg(l.rs1) + l.imm12);
            let raw = half_at(s.mem, addr);
            step_load(s, inst, l.rd, raw, addr, raw, 2)
        },
        Instruction::LW(l) => {
            let addr = wrap32(s.reg(l.rs1) + l.imm12);
            if addr % 4 != 0 {
                step_trap(s, inst)
            } else {
                let raw = word_at(s.mem, addr);
                step_load(s, inst, l.rd, raw, addr, raw, 4)
            }
        },
        Instruction::SB(st) => {
            let addr = wrap32(s.reg(st.rs1) + st.imm12);
            let v = s.reg(st.rs2);
            step_store(s, inst, store_byte(s.mem, addr, v), addr, v % 256, 1)
        },
        Instruction::SH(st) => {
            let addr = wrap32(s.reg(st.rs1) + st.imm12);
            let v = s.reg(st.rs2);
            step_store(s, inst, store_half(s.mem, addr, v), addr, v % 65536, 2)
        },
        Instruction::SW(st) => {
            let addr = wrap32(s.reg(st.rs1) + st.imm12);
            if addr % 4 != 0 {
                step_trap(s, inst)
            } else {
                let v = s.reg(st.rs2);
                step_store(s, inst, store_word(s.mem, addr, v), addr, v, 4)
            }
        },
        Instruction::JALR(j) => {
            let link = wrap32(s.pc + 4);
            let target = wrap32(s.reg(j.rs1) + j.imm12);
            (
                StateModel {
                    regs: reg_set(s.regs, j.rd, link),
                    pc: target,
                    clk: wrap64(s.clk + 1),
                    ..s
                },
                Aux { dst_val: link, will_halt: false, mem: None, inst },
            )
        },
        Instruction::BEQ(b) => step_branch(s, inst, s.reg(b.rs1) == s.reg(b.rs2), b.offset),
        Instruction::BNE(b) => step_branch(s, inst, s.reg(b.rs1) != s.reg(b.rs2), b.offset),
        Instruction::BLT(b) => step_branch(
            s,
            inst,
            as_signed(s.reg(b.rs1)) < as_signed(s.reg(b.rs2)),
            b.offset,
        ),
        Instruction::BLTU(b) => step_branch(s, inst, s.reg(b.rs1) < s.reg(b.rs2), b.offset),
        Instruction::BGE(b) => step_branch(
            s,
            inst,
            as_signed(s.reg(b.rs1)) >= as_signed(s.reg(b.rs2)),
            b.offset,
        ),
        Instruction::BGEU(b) => step_branch(s, inst, s.reg(b.rs1) >= s.reg(b.rs2), b.offset),
        Instruction::LUI(u) => step_reg_write(s, inst, u.rd, u.imm),
        Instruction::ECALL => {
            let call = s.reg(REG_CALL);
            let addr = s.reg(REG_ARG_ADDR);
            let n = s.reg(REG_ARG_LEN);
            if call == ECALL_HALT {
                (
                    StateModel { clk: wrap64(s.clk + 1), halted: true, ..s },
                    Aux { dst_val: 0, will_halt: true, mem: None, inst },
                )
            } else if call == ECALL_IO_READ {
                if s.input_pos + n <= s.input.len() {
                    (
                        StateModel {
                            mem: read_tape(s.mem, s.input, s.input_pos, addr, n as int),
                            input_pos: s.input_pos + n,
                            pc: wrap32(s.pc + 4),
                            clk: wrap64(s.clk + 1),
                            ..s
                        },
                        Aux { dst_val: 0, will_halt: false, mem: None, inst },
                    )
                } else {
                    step_trap(s, inst)
                }
            } else if call == ECALL_IO_WRITE {
                (
                    StateModel {
                        output: written_tape(s.output, s.mem, addr, n as int),
                        pc: wrap32(s.pc + 4),
                        clk: wrap64(s.clk + 1),
                        ..s
                    },
                    Aux { dst_val: 0, will_halt: false, mem: None, inst },
                )
            } else {
                step_trap(s, inst)
            }
        },
        Instruction::EBREAK => step_trap(s, inst),
        Instruction::UNKNOWN => step_trap(s, inst),
    }
}

/// One full step: fetch the word at the program counter, decode it,
/// execute it.  A pure function of the abstract state.
#[verifier::opaque]
pub open spec fn spec_step(s: StateModel) -> (StateModel, Aux) {
    spec_exec_inst(s, spec_decode(word_at(s.mem, s.pc)))
}

/// A step preserves well-formedness; in particular register 0 stays 0.
pub proof fn lemma_step_wf(s: StateModel)
    requires
        s.wf(),
    ensures
        spec_step(s).0.wf(),
{
    reveal(spec_step);
    reveal(spec_exec_inst);
    let inst = spec_decode(word_at(s.mem, s.pc));
    match inst {
        Instruction::ECALL => {
            assert(spec_exec_inst(s, inst).0.wf());
        },
        _ => {
            assert(spec_exec_inst(s, inst).0.wf());
        },
    }
}

fn peek(m: &im::hashmap::HashMap<u32, u8>, a: u32) -> (b: u8)
    ensures
        b == mem_byte(map_of(*m), a),
{
    match img_get(m, a) {
        Some(v) => v,
        None => 0,
    }
}

fn signed_lt(a: u32, b: u32) -> (r: bool)
    ensures
        r == (as_signed(a) < as_signed(b)),
{
    let a_neg = a >= 0x8000_0000;
    let b_neg = b >= 0x8000_0000;
    if a_neg != b_neg {
        a_neg
    } else {
        a < b
    }
}

fn pow2_exec(e: u32) -> (r: u64)
    requires
        e < 32,
    ensures
        r == pow2(e as nat),
        r <= 0x8000_0000,
{
    let mut r: u64 = 1;
    let mut i: u32 = 0;
    proof {
        lemma2_to64();
    }
    while i < e
        invariant
            0 <= i <= e < 32,
            r == pow2(i as nat),
            r <= 0x4000_0000_0000_0000,
        decreases e - i,
    {
        proof {
            lemma_pow2_unfold((i + 1) as nat);
            if i + 1 < 62 {
                lemma_pow2_strictly_increases((i + 1) as nat, 62);
                lemma2_to64_bound();
            }
        }
        r = r * 2;
        i = i + 1;
    }
    proof {
        if (e as nat) < 31 {
            lemma_pow2_strictly_increases(e as nat, 31);
        }
        lemma2_to64();
    }
    r
}

proof fn lemma2_to64_bound()
    ensures
        pow2(62) == 0x4000000000000000,
{
    vstd::arithmetic::power2::lemma2_to64_rest();
}

/// Executable sign extension of a byte.
fn sext8_exec(b: u8) -> (r: u32)
    ensures
        r == sext8(b),
{
    if b >= 128 {
        (b as u32) + 0xFFFF_FF00
    } else {
        b as u32
    }
}

/// Executable sign extension of a halfword value.
fn sext16_exec(h: u32) -> (r: u32)
    requires
        h < 65536,
    ensures
        r == sext16(h),
{
    if h >= 32768 {
        h + 0xFFFF_0000
    } else {
        h
    }
}

/// Advance to the next instruction: bump the program counter by four
/// and tick the clock.
fn advance(s: &mut State)
    ensures
        final(s)@ == (StateModel {
            pc: wrap32(old(s)@.pc + 4),
            clk: wrap64(old(s)@.clk + 1),
            ..old(s)@
        }),
{
    s.pc = wrap_add_u32(s.pc, 4);
    s.clk = clk_tick(s.clk);
}

/// Freeze the program counter and halt: the trap transition.
fn trap_step(s: State, inst: Instruction) -> (r: (Aux, State))
    ensures
        r.0 == step_trap(s@, inst).1,
        r.1@ == step_trap(s@, inst).0,
{
    let mut s = s;
    s.clk = clk_tick(s.clk);
    s.halted = true;
    (Aux { dst_val: 0, will_halt: false, mem: None, inst }, s)
}

impl State {
    /// Fetch the 32-bit word at the program counter, little endian.
    pub fn fetch(&self) -> (w: u32)
        ensures
            w == word_at(self@.mem, self@.pc),
    {
        let b0 = peek(&self.memory, self.pc);
        let b1 = peek(&self.memory, wrap_add_u32(self.pc, 1));
        let b2 = peek(&self.memory, wrap_add_u32(self.pc, 2));
        let b3 = peek(&self.memory, wrap_add_u32(self.pc, 3));
        (b0 as u32) + (b1 as u32) * 256 + (b2 as u32) * 65536 + (b3 as u32) * 16777216
    }
}

/// Execute one step: fetch at the program counter, decode, apply the
/// instruction's semantics, and report the auxiliary facts.
///
/// The result is exactly `spec_step` of the abstract input state, so
/// two steps from equal abstract states agree in every field.
#[verifier::rlimit(60)]
pub fn step(state: State) -> (r: (Aux, State))
    requires
        state@.wf(),
    ensures
        r.0 == spec_step(state@).1,
        r.1@ == spec_step(state@).0,
        r.1@.wf(),
{
    let ghost s0 = state@;
    proof {
        reveal(spec_step);
        reveal(spec_exec_inst);
        lemma_step_wf(s0);
    }
    let word = state.fetch();
    let inst = decode(state.pc, word);
    let mut s = state;
    match inst {
        Instruction::ADD(i) => {
            let v = wrap_add_u32(s.get_register_value(i.rs1), s.get_register_value(i.rs2));
            s.set_register(i.rd, v);
            advance(&mut s);
            (Aux { dst_val: v, will_halt: false, mem: None, inst }, s)
        },
        Instruction::SUB(i) => {
            let v = wrap_sub_u32(s.get_register_value(i.rs1), s.get_register_value(i.rs2));
            s.set_register(i.rd, v);
            advance(&mut s);
            (Aux { dst_val: v, will_halt: false, mem: None, inst }, s)
        },
        Instruction::ADDI(i) => {
            let v = wrap_add_imm(s.get_register_value(i.rs1), i.imm12);
            s.set_register(i.rd, v);
            advance(&mut s);
            (Aux { dst_val: v, will_halt: false, mem: None, inst }, s)
        },
        Instruction::SLLI(i) => {
            let sh = (i.shamt as u32) % 32;
            let m = pow2_exec(sh);
            let a = s.get_register_value(i.rs1);
            proof {
                assert((a as int) * (m as int) <= 0xFFFF_FFFF * 0x8000_0000int) by (nonlinear_arith)
                    requires
                        a <= 0xFFFF_FFFFu32,
                        m <= 0x8000_0000u64,
                        a >= 0,
                        m >= 0,
                ;
            }
            let prod = (a as u64) * m;
            let v = (prod % 0x1_0000_0000) as u32;
            proof {
                assert(sh as nat == (i.shamt % 32) as nat);
            }
            s.set_register(i.rd, v);
            advance(&mut s);
            (Aux { dst_val: v, will_halt: false, mem: None, inst }, s)
        },
        Instruction::LB(l) => {
            let addr = wrap_add_imm(s.get_register_value(l.rs1), l.imm12);
            let raw = peek(&s.memory, addr);
            let v = sext8_exec(raw);
            s.set_register(l.rd, v);
            advance(&mut s);
            (
                Aux {
                    dst_val: v,
                    will_halt: false,
                    mem: Some(MemEntry { addr, value: raw as u32, width: 1, is_store: false }),
                    inst,
                },
                s,
            )
        },
        Instruction::LBU(l) => {
            let addr = wrap_add_imm(s.get_register_value(l.rs1), l.imm12);
            let raw = peek(&s.memory, addr);
            let v = raw as u32;
            s.set_register(l.rd, v);
            advance(&mut s);
            (
                Aux {
                    dst_val: v,
                    will_halt: false,
                    mem: Some(MemEntry { addr, value: raw as u32, width: 1, is_store: false }),
                    inst,
                },
                s,
            )
        },
        Instruction::LH(l) => {
            let addr = wrap_add_imm(s.get_register_value(l.rs1), l.imm12);
            let lo = peek(&s.memory, addr);
            let hi = peek(&s.memory, wrap_add_u32(addr, 1));
            let raw = (lo as u32) + (hi as u32) * 256;
            let v = sext16_exec(raw);
            s.set_register(l.rd, v);
            advance(&mut s);
            (
                Aux {
                    dst_val: v,
                    will_halt: false,
                    mem: Some(MemEntry { addr, value: raw, width: 2, is_store: false }),
                    inst,
                },
                s,
            )
        },
        Instruction::LHU(l) => {
            let addr = wrap_add_imm(s.get_register_value(l.rs1), l.imm12);
            let lo = peek(&s.memory, addr);
            let hi = peek(&s.memory, wrap_add_u32(addr, 1));
            let raw = (lo as u32) + (hi as u32) * 256;
            s.set_register(l.rd, raw);
            advance(&mut s);
            (
                Aux {
                    dst_val: raw,
                    will_halt: false,
                    mem: Some(MemEntry { addr, value: raw, width: 2, is_store: false }),
                    inst,
                },
                s,
            )
        },
        Instruction::LW(l) => {
            let addr = wrap_add_imm(s.get_register_value(l.rs1), l.imm12);
            if addr % 4 != 0 {
                trap_step(s, inst)
            } else {
                let b0 = peek(&s.memory, addr);
                let b1 = peek(&s.memory, wrap_add_u32(addr, 1));
                let b2 = peek(&s.memory, wrap_add_u32(addr, 2));
                let b3 = peek(&s.memory, wrap_add_u32(addr, 3));
                let raw = (b0 as u32) + (b1 as u32) * 256 + (b2 as u32) * 65536 + (b3 as u32)
                    * 16777216;
                s.set_register(l.rd, raw);
                advance(&mut s);
                (
                    Aux {
                        dst_val: raw,
                        will_halt: false,
                        mem: Some(MemEntry { addr, value: raw, width: 4, is_store: false }),
                        inst,
                    },
                    s,
                )
            }
        },
        Instruction::SB(st) => {
            let addr = wrap_add_imm(s.get_register_value(st.rs1), st.imm12);
            let v = s.get_register_value(st.rs2);
            img_insert(&mut s.memory, addr, (v % 256) as u8);
            advance(&mut s);
            (
                Aux {
                    dst_val: 0,
                    will_halt: false,
                    mem: Some(MemEntry { addr, value: v % 256, width: 1, is_store: true }),
                    inst,
                },
                s,
            )
        },
        Instruction::SH(st) => {
            let addr = wrap_add_imm(s.get_register_value(st.rs1), st.imm12);
            let v = s.get_register_value(st.rs2);
            img_insert(&mut s.memory, addr, (v % 256) as u8);
            img_insert(&mut s.memory, wrap_add_u32(addr, 1), ((v / 256) % 256) as u8);
            advance(&mut s);
            (
                Aux {
                    dst_val: 0,
                    will_halt: false,
                    mem: Some(MemEntry { addr, value: v % 65536, width: 2, is_store: true }),
                    inst,
                },
                s,
            )
        },
        Instruction::SW(st) => {
            let addr = wrap_add_imm(s.get_register_value(st.rs1), st.imm12);
            if addr % 4 != 0 {
                trap_step(s, inst)
            } else {
                let v = s.get_register_value(st.rs2);
                img_insert(&mut s.memory, addr, (v % 256) as u8);
                img_insert(&mut s.memory, wrap_add_u32(addr, 1), ((v / 256) % 256) as u8);
                img_insert(&mut s.memory, wrap_add_u32(addr, 2), ((v / 65536) % 256) as u8);
                img_insert(&mut s.memory, wrap_add_u32(addr, 3), ((v / 16777216) % 256) as u8);
                advance(&mut s);
                (
                    Aux {
                        dst_val: 0,
                        will_halt: false,
                        mem: Some(MemEntry { addr, value: v, width: 4, is_store: true }),
                        inst,
                    },
                    s,
                )
            }
        },
        Instruction::JALR(j) => {
            let link = wrap_add_u32(s.pc, 4);
            let target = wrap_add_imm(s.get_register_value(j.rs1), j.imm12);
            s.set_register(j.rd, link);
            s.pc = target;
            s.clk = clk_tick(s.clk);
            (Aux { dst_val: link, will_halt: false, mem: None, inst }, s)
        },
        Instruction::BEQ(b) => {
            let taken = s.get_register_value(b.rs1) == s.get_register_value(b.rs2);
            branch_step(s, inst, taken, b.offset)
        },
        Instruction::BNE(b) => {
            let taken = s.get_register_value(b.rs1) != s.get_register_value(b.rs2);
            branch_step(s, inst, taken, b.offset)
        },
        Instruction::BLT(b) => {
            let taken = signed_lt(s.get_register_value(b.rs1), s.get_register_value(b.rs2));
            branch_step(s, inst, taken, b.offset)
        },
        Instruction::BLTU(b) => {
            let taken = s.get_register_value(b.rs1) < s.get_register_value(b.rs2);
            branch_step(s, inst, taken, b.offset)
        },
        Instruction::BGE(b) => {
            let taken = !signed_lt(s.get_register_value(b.rs1), s.get_register_value(b.rs2));
            branch_step(s, inst, taken, b.offset)
        },
        Instruction::BGEU(b) => {
            let taken = s.get_register_value(b.rs1) >= s.get_register_value(b.rs2);
            branch_step(s, inst, taken, b.offset)
        },
        Instruction::LUI(u) => {
            s.set_register(u.rd, u.imm);
            advance(&mut s);
            (Aux { dst_val: u.imm, will_halt: false, mem: None, inst }, s)
        },
        Instruction::ECALL => {
            let call = s.get_register_value(REG_CALL);
            let addr = s.get_register_value(REG_ARG_ADDR);
            let n = s.get_register_value(REG_ARG_LEN);
            if call == ECALL_HALT {
                s.clk = clk_tick(s.clk);
                s.halted = true;
                (Aux { dst_val: 0, will_halt: true, mem: None, inst }, s)
            } else if call == ECALL_IO_READ {
                let len = s.input.len();
                if (s.input_pos as u128) + (n as u128) <= (len as u128) {
                    let pos = s.input_pos;
                    let mut mem = crate::image::img_clone(&s.memory);
                    let mut j: u32 = 0;
                    while j < n
                        invariant
                            0 <= j <= n,
                            pos + n <= len,
                            len == s.input@.len(),
                            map_of(mem) == read_tape(
                                map_of(s.memory),
                                s.input@,
                                pos as int,
                                addr,
                                j as int,
                            ),
                        decreases n - j,
                    {
                        img_insert(&mut mem, wrap_add_u32(addr, j), s.input[pos + j as usize]);
                        j = j + 1;
                    }
                    s.memory = mem;
                    s.input_pos = pos + n as usize;
                    advance(&mut s);
                    (Aux { dst_val: 0, will_halt: false, mem: None, inst }, s)
                } else {
                    trap_step(s, inst)
                }
            } else if call == ECALL_IO_WRITE {
                let mut fresh: Vec<u8> = Vec::new();
                let mut j: u32 = 0;
                while j < n
                    invariant
                        0 <= j <= n,
                        fresh@ == Seq::new(j as nat, |i: int| mem_byte(map_of(s.memory), wrap32(addr + i))),
                    decreases n - j,
                {
                    fresh.push(peek(&s.memory, wrap_add_u32(addr, j)));
                    proof {
                        assert(fresh@ =~= Seq::new(
                            (j + 1) as nat,
                            |i: int| mem_byte(map_of(s.memory), wrap32(addr + i)),
                        ));
                    }
                    j = j + 1;
                }
                s.output.append(&mut fresh);
                advance(&mut s);
                proof {
                    assert(s@.output =~= written_tape(s0.output, s0.mem, addr, n as int));
                }
                (Aux { dst_val: 0, will_halt: false, mem: None, inst }, s)
            } else {
                trap_step(s, inst)
            }
        },
        Instruction::EBREAK => trap_step(s, inst),
        Instruction::UNKNOWN => trap_step(s, inst),
    }
}

/// Shared tail of the branch instructions.
fn branch_step(s: State, inst: Instruction, taken: bool, offset: i16) -> (r: (Aux, State))
    requires
        s@.wf(),
    ensures
        r.0 == step_branch(s@, inst, taken, offset).1,
        r.1@ == step_branch(s@, inst, taken, offset).0,
{
    let mut s = s;
    if taken {
        s.pc = wrap_add_imm(s.pc, offset);
    } else {
        s.pc = wrap_add_u32(s.pc, 4);
    }
    s.clk = clk_tick(s.clk);
    (Aux { dst_val: 0, will_halt: false, mem: None, inst }, s)
}

/// One row of the execution record: the state a step started from and
/// the auxiliary facts of that step (which carry the instruction).
pub struct Row {
    pub state: State,
    pub aux: Aux,
}

/// The ordered trace of a run: one row per executed step, and the
/// state after the final step.
pub struct ExecutionRecord {
    pub executed: Vec<Row>,
    pub last_state: State,
}

/// The chain property of a trace: the first row starts from `init`,
/// every row's facts are those of one `spec_step` from its state, each
/// row's successor starts where the step left off, no recorded state is
/// already halted, and `cur` is the state after the last step.
pub open spec fn wf_chain(rows: Seq<Row>, init: StateModel, cur: StateModel) -> bool {
    &&& (rows.len() == 0 ==> cur == init)
    &&& (rows.len() > 0 ==> rows[0].state@ == init)
    &&& (forall|i: int|
        0 <= i < rows.len() ==> (#[trigger] rows[i]).aux == spec_step(rows[i].state@).1)
    &&& (forall|i: int|
        0 <= i < rows.len() - 1 ==> (#[trigger] rows[i + 1]).state@ == spec_step(
            rows[i].state@,
        ).0)
    &&& (forall|i: int| 0 <= i < rows.len() ==> !(#[trigger] rows[i]).state@.halted)
    &&& (forall|i: int| 0 <= i < rows.len() ==> (#[trigger] rows[i]).state@.wf())
    &&& (rows.len() > 0 ==> cur == spec_step(rows[rows.len() - 1].state@).0)
}

proof fn lemma_chain_push(rows: Seq<Row>, init: StateModel, cur: StateModel, row: Row, next: StateModel)
    requires
        wf_chain(rows, init, cur),
        row.state@ == cur,
        !cur.halted,
        cur.wf(),
        row.aux == spec_step(cur).1,
        next == spec_step(cur).0,
    ensures
        wf_chain(rows.push(row), init, next),
{
    let r2 = rows.push(row);
    assert(r2[rows.len() as int] == row);
    assert(forall|i: int| 0 <= i < rows.len() ==> r2[i] == rows[i]);
    assert forall|i: int| 0 <= i < r2.len() - 1 implies (#[trigger] r2[i + 1]).state@ == spec_step(
        r2[i].state@,
    ).0 by {
        if i + 1 < rows.len() {
            assert(rows[i + 1].state@ == spec_step(rows[i].state@).0);
        } else {
            assert(r2[i + 1] == row);
        }
    }
}

impl ExecutionRecord {
    /// Total number of executed steps.
    pub fn len(&self) -> (n: usize)
        ensures
            n == self.executed@.len(),
    {
        self.executed.len()
    }

    /// The state immediately preceding the final (halting) step: the
    /// state the last recorded row started from.
    pub fn state_before_final(&self) -> (r: &State)
        requires
            self.executed@.len() >= 1,
        ensures
            r == &self.executed@[self.executed@.len() - 1].state,
    {
        &self.executed[self.executed.len() - 1].state
    }
}

/// Run a program to its halting step.
///
/// Starting from the initial state given by the program, the register
/// assignments and the input tape, the driver repeatedly snapshots the
/// state, performs one step, and appends the pair to the record, until
/// a step halts (voluntarily or by trap).  The one bound is physical:
/// a record cannot hold more rows than its vector can address, so a
/// guest that never halts fills the record to that capacity.
pub fn run(program: &crate::elf::Program, reg_init: &[(u8, u32)], input: Vec<u8>) -> (r:
    ExecutionRecord)
    requires
        forall|i: int| 0 <= i < reg_init@.len() ==> (#[trigger] reg_init@[i]).0 < 32,
    ensures
        ({
            let init = crate::state::init_state(program@, reg_init@, input@);
            &&& wf_chain(r.executed@, init, r.last_state@)
            &&& 1 <= r.executed@.len() <= usize::MAX
            &&& (r.last_state@.halted || r.executed@.len() == usize::MAX)
            &&& r.last_state@.wf()
        }),
{
    let mut state = State::new(program, reg_init, input);
    let ghost init = state@;
    let mut executed: Vec<Row> = Vec::new();
    while !state.has_halted() && executed.len() < usize::MAX
        invariant
            state@.wf(),
            wf_chain(executed@, init, state@),
        decreases usize::MAX - executed@.len(),
    {
        let pre = state.clone();
        let ghost cur = state@;
        let (aux, next) = step(state);
        let row = Row { state: pre, aux };
        proof {
            lemma_chain_push(executed@, init, cur, row, next@);
        }
        executed.push(row);
        state = next;
    }
    let n = executed.len();
    proof {
        assert(executed@.len() == n);
    }
    ExecutionRecord { executed, last_state: state }
}

/// Two traces of the same program, register assignments and input
/// agree row by row up to the shorter length.
proof fn lemma_chain_index_eq(
    r1: Seq<Row>,
    c1: StateModel,
    r2: Seq<Row>,
    c2: StateModel,
    init: StateModel,
    i: int,
)
    requires
        wf_chain(r1, init, c1),
        wf_chain(r2, init, c2),
        0 <= i < r1.len(),
        i < r2.len(),
    ensures
        r1[i].state@ == r2[i].state@,
        r1[i].aux == r2[i].aux,
    decreases i,
{
    if i > 0 {
        lemma_chain_index_eq(r1, c1, r2, c2, init, i - 1);
        assert(r1[(i - 1) + 1].state@ == spec_step(r1[i - 1].state@).0);
        assert(r2[(i - 1) + 1].state@ == spec_step(r2[i - 1].state@).0);
    }
}

/// Determinism of `run`: two complete traces from the same program and
/// the same initial register/memory/input values are identical in every
/// field, clock values included.
///
/// A complete trace is one that satisfies the chain property of `run`'s
/// postcondition and ends either halted or at the record's capacity.
pub proof fn lemma_run_deterministic(
    r1: Seq<Row>,
    c1: StateModel,
    r2: Seq<Row>,
    c2: StateModel,
    init: StateModel,
)
    requires
        wf_chain(r1, init, c1),
        wf_chain(r2, init, c2),
        1 <= r1.len() <= usize::MAX,
        1 <= r2.len() <= usize::MAX,
        c1.halted || r1.len() == usize::MAX,
        c2.halted || r2.len() == usize::MAX,
    ensures
        r1.len() == r2.len(),
        forall|i: int|
            0 <= i < r1.len() ==> (#[trigger] r1[i]).state@ == r2[i].state@ && r1[i].aux
                == r2[i].aux,
        c1 == c2,
{
    if r1.len() < r2.len() {
        assert(c1.halted);
        lemma_chain_index_eq(r1, c1, r2, c2, init, r1.len() - 1);
        assert(c1 == spec_step(r2[r1.len() - 1].state@).0);
        assert(r2[(r1.len() - 1) + 1].state@ == spec_step(r2[r1.len() - 1].state@).0);
        assert(!r2[r1.len() as int].state@.halted);
        assert(false);
    }
    if r2.len() < r1.len() {
        assert(c2.halted);
        lemma_chain_index_eq(r1, c1, r2, c2, init, r2.len() - 1);
        assert(c2 == spec_step(r1[r2.len() - 1].state@).0);
        assert(r1[(r2.len() - 1) + 1].state@ == spec_step(r1[r2.len() - 1].state@).0);
        assert(!r1[r2.len() as int].state@.halted);
        assert(false);
    }
    assert forall|i: int| 0 <= i < r1.len() implies (#[trigger] r1[i]).state@ == r2[i].state@
        && r1[i].aux == r2[i].aux by {
        lemma_chain_index_eq(r1, c1, r2, c2, init, i);
    }
    lemma_chain_index_eq(r1, c1, r2, c2, init, r1.len() - 1);
}

/// For every ADD or SUB execution with operand values `a` and `b`, the
/// recorded destination value is exactly `(a + b) mod 2^32` or
/// `(a - b) mod 2^32`, including when the sum leaves the 32-bit range,
/// and the destination register (when not register 0) receives it.
pub proof fn lemma_add_sub_wraps(s: StateModel, rs1: u8, rs2: u8, rd: u8)
    requires
        s.wf(),
        rs1 < 32,
        rs2 < 32,
        rd < 32,
    ensures
        ({
            let add = Instruction::ADD(crate::instruction::Add { rs1, rs2, rd });
            let (s2, aux) = spec_exec_inst(s, add);
            &&& aux.dst_val == (s.reg(rs1) + s.reg(rs2)) % 0x1_0000_0000
            &&& (rd != 0 ==> s2.reg(rd) == aux.dst_val)
        }),
        ({
            let sub = Instruction::SUB(crate::instruction::Sub { rs1, rs2, rd });
            let (s2, aux) = spec_exec_inst(s, sub);
            &&& aux.dst_val == (s.reg(rs1) - s.reg(rs2)) % 0x1_0000_0000
            &&& (rd != 0 ==> s2.reg(rd) == aux.dst_val)
        }),
{
    reveal(spec_exec_inst);
}

/// For every jump-and-link execution with base register value `v` and
/// immediate `i`: the next program counter is `(v + i) mod 2^32`, and
/// when the link register is not register 0 it receives
/// `(pc + 4) mod 2^32`.
pub proof fn lemma_jalr_wraps(s: StateModel, j: crate::instruction::Jalr)
    requires
        s.wf(),
        j.rs1 < 32,
        j.rd < 32,
    ensures
        ({
            let (s2, aux) = spec_exec_inst(s, Instruction::JALR(j));
            &&& s2.pc == (s.reg(j.rs1) + j.imm12) % 0x1_0000_0000
            &&& (j.rd != 0 ==> s2.reg(j.rd) == (s.pc + 4) % 0x1_0000_0000)
            &&& aux.dst_val == (s.pc + 4) % 0x1_0000_0000
        }),
{
    reveal(spec_exec_inst);
}

/// The shift amount of a shift-immediate execution is taken modulo 32:
/// an out-of-range amount in the instruction acts exactly like its
/// remainder, and the result is `v * 2^(shamt mod 32) mod 2^32`.
pub proof fn lemma_slli_masked(s: StateModel, i: crate::instruction::SllI)
    requires
        s.wf(),
        i.rs1 < 32,
        i.rd < 32,
    ensures
        spec_exec_inst(s, Instruction::SLLI(i)).0 == spec_exec_inst(
            s,
            Instruction::SLLI(crate::instruction::SllI { shamt: (i.shamt % 32) as u8, ..i }),
        ).0,
        spec_exec_inst(s, Instruction::SLLI(i)).1.dst_val == spec_exec_inst(
            s,
            Instruction::SLLI(crate::instruction::SllI { shamt: (i.shamt % 32) as u8, ..i }),
        ).1.dst_val,
        ({
            let (s2, aux) = spec_exec_inst(s, Instruction::SLLI(i));
            aux.dst_val == (s.reg(i.rs1) * pow2((i.shamt % 32) as nat)) % 0x1_0000_0000
        }),
{
    reveal(spec_exec_inst);
    vstd::arithmetic::div_mod::lemma_small_mod((i.shamt % 32) as nat, 32);
}

/// Register 0 is immutable: whatever instruction a step executes, the
/// value of register 0 after the step is still 0.
pub proof fn lemma_reg0_immutable(s: StateModel)
    requires
        s.wf(),
    ensures
        spec_step(s).0.reg(0) == 0,
        spec_step(s).0.regs[0] == 0,
{
    lemma_step_wf(s);
    reveal(spec_step);
}

proof fn lemma_wrap_offsets(a: u32)
    ensures
        wrap32(a + 1) != a,
        wrap32(a + 2) != a,
        wrap32(a + 3) != a,
        wrap32(a + 2) != wrap32(a + 1),
        wrap32(a + 3) != wrap32(a + 1),
        wrap32(a + 3) != wrap32(a + 2),
{
    crate::state::lemma_wrap_small(a, 1);
    crate::state::lemma_wrap_small(a, 2);
    crate::state::lemma_wrap_small(a, 3);
}

proof fn lemma_bytes_16(v: u32)
    by (bit_vector)
    ensures
        v % 65536 == v % 256 + ((v / 256) % 256) * 256,
{
}

proof fn lemma_bytes_32(v: u32)
    by (bit_vector)
    ensures
        v == v % 256 + ((v / 256) % 256) * 256 + ((v / 65536) % 256) * 65536 + ((v / 16777216)
            % 256) * 16777216,
        (v / 16777216) % 256 == v / 16777216,
{
}

/// Store-then-load round trip at byte width: after a store of the low
/// byte of `v`, a byte load at the same address (same base register and
/// immediate) yields `v mod 256` zero-extended, or its sign extension
/// for the signed variant.
pub proof fn lemma_store_load_byte(s: StateModel, st: crate::instruction::Store, rd: u8)
    requires
        s.wf(),
        st.rs1 < 32,
        st.rs2 < 32,
        rd < 32,
    ensures
        ({
            let v = s.reg(st.rs2);
            let s2 = spec_exec_inst(s, Instruction::SB(st)).0;
            let load = crate::instruction::Load { rs1: st.rs1, rd, imm12: st.imm12 };
            let (s3, aux) = spec_exec_inst(s2, Instruction::LBU(load));
            let (s3s, auxs) = spec_exec_inst(s2, Instruction::LB(load));
            &&& aux.dst_val == v % 256
            &&& (rd != 0 ==> s3.reg(rd) == v % 256)
            &&& auxs.dst_val == sext8((v % 256) as u8)
        }),
{
    reveal(spec_exec_inst);
}

/// Store-then-load round trip at halfword width: after a store of the
/// low halfword of `v`, a halfword load at the same address yields
/// `v mod 2^16` zero-extended, or its sign extension for the signed
/// variant.
pub proof fn lemma_store_load_half(s: StateModel, st: crate::instruction::Store, rd: u8)
    requires
        s.wf(),
        st.rs1 < 32,
        st.rs2 < 32,
        rd < 32,
    ensures
        ({
            let v = s.reg(st.rs2);
            let s2 = spec_exec_inst(s, Instruction::SH(st)).0;
            let load = crate::instruction::Load { rs1: st.rs1, rd, imm12: st.imm12 };
            let (s3, aux) = spec_exec_inst(s2, Instruction::LHU(load));
            let (s3s, auxs) = spec_exec_inst(s2, Instruction::LH(load));
            &&& aux.dst_val == v % 65536
            &&& (rd != 0 ==> s3.reg(rd) == v % 65536)
            &&& auxs.dst_val == sext16(v % 65536)
        }),
{
    reveal(spec_exec_inst);
    let v = s.reg(st.rs2);
    let addr = wrap32(s.reg(st.rs1) + st.imm12);
    lemma_wrap_offsets(addr);
    lemma_bytes_16(v);
    let m2 = store_half(s.mem, addr, v);
    assert(mem_byte(m2, addr) == (v % 256) as u8);
    assert(mem_byte(m2, wrap32(addr + 1)) == ((v / 256) % 256) as u8);
}

/// Store-then-load round trip at word width: after an aligned store of
/// `v`, a word load at the same address yields `v` exactly.
pub proof fn lemma_store_load_word(s: StateModel, st: crate::instruction::Store, rd: u8)
    requires
        s.wf(),
        st.rs1 < 32,
        st.rs2 < 32,
        rd < 32,
        wrap32(s.reg(st.rs1) + st.imm12) % 4 == 0,
    ensures
        ({
            let v = s.reg(st.rs2);
            let s2 = spec_exec_inst(s, Instruction::SW(st)).0;
            let load = crate::instruction::Load { rs1: st.rs1, rd, imm12: st.imm12 };
            let (s3, aux) = spec_exec_inst(s2, Instruction::LW(load));
            &&& aux.dst_val == v
            &&& (rd != 0 ==> s3.reg(rd) == v)
        }),
{
    reveal(spec_exec_inst);
    let v = s.reg(st.rs2);
    let addr = wrap32(s.reg(st.rs1) + st.imm12);
    lemma_wrap_offsets(addr);
    lemma_bytes_32(v);
    let m2 = store_word(s.mem, addr, v);
    assert(mem_byte(m2, addr) == (v % 256) as u8);
    assert(mem_byte(m2, wrap32(addr + 1)) == ((v / 256) % 256) as u8);
    assert(mem_byte(m2, wrap32(addr + 2)) == ((v / 65536) % 256) as u8);
    assert(mem_byte(m2, wrap32(addr + 3)) == ((v / 16777216) % 256) as u8);
}

/// A word stored without address wraparound reads back exactly.
pub proof fn lemma_word_at_store(m: Map<u32, u8>, a: u32, w: u32)
    requires
        a + 3 <= u32::MAX,
    ensures
        word_at(store_word(m, a, w), a) == w,
{
    lemma_wrap_offsets(a);
    lemma_bytes_32(w);
}

/// Storing a word at a disjoint range leaves a word unchanged.
pub proof fn lemma_word_at_store_disjoint(m: Map<u32, u8>, a: u32, a2: u32, w2: u32)
    requires
        a + 3 <= u32::MAX,
        a2 + 3 <= u32::MAX,
        a + 3 < a2 || a2 + 3 < a,
    ensures
        word_at(store_word(m, a2, w2), a) == word_at(m, a),
{
    lemma_wrap_offsets(a);
    lemma_wrap_offsets(a2);
}

/// Storing one byte outside a word's range leaves the word unchanged.
pub proof fn lemma_word_at_byte_disjoint(m: Map<u32, u8>, a: u32, a2: u32, v: u8)
    requires
        a + 3 <= u32::MAX,
        a2 < a || a + 3 < a2,
    ensures
        word_at(m.insert(a2, v), a) == word_at(m, a),
{
    lemma_wrap_offsets(a);
}

} // verus!
