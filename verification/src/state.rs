//! The full machine state: 32 general-purpose registers, program
//! counter, logical clock, byte-addressable memory, and the two I/O
//! tapes of the side channel.
//!
//! All arithmetic on the program counter and register values wraps
//! modulo 2^32, made deterministic by explicit modular reduction.

use vstd::prelude::*;

use vstd::arithmetic::div_mod::{lemma_mod_multiples_vanish, lemma_small_mod};

use crate::elf::{Program, ProgramModel};
use crate::image::{img_get, map_of};

verus! {

/// The clock value of the first executed step.
///
/// The two ticks before it are left for the memory-initialisation rows
/// that a downstream constraint system lays before the execution proper.
pub const CLK_EPOCH: u64 = 2;

/// The register that carries the system-call number of an ECALL.
pub const REG_CALL: u8 = 10;

/// The register that carries the address argument of an I/O call.
pub const REG_ARG_ADDR: u8 = 11;

/// The register that carries the length argument of an I/O call.
pub const REG_ARG_LEN: u8 = 12;

/// Call number of the voluntary-halt system call.
pub const ECALL_HALT: u32 = 0;

/// Call number of the read-from-input-tape system call.
pub const ECALL_IO_READ: u32 = 1;

/// Call number of the write-to-output-tape system call.
pub const ECALL_IO_WRITE: u32 = 2;

/// Reduction modulo 2^32.
pub open spec fn wrap32(x: int) -> u32 {
    (x % 0x1_0000_0000) as u32
}

/// Reduction modulo 2^64.
pub open spec fn wrap64(x: int) -> u64 {
    (x % 0x1_0000_0000_0000_0000) as u64
}

/// The byte a memory image holds at `a`: absent addresses read as zero.
pub open spec fn mem_byte(m: Map<u32, u8>, a: u32) -> u8 {
    if m.contains_key(a) {
        m[a]
    } else {
        0
    }
}

/// A byte sign-extended to 32 bits.
pub open spec fn sext8(b: u8) -> u32 {
    if b >= 128 {
        (b + 0xFFFF_FF00) as u32
    } else {
        b as u32
    }
}

/// A halfword (given as its unsigned value) sign-extended to 32 bits.
pub open spec fn sext16(h: u32) -> u32 {
    if h >= 32768 {
        (h + 0xFFFF_0000) as u32
    } else {
        h
    }
}

/// The signed value of a 32-bit word, for signed comparisons.
pub open spec fn as_signed(x: u32) -> int {
    if x >= 0x8000_0000 {
        x - 0x1_0000_0000
    } else {
        x as int
    }
}

proof fn lemma_mod_window(v: int)
    requires
        -0x1_0000_0000 <= v < 0x2_0000_0000,
    ensures
        v % 0x1_0000_0000 == if v < 0 {
            v + 0x1_0000_0000
        } else if v >= 0x1_0000_0000 {
            v - 0x1_0000_0000
        } else {
            v
        },
{
    if v < 0 {
        lemma_mod_multiples_vanish(-1, v + 0x1_0000_0000, 0x1_0000_0000);
        lemma_small_mod((v + 0x1_0000_0000) as nat, 0x1_0000_0000);
    } else if v >= 0x1_0000_0000 {
        lemma_mod_multiples_vanish(1, v - 0x1_0000_0000, 0x1_0000_0000);
        lemma_small_mod((v - 0x1_0000_0000) as nat, 0x1_0000_0000);
    } else {
        lemma_small_mod(v as nat, 0x1_0000_0000);
    }
}

/// Wrapping 32-bit addition.
pub(crate) fn wrap_add_u32(a: u32, b: u32) -> (r: u32)
    ensures
        r == wrap32(a + b),
{
    let s = (a as u64) + (b as u64);
    let t = if s >= 0x1_0000_0000 {
        s - 0x1_0000_0000
    } else {
        s
    };
    proof {
        lemma_mod_window(a + b);
    }
    t as u32
}

/// Wrapping 32-bit subtraction.
pub(crate) fn wrap_sub_u32(a: u32, b: u32) -> (r: u32)
    ensures
        r == wrap32(a - b),
{
    let s = (a as i64) - (b as i64);
    let t = if s < 0 {
        s + 0x1_0000_0000
    } else {
        s
    };
    proof {
        lemma_mod_window(a - b);
    }
    t as u32
}

/// Wrapping addition of a sign-extended 12-bit immediate.
pub(crate) fn wrap_add_imm(a: u32, imm: i16) -> (r: u32)
    ensures
        r == wrap32(a + imm),
{
    let s = (a as i64) + (imm as i64);
    let t = if s < 0 {
        s + 0x1_0000_0000
    } else if s >= 0x1_0000_0000 {
        s - 0x1_0000_0000
    } else {
        s
    };
    proof {
        lemma_mod_window(a + imm as int);
    }
    t as u32
}

/// The clock after one more step: one tick, wrapping modulo 2^64.
pub(crate) fn clk_tick(c: u64) -> (r: u64)
    ensures
        r == wrap64(c + 1),
{
    proof {
        if c == u64::MAX {
            lemma_mod_multiples_vanish(1, 0, 0x1_0000_0000_0000_0000);
            lemma_small_mod(0, 0x1_0000_0000_0000_0000);
        } else {
            lemma_small_mod((c + 1) as nat, 0x1_0000_0000_0000_0000);
        }
    }
    if c == u64::MAX {
        0
    } else {
        c + 1
    }
}

/// The abstract value of a [`State`].
pub ghost struct StateModel {
    pub regs: Seq<u32>,
    pub pc: u32,
    pub clk: u64,
    pub halted: bool,
    pub mem: Map<u32, u8>,
    pub input: Seq<u8>,
    pub input_pos: int,
    pub output: Seq<u8>,
}

impl StateModel {
    /// 32 registers, register 0 pinned to zero, input position in range.
    pub open spec fn wf(self) -> bool {
        &&& self.regs.len() == 32
    &&& self.regs[0] == 0
    &&& 0 <= self.input_pos <= self.input.len()
    }

    /// The value read from register `r`: register 0 always reads zero.
    pub open spec fn reg(self, r: u8) -> u32 {
        if r == 0 {
            0
        } else {
            self.regs[r as int]
        }
    }
}

/// Registers after writing `v` to `r`: writes to register 0 are discarded.
pub open spec fn reg_set(regs: Seq<u32>, r: u8, v: u32) -> Seq<u32> {
    if r == 0 {
        regs
    } else {
        regs.update(r as int, v)
    }
}

/// The register file after applying a list of initial assignments in order.
pub open spec fn init_regs(pairs: Seq<(u8, u32)>) -> Seq<u32>
    decreases pairs.len(),
{
    if pairs.len() == 0 {
        Seq::new(32, |i: int| 0u32)
    } else {
        reg_set(init_regs(pairs.drop_last()), pairs.last().0, pairs.last().1)
    }
}

/// The initial register file is well formed: 32 entries, register 0 zero.
pub proof fn lemma_init_regs_wf(pairs: Seq<(u8, u32)>)
    requires
        forall|i: int| 0 <= i < pairs.len() ==> (#[trigger] pairs[i]).0 < 32,
    ensures
        init_regs(pairs).len() == 32,
        init_regs(pairs)[0] == 0,
    decreases pairs.len(),
{
    if pairs.len() > 0 {
        assert(forall|i: int| 0 <= i < pairs.drop_last().len() ==> (#[trigger] pairs.drop_last()[i]).0
            < 32);
        lemma_init_regs_wf(pairs.drop_last());
    }
}

/// The machine state a run starts from.
pub open spec fn init_state(p: ProgramModel, pairs: Seq<(u8, u32)>, input: Seq<u8>) -> StateModel {
    StateModel {
        regs: init_regs(pairs),
        pc: p.entry,
        clk: CLK_EPOCH,
        halted: false,
        mem: p.image,
        input,
        input_pos: 0,
        output: Seq::empty(),
    }
}

/// The machine state at one point in time.
pub struct State {
    pub registers: Vec<u32>,
    pub pc: u32,
    pub clk: u64,
    pub halted: bool,
    pub memory: im::hashmap::HashMap<u32, u8>,
    pub input: Vec<u8>,
    pub input_pos: usize,
    pub output: Vec<u8>,
}

impl View for State {
    type V = StateModel;

    open spec fn view(&self) -> StateModel {
        StateModel {
            regs: self.registers@,
            pc: self.pc,
            clk: self.clk,
            halted: self.halted,
            mem: map_of(self.memory),
            input: self.input@,
            input_pos: self.input_pos as int,
            output: self.output@,
        }
    }
}

fn copy_u32_vec(v: &Vec<u32>) -> (r: Vec<u32>)
    ensures
        r@ == v@,
{
    let mut r: Vec<u32> = Vec::new();
    let mut i: usize = 0;
    while i < v.len()
        invariant
            0 <= i <= v.len(),
            r@ == v@.take(i as int),
        decreases v.len() - i,
    {
        r.push(v[i]);
        proof {
            assert(r@ =~= v@.take(i + 1));
        }
        i = i + 1;
    }
    proof {
        assert(v@.take(v@.len() as int) =~= v@);
    }
    r
}

fn copy_u8_vec(v: &Vec<u8>) -> (r: Vec<u8>)
    ensures
        r@ == v@,
{
    let mut r: Vec<u8> = Vec::new();
    let mut i: usize = 0;
    while i < v.len()
        invariant
            0 <= i <= v.len(),
            r@ == v@.take(i as int),
        decreases v.len() - i,
    {
        r.push(v[i]);
        proof {
            assert(r@ =~= v@.take(i + 1));
        }
        i = i + 1;
    }
    proof {
        assert(v@.take(v@.len() as int) =~= v@);
    }
    r
}

impl Clone for State {
    /// An independent copy with the same abstract value; the memory
    /// image is shared structurally, not re-allocated.
    fn clone(&self) -> (r: Self)
        ensures
            r@ == self@,
    {
        State {
            registers: copy_u32_vec(&self.registers),
            pc: self.pc,
            clk: self.clk,
            halted: self.halted,
            memory: crate::image::img_clone(&self.memory),
            input: copy_u8_vec(&self.input),
            input_pos: self.input_pos,
            output: copy_u8_vec(&self.output),
        }
    }
}

impl State {
    /// The state a run of `program` starts from: registers zero except
    /// for the given initial assignments, the program counter at the
    /// entry point, the clock at its epoch, and a private copy of the
    /// program image as memory.
    pub fn new(program: &Program, reg_init: &[(u8, u32)], input: Vec<u8>) -> (r: State)
        requires
            forall|i: int| 0 <= i < reg_init@.len() ==> (#[trigger] reg_init@[i]).0 < 32,
        ensures
            r@ == init_state(program@, reg_init@, input@),
            r@.wf(),
    {
        let mut registers: Vec<u32> = Vec::new();
        let mut j: usize = 0;
        while j < 32
            invariant
                0 <= j <= 32,
                registers@.len() == j,
                forall|k: int| 0 <= k < j ==> registers@[k] == 0u32,
            decreases 32 - j,
        {
            registers.push(0);
            j = j + 1;
        }
        proof {
            assert(registers@ =~= Seq::new(32, |i: int| 0u32));
            assert(registers@ == init_regs(Seq::<(u8, u32)>::empty()));
            assert(reg_init@.take(0) =~= Seq::<(u8, u32)>::empty());
        }
        let mut i: usize = 0;
        while i < reg_init.len()
            invariant
                0 <= i <= reg_init@.len(),
                forall|k: int| 0 <= k < reg_init@.len() ==> (#[trigger] reg_init@[k]).0 < 32,
                registers@.len() == 32,
                registers@ == init_regs(reg_init@.take(i as int)),
            decreases reg_init@.len() - i,
        {
            let (r, v) = reg_init[i];
            if r != 0 {
                registers.set(r as usize, v);
            }
            proof {
                assert(reg_init@.take(i + 1).drop_last() =~= reg_init@.take(i as int));
                assert(reg_init@.take(i + 1).last() == reg_init@[i as int]);
            }
            i = i + 1;
        }
        proof {
            assert(reg_init@.take(reg_init@.len() as int) =~= reg_init@);
            lemma_init_regs_wf(reg_init@);
        }
        State {
            registers,
            pc: program.entry,
            clk: CLK_EPOCH,
            halted: false,
            memory: program.image_copy(),
            input,
            input_pos: 0,
            output: Vec::new(),
        }
    }

    /// The current program counter.
    pub fn get_pc(&self) -> (r: u32)
        ensures
            r == self@.pc,
    {
        self.pc
    }

    /// The current clock.
    pub fn get_clk(&self) -> (r: u64)
        ensures
            r == self@.clk,
    {
        self.clk
    }

    /// Whether a halting condition has been reached.
    pub fn has_halted(&self) -> (r: bool)
        ensures
            r == self@.halted,
    {
        self.halted
    }

    /// The value of register `r`; register 0 always reads zero.
    pub fn get_register_value(&self, r: u8) -> (v: u32)
        requires
            r < 32,
            self@.wf(),
        ensures
            v == self@.reg(r),
    {
        if r == 0 {
            0
        } else {
            self.registers[r as usize]
        }
    }

    /// The byte that memory holds at `addr`; undefined addresses read zero.
    pub fn load_u8(&self, addr: u32) -> (v: u8)
        ensures
            v == mem_byte(self@.mem, addr),
    {
        match img_get(&self.memory, addr) {
            Some(b) => b,
            None => 0,
        }
    }

    /// Write `v` to register `r`; a write to register 0 is discarded.
    pub(crate) fn set_register(&mut self, r: u8, v: u32)
        requires
            r < 32,
            old(self)@.wf(),
        ensures
            final(self)@ == (StateModel { regs: reg_set(old(self)@.regs, r, v), ..old(self)@ }),
            final(self)@.wf(),
    {
        if r != 0 {
            self.registers.set(r as usize, v);
        }
    }
}

/// Adding a small positive offset modulo 2^32 never returns to the
/// same address.
pub proof fn lemma_wrap_small(a: u32, k: u32)
    requires
        1 <= k <= 4,
    ensures
        wrap32(a + k) != a,
        wrap32(a + k) == if a + k <= u32::MAX {
            (a + k) as u32
        } else {
            (a + k - 0x1_0000_0000) as u32
        },
{
    lemma_mod_window(a + k);
}

} // verus!
