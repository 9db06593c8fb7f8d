//! Assembling a list of decoded instructions into a runnable program.
//!
//! `execute` is the harness the test suite drives the machine with: it
//! encodes the instructions at consecutive word addresses starting at
//! zero, appends the two-instruction halt sequence (set the call-number
//! register to the halt call, then ECALL), fills in the extra data
//! bytes, and runs the result.

use vstd::prelude::*;

use crate::decode::{encodable, encode, spec_decode};
use crate::elf::Program;
use crate::instruction::{AddI, Instruction};
use crate::state::{init_state, ECALL_HALT, REG_CALL};
use crate::vm::{
    lemma_word_at_byte_disjoint, lemma_word_at_store, lemma_word_at_store_disjoint, run,
    store_word, wf_chain, word_at, ExecutionRecord,
};

verus! {

/// The instruction that sets the call-number register to the halt call.
pub open spec fn spec_halt_prologue() -> Instruction {
    Instruction::ADDI(AddI { rs1: 0, rd: REG_CALL, imm12: ECALL_HALT as i16 })
}

/// Place the low four bytes of `w` at `a`, little endian.
fn poke_word(p: &mut Program, a: u32, w: u32)
    requires
        a + 3 <= u32::MAX,
    ensures
        final(p)@.image == store_word(old(p)@.image, a, w),
        final(p)@.entry == old(p)@.entry,
        word_at(final(p)@.image, a) == w,
{
    p.poke(a, (w % 256) as u8);
    let a1 = a + 1;
    let a2 = a + 2;
    let a3 = a + 3;
    p.poke(a1, ((w / 256) % 256) as u8);
    p.poke(a2, ((w / 65536) % 256) as u8);
    p.poke(a3, ((w / 16777216) % 256) as u8);
    proof {
        crate::state::lemma_wrap_small(a, 1);
        crate::state::lemma_wrap_small(a, 2);
        crate::state::lemma_wrap_small(a, 3);
        lemma_word_at_store(old(p)@.image, a, w);
    }
}

/// Encode a program, append the halt sequence, add the data bytes, and
/// run it from address zero.
///
/// The returned program decodes, at each word address `4 * i`, to the
/// i-th given instruction, followed by the halt prologue and the ECALL;
/// the returned record is a complete trace of that program, as `run`
/// leaves it.
#[verifier::rlimit(80)]
pub fn execute(code: Vec<Instruction>, mem: &[(u32, u8)], regs: &[(u8, u32)]) -> (r: (
    Program,
    ExecutionRecord,
))
    requires
        code@.len() <= 0x3FF_FFFF,
        forall|i: int| 0 <= i < code@.len() ==> encodable(#[trigger] code@[i]),
        forall|i: int|
            0 <= i < mem@.len() ==> (#[trigger] mem@[i]).0 > 4 * code@.len() + 11,
        forall|i: int| 0 <= i < regs@.len() ==> (#[trigger] regs@[i]).0 < 32,
    ensures
        r.0@.entry == 0,
        r.0@.wf(),
        forall|i: int|
            0 <= i < code@.len() ==> spec_decode(word_at(r.0@.image, (4 * i) as u32))
                == code@[i],
        spec_decode(word_at(r.0@.image, (4 * code@.len()) as u32)) == spec_halt_prologue(),
        spec_decode(word_at(r.0@.image, (4 * code@.len() + 4) as u32)) == Instruction::ECALL,
        wf_chain(r.1.executed@, init_state(r.0@, regs@, Seq::empty()), r.1.last_state@),
        1 <= r.1.executed@.len() <= usize::MAX,
        r.1.last_state@.halted || r.1.executed@.len() == usize::MAX,
{
    let mut program = Program::empty();
    let n = code.len();
    let mut i: usize = 0;
    let ghost mut words: Seq<u32> = Seq::empty();
    while i < n
        invariant
            0 <= i <= n == code@.len() <= 0x3FF_FFFF,
            forall|k: int| 0 <= k < code@.len() ==> encodable(#[trigger] code@[k]),
            program@.entry == 0,
            words.len() == i,
            forall|k: int|
                0 <= k < i ==> word_at(program@.image, (4 * k) as u32) == #[trigger] words[k],
            forall|k: int| 0 <= k < i ==> spec_decode(#[trigger] words[k]) == code@[k],
        decreases n - i,
    {
        let w = encode(code[i]);
        let a = (i as u32) * 4;
        let ghost old_image = program@.image;
        poke_word(&mut program, a, w);
        proof {
            words = words.push(w);
            assert forall|k: int| 0 <= k < i implies word_at(program@.image, (4 * k) as u32)
                == #[trigger] words[k] by {
                lemma_word_at_store_disjoint(old_image, (4 * k) as u32, a, w);
            }
        }
        i = i + 1;
    }
    let halt_set = Instruction::ADDI(AddI { rs1: 0, rd: REG_CALL, imm12: 0 });
    let w1 = encode(halt_set);
    let a1 = (n as u32) * 4;
    let ghost image_a = program@.image;
    poke_word(&mut program, a1, w1);
    proof {
        assert forall|k: int| 0 <= k < n implies word_at(program@.image, (4 * k) as u32)
            == #[trigger] words[k] by {
            lemma_word_at_store_disjoint(image_a, (4 * k) as u32, a1, w1);
        }
    }
    let w2 = encode(Instruction::ECALL);
    let a2 = (n as u32) * 4 + 4;
    let ghost image_b = program@.image;
    poke_word(&mut program, a2, w2);
    proof {
        assert forall|k: int| 0 <= k < n implies word_at(program@.image, (4 * k) as u32)
            == #[trigger] words[k] by {
            lemma_word_at_store_disjoint(image_b, (4 * k) as u32, a2, w2);
        }
        lemma_word_at_store_disjoint(image_b, a1, a2, w2);
    }
    let mut j: usize = 0;
    while j < mem.len()
        invariant
            0 <= j <= mem@.len(),
            n == code@.len() <= 0x3FF_FFFF,
            forall|k: int|
                0 <= k < mem@.len() ==> (#[trigger] mem@[k]).0 > 4 * code@.len() + 11,
            program@.entry == 0,
            words.len() == n,
            forall|k: int|
                0 <= k < n ==> word_at(program@.image, (4 * k) as u32) == #[trigger] words[k],
            forall|k: int| 0 <= k < n ==> spec_decode(#[trigger] words[k]) == code@[k],
            word_at(program@.image, ((n as u32) * 4) as u32) == w1,
            word_at(program@.image, ((n as u32) * 4 + 4) as u32) == w2,
        decreases mem@.len() - j,
    {
        let (addr, byte) = mem[j];
        let ghost image_c = program@.image;
        program.poke(addr, byte);
        proof {
            assert forall|k: int| 0 <= k < n implies word_at(program@.image, (4 * k) as u32)
                == #[trigger] words[k] by {
                lemma_word_at_byte_disjoint(image_c, (4 * k) as u32, addr, byte);
            }
            lemma_word_at_byte_disjoint(image_c, ((4 * (n as int)) as u32), addr, byte);
            lemma_word_at_byte_disjoint(image_c, ((4 * (n as int) + 4) as u32), addr, byte);
        }
        j = j + 1;
    }
    proof {
        assert forall|k: int| 0 <= k < code@.len() implies spec_decode(
            word_at(program@.image, (4 * k) as u32),
        ) == code@[k] by {
            assert(word_at(program@.image, (4 * k) as u32) == words[k]);
        }
    }
    let empty_input: Vec<u8> = Vec::new();
    let record = run(&program, regs, empty_input);
    (program, record)
}

} // verus!
