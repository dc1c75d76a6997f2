//! Encoding and execution agree: running the machine over the bytes that
//! [`crate::instruction::spec_encode`] produces has exactly the effect of
//! executing the typed instructions directly.
//!
//! Direct execution keeps the byte-offset cursor of the machine: instruction
//! `k` stands at cursor `4 * k`. [`lemma_encoded_step`] matches one machine
//! step against one typed instruction for every opcode. Whole runs are
//! matched by [`lemma_encoded_run`] for jump-free sequences; a taken `GT`
//! jump may set the cursor to a byte offset inside an instruction record,
//! where the byte machine reinterprets operand bytes as opcodes and no typed
//! reading of the program exists.

use vstd::arithmetic::div_mod::lemma_fundamental_div_mod;
use vstd::prelude::*;

use crate::instruction::{
    lemma_encode_at, lemma_encode_len, lemma_opcode_value_round_trip, spec_encode, Instruction,
    Opcode,
};
use crate::vm::{spec_execute, spec_step, spec_steps, Machine, Outcome};

verus! {

/// Direct execution of one typed instruction against machine `m`: the
/// instruction's opcode applied to its three operand bytes, exactly as the
/// machine would apply them after decoding.
pub open spec fn spec_exec_instruction(m: Machine, inst: Instruction) -> Outcome {
    spec_execute(m, inst.opcode, inst.byte1, inst.byte2, inst.byte3)
}

/// One step of direct execution of a typed instruction sequence. The cursor
/// counts bytes, four per instruction, as in the machine; at or past the end
/// of the sequence the machine halts. The reading is meaningful only for
/// instruction-aligned cursors; a misaligned cursor points inside a record,
/// which no typed instruction stands for, and halts here.
pub open spec fn spec_step_typed(instrs: Seq<Instruction>, m: Machine) -> Outcome {
    if m.pc >= 4 * instrs.len() || m.pc % 4 != 0 {
        Outcome::Halted(m)
    } else {
        spec_exec_instruction(m, instrs[(m.pc / 4) as int])
    }
}

/// Up to `n` steps of direct execution of a typed instruction sequence.
pub open spec fn spec_steps_typed(instrs: Seq<Instruction>, m: Machine, n: nat) -> Outcome
    decreases n,
{
    if n == 0 {
        Outcome::Running(m)
    } else {
        match spec_step_typed(instrs, m) {
            Outcome::Running(m2) => spec_steps_typed(instrs, m2, (n - 1) as nat),
            o => o,
        }
    }
}

/// No instruction of the sequence is a jump.
pub open spec fn jump_free(instrs: Seq<Instruction>) -> bool {
    forall|i: int| 0 <= i < instrs.len() ==> (#[trigger] instrs[i]).opcode != Opcode::GT
}

/// One machine step over an encoded program, from the start of the `k`-th
/// instruction record, is exactly the direct execution of the `k`-th typed
/// instruction — for every opcode, jumps included.
pub proof fn lemma_encoded_step(instrs: Seq<Instruction>, m: Machine, k: int)
    requires
        m.program == spec_encode(instrs),
        0 <= k < instrs.len(),
        m.pc == 4 * k,
    ensures
        spec_step(m) == spec_exec_instruction(m, instrs[k]),
{
    lemma_encode_len(instrs);
    lemma_encode_at(instrs, k);
    lemma_opcode_value_round_trip(instrs[k].opcode);
}

/// Encode, then execute: running the machine over the encoded bytes of a
/// jump-free instruction sequence yields, step for step, exactly the machines
/// that direct execution of the typed sequence yields — the same registers,
/// cursor, remainder, and halt or failure.
pub proof fn lemma_encoded_run(instrs: Seq<Instruction>, m: Machine, n: nat)
    requires
        m.program == spec_encode(instrs),
        m.pc % 4 == 0,
        jump_free(instrs),
    ensures
        spec_steps(m, n) == spec_steps_typed(instrs, m, n),
    decreases n,
{
    lemma_encode_len(instrs);
    if n > 0 && m.pc < m.program.len() {
        lemma_fundamental_div_mod(m.pc as int, 4);
        let k = (m.pc / 4) as int;
        assert(m.pc == 4 * k);
        lemma_encoded_step(instrs, m, k);
        match spec_step(m) {
            Outcome::Running(m2) => {
                assert(instrs[k].opcode != Opcode::GT);
                assert(m2.program == m.program && m2.pc == m.pc + 4);
                lemma_encoded_run(instrs, m2, (n - 1) as nat);
            },
            _ => {},
        }
    }
}

} // verus!
