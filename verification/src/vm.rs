//! The execution engine: machine state and the fetch-decode-execute cycle.
//!
//! A machine owns 32 signed 32-bit registers, a byte-indexed program counter,
//! a remainder scratch register, and the program buffer. Each step reads one
//! opcode byte and its operands at the cursor, applies the opcode's effect,
//! and reports whether the machine is done. The whole cycle is specified by
//! [`spec_step`], and iterated execution by [`spec_steps`].

use vstd::arithmetic::div_mod::{
    lemma_div_is_ordered, lemma_div_is_ordered_by_denominator, lemma_div_nonincreasing,
    lemma_div_pos_is_pos, lemma_fundamental_div_mod, lemma_mod_division_less_than_divisor,
};
use vstd::math::abs;
use vstd::prelude::*;

use crate::instruction::{opcode_of_byte, opcode_value, Opcode};

verus! {

/// The fatal conditions a step can end in. Each halts execution immediately
/// and is surfaced to the caller; none mutates the machine.
#[derive(Clone, Copy, Debug, PartialEq, Eq, Structural)]
pub enum VmError {
    /// The byte at an opcode-fetch position is outside the opcode vocabulary.
    IllegalOpcode(u8),
    /// An operand byte used as a register index is outside 0..32.
    RegisterOutOfRange(u8),
    /// An instruction's operand bytes run past the end of the program buffer.
    TruncatedProgram,
    /// `DIV` with a divisor register holding zero.
    DivisionByZero,
}

/// The mathematical view of a machine: the register bank, the program counter
/// as a byte offset, the program bytes, and the remainder scratch register.
#[verifier::ext_equal]
pub ghost struct Machine {
    pub regs: Seq<i32>,
    pub pc: nat,
    pub program: Seq<u8>,
    pub remainder: u32,
}

/// What one fetch-decode-execute step yields: the machine keeps running, has
/// halted (`HLT`, or the cursor at or past the end of the program), or has
/// failed with a fatal error, its state untouched by the failing step.
pub ghost enum Outcome {
    Running(Machine),
    Halted(Machine),
    Failed(Machine, VmError),
}

/// The 16-bit immediate encoded big-endian in two operand bytes: the first
/// byte is the high-order half.
pub open spec fn imm_value(hi: u8, lo: u8) -> u16 {
    (hi * 256 + lo) as u16
}

/// Integer division truncating toward zero, as native signed division does.
pub open spec fn div_trunc(a: int, d: int) -> int
    recommends
        d != 0,
{
    if (a >= 0) == (d >= 0) {
        abs(a) as int / abs(d) as int
    } else {
        -(abs(a) as int / abs(d) as int)
    }
}

/// The remainder of truncating division: its sign follows the dividend, and
/// `a == d * div_trunc(a, d) + rem_trunc(a, d)`.
pub open spec fn rem_trunc(a: int, d: int) -> int
    recommends
        d != 0,
{
    if a >= 0 {
        abs(a) as int % abs(d) as int
    } else {
        -(abs(a) as int % abs(d) as int)
    }
}

/// The quotient a `DIV` instruction stores: truncating division, wrapped in
/// the one case (`i32::MIN / -1`) whose exact quotient does not fit, as the
/// other arithmetic opcodes wrap.
pub open spec fn div_wrapped(a: i32, d: i32) -> i32
    recommends
        d != 0,
{
    if a == i32::MIN && d == -1 {
        i32::MIN
    } else {
        div_trunc(a as int, d as int) as i32
    }
}

/// A truncating remainder reinterpreted as the unsigned 32-bit value with the
/// same bit pattern, as storing it in the unsigned remainder register does.
pub open spec fn remainder_bits(r: int) -> u32
    recommends
        -0x8000_0000 <= r < 0x8000_0000,
{
    if r >= 0 {
        r as u32
    } else {
        (r + 0x1_0000_0000) as u32
    }
}

/// The first of three operand bytes that is out of range as a register index,
/// if any. Register indices run from 0 to 31.
pub open spec fn check_registers(b1: u8, b2: u8, b3: u8) -> Option<VmError> {
    if b1 >= 32 {
        Some(VmError::RegisterOutOfRange(b1))
    } else if b2 >= 32 {
        Some(VmError::RegisterOutOfRange(b2))
    } else if b3 >= 32 {
        Some(VmError::RegisterOutOfRange(b3))
    } else {
        None
    }
}

/// The effect of one decoded instruction on the machine: the opcode and its
/// three operand bytes, applied to `m`. For `HLT` the operand bytes are not
/// consumed and do not matter; every other opcode consumes all three and
/// advances the cursor by four from the opcode byte, except a taken `GT`
/// jump, which overwrites the cursor.
pub open spec fn spec_execute(m: Machine, op: Opcode, b1: u8, b2: u8, b3: u8) -> Outcome {
    match op {
        Opcode::HLT => Outcome::Halted(Machine { pc: (m.pc + 1) as nat, ..m }),
        Opcode::LOAD => {
            if b1 >= 32 {
                Outcome::Failed(m, VmError::RegisterOutOfRange(b1))
            } else {
                Outcome::Running(
                    Machine {
                        regs: m.regs.update(b1 as int, imm_value(b2, b3) as i32),
                        pc: (m.pc + 4) as nat,
                        ..m
                    },
                )
            }
        },
        Opcode::ADD => {
            match check_registers(b1, b2, b3) {
                Some(e) => Outcome::Failed(m, e),
                None => Outcome::Running(
                    Machine {
                        regs: m.regs.update(
                            b3 as int,
                            m.regs[b1 as int].wrapping_add(m.regs[b2 as int]),
                        ),
                        pc: (m.pc + 4) as nat,
                        ..m
                    },
                ),
            }
        },
        Opcode::SUB => {
            match check_registers(b1, b2, b3) {
                Some(e) => Outcome::Failed(m, e),
                None => Outcome::Running(
                    Machine {
                        regs: m.regs.update(
                            b3 as int,
                            m.regs[b1 as int].wrapping_sub(m.regs[b2 as int]),
                        ),
                        pc: (m.pc + 4) as nat,
                        ..m
                    },
                ),
            }
        },
        Opcode::MUL => {
            match check_registers(b1, b2, b3) {
                Some(e) => Outcome::Failed(m, e),
                None => Outcome::Running(
                    Machine {
                        regs: m.regs.update(
                            b3 as int,
                            m.regs[b1 as int].wrapping_mul(m.regs[b2 as int]),
                        ),
                        pc: (m.pc + 4) as nat,
                        ..m
                    },
                ),
            }
        },
        Opcode::DIV => {
            match check_registers(b1, b2, b3) {
                Some(e) => Outcome::Failed(m, e),
                None => {
                    let a = m.regs[b1 as int];
                    let d = m.regs[b2 as int];
                    if d == 0 {
                        Outcome::Failed(m, VmError::DivisionByZero)
                    } else {
                        Outcome::Running(
                            Machine {
                                regs: m.regs.update(b3 as int, div_wrapped(a, d)),
                                pc: (m.pc + 4) as nat,
                                remainder: remainder_bits(rem_trunc(a as int, d as int)),
                                ..m
                            },
                        )
                    }
                },
            }
        },
        Opcode::GT => {
            match check_registers(b1, b2, b3) {
                Some(e) => Outcome::Failed(m, e),
                None => {
                    if m.regs[b1 as int] > m.regs[b2 as int] {
                        // The jump target is the value of the third operand's
                        // register. A byte offset is never negative; a negative
                        // target lands past the end of the program, where the
                        // machine halts.
                        let t = m.regs[b3 as int];
                        let target: nat = if t >= 0 {
                            t as nat
                        } else {
                            m.program.len()
                        };
                        Outcome::Running(Machine { pc: target, ..m })
                    } else {
                        Outcome::Running(Machine { pc: (m.pc + 4) as nat, ..m })
                    }
                },
            }
        },
    }
}

/// One full fetch-decode-execute step. A cursor at or past the end of the
/// program halts the machine unchanged. Otherwise the byte at the cursor is
/// decoded (an unknown byte is an illegal opcode), `HLT` halts after the one
/// opcode byte, and every other opcode needs its three operand bytes in the
/// buffer (else the program is truncated) and applies [`spec_execute`].
pub open spec fn spec_step(m: Machine) -> Outcome {
    if m.pc >= m.program.len() {
        Outcome::Halted(m)
    } else {
        let b = m.program[m.pc as int];
        match opcode_of_byte(b) {
            None => Outcome::Failed(m, VmError::IllegalOpcode(b)),
            Some(op) => {
                if op == Opcode::HLT {
                    spec_execute(m, op, 0, 0, 0)
                } else if m.pc + 4 > m.program.len() {
                    Outcome::Failed(m, VmError::TruncatedProgram)
                } else {
                    spec_execute(
                        m,
                        op,
                        m.program[m.pc as int + 1],
                        m.program[m.pc as int + 2],
                        m.program[m.pc as int + 3],
                    )
                }
            },
        }
    }
}

/// Up to `n` steps from `m`: the machine still running after `n` steps, or
/// the halt or failure it reached within them.
pub open spec fn spec_steps(m: Machine, n: nat) -> Outcome
    decreases n,
{
    if n == 0 {
        Outcome::Running(m)
    } else {
        match spec_step(m) {
            Outcome::Running(m2) => spec_steps(m2, (n - 1) as nat),
            o => o,
        }
    }
}

/// Stepping `k + j` times is stepping `k` times, then `j` more from wherever
/// that leads; a halt or failure within the first `k` steps is final.
pub proof fn lemma_steps_compose(m: Machine, k: nat, j: nat)
    ensures
        spec_steps(m, (k + j) as nat) == (match spec_steps(m, k) {
            Outcome::Running(m2) => spec_steps(m2, j),
            o => o,
        }),
    decreases k,
{
    if k > 0 {
        match spec_step(m) {
            Outcome::Running(m2) => {
                lemma_steps_compose(m2, (k - 1) as nat, j);
            },
            _ => {},
        }
    }
}

/// One more step after `k` steps that left the machine running at `cur` is
/// whatever one step from `cur` yields.
pub proof fn lemma_steps_extend(m0: Machine, k: nat, cur: Machine)
    requires
        spec_steps(m0, k) == Outcome::Running(cur),
    ensures
        spec_steps(m0, (k + 1) as nat) == (match spec_step(cur) {
            Outcome::Running(m2) => Outcome::Running(m2),
            o => o,
        }),
{
    reveal_with_fuel(spec_steps, 2);
    lemma_steps_compose(m0, k, 1);
}

/// A halt or failure reached within `k` steps is what any longer run yields.
pub proof fn lemma_steps_absorb(m0: Machine, k: nat, n: nat)
    requires
        k <= n,
        !(spec_steps(m0, k) is Running),
    ensures
        spec_steps(m0, n) == spec_steps(m0, k),
{
    lemma_steps_compose(m0, k, (n - k) as nat);
}

/// Execution reads the program and never rewrites it, and the register bank
/// never changes size: whatever a step yields, the machine it carries holds
/// the same program bytes and as many registers as before.
pub proof fn lemma_step_preserves_program(m: Machine)
    requires
        m.regs.len() == 32,
    ensures
        (match spec_step(m) {
            Outcome::Running(m2) => m2.program == m.program && m2.regs.len() == m.regs.len(),
            Outcome::Halted(m2) => m2.program == m.program && m2.regs.len() == m.regs.len(),
            Outcome::Failed(m2, _) => m2.program == m.program && m2.regs.len() == m.regs.len(),
        }),
{
    if m.pc < m.program.len() {
        match opcode_of_byte(m.program[m.pc as int]) {
            Some(op) => {
                match op {
                    Opcode::HLT => {},
                    Opcode::LOAD => {},
                    Opcode::ADD => {},
                    Opcode::SUB => {},
                    Opcode::MUL => {},
                    Opcode::DIV => {},
                    Opcode::GT => {},
                }
            },
            None => {},
        }
    }
}

/// What holds of one step holds of any number of them: however long the
/// machine runs, the program bytes and the register count stay what they were.
pub proof fn lemma_steps_preserve_program(m: Machine, n: nat)
    requires
        m.regs.len() == 32,
    ensures
        (match spec_steps(m, n) {
            Outcome::Running(m2) => m2.program == m.program && m2.regs.len() == m.regs.len(),
            Outcome::Halted(m2) => m2.program == m.program && m2.regs.len() == m.regs.len(),
            Outcome::Failed(m2, _) => m2.program == m.program && m2.regs.len() == m.regs.len(),
        }),
    decreases n,
{
    if n > 0 {
        lemma_step_preserves_program(m);
        match spec_step(m) {
            Outcome::Running(m2) => {
                lemma_steps_preserve_program(m2, (n - 1) as nat);
            },
            _ => {},
        }
    }
}

/// The number of steps one `run` call is willing to take. The bound exists
/// only so that every call provably returns; at one step a nanosecond it is
/// centuries away, so no real program reaches it.
pub const RUN_STEP_LIMIT: u64 = 0xffff_ffff_ffff_ffff;

/// A register-based virtual machine: 32 signed 32-bit registers, a byte
/// cursor into the program, the remainder of the most recent division, and
/// the program buffer itself.
#[derive(Debug)]
pub struct VM {
    pub registers: [i32; 32],
    pub pc: usize,
    pub program: Vec<u8>,
    pub remainder: u32,
}

impl View for VM {
    type V = Machine;

    open spec fn view(&self) -> Machine {
        Machine {
            regs: self.registers@,
            pc: self.pc as nat,
            program: self.program@,
            remainder: self.remainder,
        }
    }
}

impl VM {
    /// A fresh machine: all 32 registers zero, the cursor at the start, no
    /// remainder, and an empty program.
    pub fn new() -> (vm: VM)
        ensures
            vm@.regs.len() == 32,
            forall|i: int| 0 <= i < 32 ==> vm@.regs[i] == 0,
            vm@.pc == 0,
            vm@.program.len() == 0,
            vm@.remainder == 0,
    {
        VM { registers: [0; 32], program: Vec::new(), pc: 0, remainder: 0 }
    }

    /// Reads the byte at the cursor and advances the cursor past it; used to
    /// fetch a register index operand.
    fn next_8_bits(&mut self) -> (b: u8)
        requires
            old(self).pc < old(self).program.len(),
        ensures
            b == old(self).program@[old(self).pc as int],
            final(self).pc == old(self).pc + 1,
            final(self).registers@ == old(self).registers@,
            final(self).program@ == old(self).program@,
            final(self).remainder == old(self).remainder,
    {
        let result = self.program[self.pc];
        self.pc = self.pc + 1;
        result
    }

    /// Reads the two bytes at the cursor as a big-endian unsigned 16-bit
    /// value and advances the cursor past them; used to fetch an immediate.
    fn next_16_bits(&mut self) -> (v: u16)
        requires
            old(self).pc + 2 <= old(self).program.len(),
        ensures
            v == imm_value(
                old(self).program@[old(self).pc as int],
                old(self).program@[old(self).pc as int + 1],
            ),
            final(self).pc == old(self).pc + 2,
            final(self).registers@ == old(self).registers@,
            final(self).program@ == old(self).program@,
            final(self).remainder == old(self).remainder,
    {
        let hi = self.program[self.pc];
        let lo = self.program[self.pc + 1];
        self.pc = self.pc + 2;
        (hi as u16) * 256 + (lo as u16)
    }

    /// Fetches the three register-index operand bytes of a three-operand
    /// instruction and validates them. On an out-of-range index the cursor is
    /// put back on the opcode byte and nothing else is touched.
    fn fetch_three_registers(&mut self, entry_pc: usize) -> (r: Result<(u8, u8, u8), VmError>)
        requires
            old(self).pc == entry_pc + 1,
            entry_pc + 4 <= old(self).program.len(),
        ensures
            final(self).registers@ == old(self).registers@,
            final(self).program@ == old(self).program@,
            final(self).remainder == old(self).remainder,
            (match r {
                Ok(bs) => {
                    &&& bs.0 == old(self).program@[entry_pc + 1]
                    &&& bs.1 == old(self).program@[entry_pc + 2]
                    &&& bs.2 == old(self).program@[entry_pc + 3]
                    &&& bs.0 < 32
                    &&& bs.1 < 32
                    &&& bs.2 < 32
                    &&& final(self).pc == entry_pc + 4
                },
                Err(e) => {
                    &&& Some(e) == check_registers(
                        old(self).program@[entry_pc + 1],
                        old(self).program@[entry_pc + 2],
                        old(self).program@[entry_pc + 3],
                    )
                    &&& final(self).pc == entry_pc
                },
            }),
    {
        let b1 = self.next_8_bits();
        let b2 = self.next_8_bits();
        let b3 = self.next_8_bits();
        if b1 >= 32 {
            self.pc = entry_pc;
            return Err(VmError::RegisterOutOfRange(b1));
        }
        if b2 >= 32 {
            self.pc = entry_pc;
            return Err(VmError::RegisterOutOfRange(b2));
        }
        if b3 >= 32 {
            self.pc = entry_pc;
            return Err(VmError::RegisterOutOfRange(b3));
        }
        Ok((b1, b2, b3))
    }

    /// Truncating division and remainder of two registers, computed on
    /// magnitudes so that every case is exact; the `i32::MIN / -1` quotient
    /// wraps as [`div_wrapped`] says.
    fn div_rem_registers(a: i32, d: i32) -> (qr: (i32, i32))
        requires
            d != 0,
        ensures
            qr.0 == div_wrapped(a, d),
            qr.1 as int == rem_trunc(a as int, d as int),
    {
        if a == i32::MIN && d == -1 {
            (i32::MIN, 0)
        } else {
            let ua: u32 = if a >= 0 {
                a as u32
            } else if a == i32::MIN {
                0x8000_0000u32
            } else {
                (-a) as u32
            };
            let ud: u32 = if d >= 0 {
                d as u32
            } else if d == i32::MIN {
                0x8000_0000u32
            } else {
                (-d) as u32
            };
            proof {
                assert(ua as int == abs(a as int));
                assert(ud as int == abs(d as int));
            }
            let qm: u32 = ua / ud;
            let rm: u32 = ua % ud;
            proof {
                lemma_div_pos_is_pos(ua as int, ud as int);
                lemma_div_nonincreasing(ua as int, ud as int);
                lemma_mod_division_less_than_divisor(ua as int, ud as int);
                if a < 0 && d < 0 && ud >= 2 {
                    lemma_div_is_ordered_by_denominator(ua as int, 2, ud as int);
                    lemma_div_is_ordered(ua as int, 0x8000_0000, 2);
                }
            }
            let q: i32 = if (a >= 0) == (d >= 0) {
                qm as i32
            } else if qm == 0x8000_0000u32 {
                i32::MIN
            } else {
                -(qm as i32)
            };
            let rem: i32 = if a >= 0 {
                rm as i32
            } else {
                -(rm as i32)
            };
            (q, rem)
        }
    }

    /// One fetch-decode-execute step, exactly as [`spec_step`] says: `Ok(true)`
    /// when the machine halted (by `HLT`, or because the cursor is at or past
    /// the end of the program), `Ok(false)` when an instruction executed and
    /// the machine keeps running, and `Err` on a fatal error, with the machine
    /// left exactly as it was before the step.
    fn execute_instruction(&mut self) -> (r: Result<bool, VmError>)
        ensures
            (match spec_step(old(self)@) {
                Outcome::Halted(m) => r == Ok::<bool, VmError>(true) && final(self)@ == m,
                Outcome::Running(m) => r == Ok::<bool, VmError>(false) && final(self)@ == m,
                Outcome::Failed(m, e) => r == Err::<bool, VmError>(e) && final(self)@ == m,
            }),
    {
        if self.pc >= self.program.len() {
            return Ok(true);
        }
        let entry_pc = self.pc;
        let op_byte = self.program[self.pc];
        let opcode = match Opcode::from_byte(op_byte) {
            Some(op) => op,
            None => {
                return Err(VmError::IllegalOpcode(op_byte));
            },
        };
        self.pc = self.pc + 1;
        match opcode {
            Opcode::HLT => Ok(true),
            Opcode::LOAD => {
                if self.program.len() - entry_pc < 4 {
                    self.pc = entry_pc;
                    return Err(VmError::TruncatedProgram);
                }
                let register = self.next_8_bits();
                if register >= 32 {
                    self.pc = entry_pc;
                    return Err(VmError::RegisterOutOfRange(register));
                }
                let number = self.next_16_bits();
                self.registers[register as usize] = number as i32;
                Ok(false)
            },
            Opcode::ADD => {
                if self.program.len() - entry_pc < 4 {
                    self.pc = entry_pc;
                    return Err(VmError::TruncatedProgram);
                }
                let (r1, r2, r3) = match self.fetch_three_registers(entry_pc) {
                    Ok(t) => t,
                    Err(e) => {
                        return Err(e);
                    },
                };
                let v1 = self.registers[r1 as usize];
                let v2 = self.registers[r2 as usize];
                self.registers[r3 as usize] = v1.wrapping_add(v2);
                Ok(false)
            },
            Opcode::SUB => {
                if self.program.len() - entry_pc < 4 {
                    self.pc = entry_pc;
                    return Err(VmError::TruncatedProgram);
                }
                let (r1, r2, r3) = match self.fetch_three_registers(entry_pc) {
                    Ok(t) => t,
                    Err(e) => {
                        return Err(e);
                    },
                };
                let v1 = self.registers[r1 as usize];
                let v2 = self.registers[r2 as usize];
                self.registers[r3 as usize] = v1.wrapping_sub(v2);
                Ok(false)
            },
            Opcode::MUL => {
                if self.program.len() - entry_pc < 4 {
                    self.pc = entry_pc;
                    return Err(VmError::TruncatedProgram);
                }
                let (r1, r2, r3) = match self.fetch_three_registers(entry_pc) {
                    Ok(t) => t,
                    Err(e) => {
                        return Err(e);
                    },
                };
                let v1 = self.registers[r1 as usize];
                let v2 = self.registers[r2 as usize];
                self.registers[r3 as usize] = v1.wrapping_mul(v2);
                Ok(false)
            },
            Opcode::DIV => {
                if self.program.len() - entry_pc < 4 {
                    self.pc = entry_pc;
                    return Err(VmError::TruncatedProgram);
                }
                let (r1, r2, r3) = match self.fetch_three_registers(entry_pc) {
                    Ok(t) => t,
                    Err(e) => {
                        return Err(e);
                    },
                };
                let dividend = self.registers[r1 as usize];
                let divisor = self.registers[r2 as usize];
                if divisor == 0 {
                    self.pc = entry_pc;
                    return Err(VmError::DivisionByZero);
                }
                let (q, rem) = Self::div_rem_registers(dividend, divisor);
                self.registers[r3 as usize] = q;
                self.remainder = if rem >= 0 {
                    rem as u32
                } else {
                    ((rem as i64) + 0x1_0000_0000i64) as u32
                };
                Ok(false)
            },
            Opcode::GT => {
                if self.program.len() - entry_pc < 4 {
                    self.pc = entry_pc;
                    return Err(VmError::TruncatedProgram);
                }
                let (r1, r2, r3) = match self.fetch_three_registers(entry_pc) {
                    Ok(t) => t,
                    Err(e) => {
                        return Err(e);
                    },
                };
                let v1 = self.registers[r1 as usize];
                let v2 = self.registers[r2 as usize];
                if v1 > v2 {
                    let target = self.registers[r3 as usize];
                    if target >= 0 {
                        self.pc = target as usize;
                    } else {
                        self.pc = self.program.len();
                    }
                }
                Ok(false)
            },
        }
    }

    /// Executes exactly one instruction step and reports what it yielded, as
    /// [`spec_step`] says: `Ok(true)` when the machine halted, `Ok(false)`
    /// when it keeps running, `Err` on a fatal error with the machine left
    /// exactly as it was.
    pub fn run_once(&mut self) -> (r: Result<bool, VmError>)
        ensures
            (match spec_step(old(self)@) {
                Outcome::Halted(m) => r == Ok::<bool, VmError>(true) && final(self)@ == m,
                Outcome::Running(m) => r == Ok::<bool, VmError>(false) && final(self)@ == m,
                Outcome::Failed(m, e) => r == Err::<bool, VmError>(e) && final(self)@ == m,
            }),
    {
        self.execute_instruction()
    }

    /// Runs step after step until the machine halts or a step fails:
    /// `Ok(true)` when it halted, `Err` with the fatal error of the step that
    /// failed, the machine left as that step found it. The one departure from
    /// an unbounded loop is the step bound [`RUN_STEP_LIMIT`], far beyond any
    /// real execution: a program still running after that many steps is left
    /// in its current state with `Ok(false)`.
    pub fn run(&mut self) -> (r: Result<bool, VmError>)
        ensures
            (match spec_steps(old(self)@, RUN_STEP_LIMIT as nat) {
                Outcome::Halted(m) => r == Ok::<bool, VmError>(true) && final(self)@ == m,
                Outcome::Running(m) => r == Ok::<bool, VmError>(false) && final(self)@ == m,
                Outcome::Failed(m, e) => r == Err::<bool, VmError>(e) && final(self)@ == m,
            }),
    {
        let ghost m0 = self@;
        let mut fuel: u64 = RUN_STEP_LIMIT;
        while fuel > 0
            invariant
                m0 == old(self)@,
                fuel <= RUN_STEP_LIMIT,
                spec_steps(m0, (RUN_STEP_LIMIT - fuel) as nat) == Outcome::Running(self@),
            decreases fuel,
        {
            let ghost k: nat = (RUN_STEP_LIMIT - fuel) as nat;
            let ghost cur = self@;
            let step = self.execute_instruction();
            proof {
                lemma_steps_extend(m0, k, cur);
                if !(spec_step(cur) is Running) {
                    lemma_steps_absorb(m0, (k + 1) as nat, RUN_STEP_LIMIT as nat);
                }
            }
            match step {
                Ok(false) => {
                    fuel = fuel - 1;
                },
                Ok(true) => {
                    return Ok(true);
                },
                Err(e) => {
                    return Err(e);
                },
            }
        }
        Ok(false)
    }
}

/// A byte outside the opcode vocabulary at an opcode-fetch position fails the
/// step with the illegal-opcode error and leaves the machine untouched.
pub proof fn lemma_illegal_opcode_step(m: Machine)
    requires
        m.pc < m.program.len(),
        opcode_of_byte(m.program[m.pc as int]) is None,
    ensures
        spec_step(m) == Outcome::Failed(m, VmError::IllegalOpcode(m.program[m.pc as int])),
{
}

/// `HLT` halts the machine after consuming just its one opcode byte: the
/// cursor moves one past it and registers, remainder and program are left
/// unchanged.
pub proof fn lemma_hlt_step(m: Machine)
    requires
        m.pc < m.program.len(),
        m.program[m.pc as int] == opcode_value(Opcode::HLT),
    ensures
        spec_step(m) == Outcome::Halted((Machine { pc: (m.pc + 1) as nat, ..m })),
{
}

/// `LOAD` stores its 16-bit big-endian immediate, zero-extended, in the named
/// register, leaves every other register, the remainder and the program
/// unchanged, and advances the cursor past the four instruction bytes.
pub proof fn lemma_load_step(m: Machine, r: u8, hi: u8, lo: u8)
    requires
        m.regs.len() == 32,
        m.pc + 4 <= m.program.len(),
        m.program[m.pc as int] == opcode_value(Opcode::LOAD),
        m.program[m.pc as int + 1] == r,
        m.program[m.pc as int + 2] == hi,
        m.program[m.pc as int + 3] == lo,
        r < 32,
    ensures
        (spec_step(m) matches Outcome::Running(m2) && {
            &&& m2.regs == m.regs.update(r as int, imm_value(hi, lo) as i32)
            &&& m2.regs[r as int] as int == hi * 256 + lo
            &&& forall|i: int| 0 <= i < 32 && i != r ==> m2.regs[i] == m.regs[i]
            &&& m2.pc == m.pc + 4
            &&& m2.remainder == m.remainder
            &&& m2.program == m.program
        }),
{
}

/// `ADD` stores the native wrapping 32-bit signed sum of the two source
/// registers in the destination register and advances the cursor past the
/// four instruction bytes.
pub proof fn lemma_add_step(m: Machine, a: u8, b: u8, dst: u8)
    requires
        m.regs.len() == 32,
        m.pc + 4 <= m.program.len(),
        m.program[m.pc as int] == opcode_value(Opcode::ADD),
        m.program[m.pc as int + 1] == a,
        m.program[m.pc as int + 2] == b,
        m.program[m.pc as int + 3] == dst,
        a < 32,
        b < 32,
        dst < 32,
    ensures
        (spec_step(m) matches Outcome::Running(m2) && {
            &&& m2.regs == m.regs.update(
                dst as int,
                m.regs[a as int].wrapping_add(m.regs[b as int]),
            )
            &&& m2.pc == m.pc + 4
            &&& m2.remainder == m.remainder
            &&& m2.program == m.program
        }),
{
}

/// `SUB` stores the native wrapping 32-bit signed difference of the two
/// source registers in the destination register and advances the cursor past
/// the four instruction bytes.
pub proof fn lemma_sub_step(m: Machine, a: u8, b: u8, dst: u8)
    requires
        m.regs.len() == 32,
        m.pc + 4 <= m.program.len(),
        m.program[m.pc as int] == opcode_value(Opcode::SUB),
        m.program[m.pc as int + 1] == a,
        m.program[m.pc as int + 2] == b,
        m.program[m.pc as int + 3] == dst,
        a < 32,
        b < 32,
        dst < 32,
    ensures
        (spec_step(m) matches Outcome::Running(m2) && {
            &&& m2.regs == m.regs.update(
                dst as int,
                m.regs[a as int].wrapping_sub(m.regs[b as int]),
            )
            &&& m2.pc == m.pc + 4
            &&& m2.remainder == m.remainder
            &&& m2.program == m.program
        }),
{
}

/// `MUL` stores the native wrapping 32-bit signed product of the two source
/// registers in the destination register and advances the cursor past the
/// four instruction bytes.
pub proof fn lemma_mul_step(m: Machine, a: u8, b: u8, dst: u8)
    requires
        m.regs.len() == 32,
        m.pc + 4 <= m.program.len(),
        m.program[m.pc as int] == opcode_value(Opcode::MUL),
        m.program[m.pc as int + 1] == a,
        m.program[m.pc as int + 2] == b,
        m.program[m.pc as int + 3] == dst,
        a < 32,
        b < 32,
        dst < 32,
    ensures
        (spec_step(m) matches Outcome::Running(m2) && {
            &&& m2.regs == m.regs.update(
                dst as int,
                m.regs[a as int].wrapping_mul(m.regs[b as int]),
            )
            &&& m2.pc == m.pc + 4
            &&& m2.remainder == m.remainder
            &&& m2.program == m.program
        }),
{
}

/// `DIV` with a non-zero divisor stores the truncating quotient in the
/// destination register and the truncating remainder, reinterpreted as
/// unsigned bits, in the remainder register.
pub proof fn lemma_div_step(m: Machine, a: u8, b: u8, dst: u8)
    requires
        m.regs.len() == 32,
        m.pc + 4 <= m.program.len(),
        m.program[m.pc as int] == opcode_value(Opcode::DIV),
        m.program[m.pc as int + 1] == a,
        m.program[m.pc as int + 2] == b,
        m.program[m.pc as int + 3] == dst,
        a < 32,
        b < 32,
        dst < 32,
        m.regs[b as int] != 0,
    ensures
        (spec_step(m) matches Outcome::Running(m2) && {
            &&& m2.regs == m.regs.update(dst as int, div_wrapped(m.regs[a as int], m.regs[b as int]))
            &&& m2.remainder == remainder_bits(
                rem_trunc(m.regs[a as int] as int, m.regs[b as int] as int),
            )
            &&& m2.pc == m.pc + 4
            &&& m2.program == m.program
        }),
{
}

/// `DIV` with a zero divisor register fails the step with the
/// division-by-zero error; neither the destination register nor the remainder
/// register nor anything else of the machine is mutated.
pub proof fn lemma_div_by_zero_step(m: Machine, a: u8, b: u8, dst: u8)
    requires
        m.regs.len() == 32,
        m.pc + 4 <= m.program.len(),
        m.program[m.pc as int] == opcode_value(Opcode::DIV),
        m.program[m.pc as int + 1] == a,
        m.program[m.pc as int + 2] == b,
        m.program[m.pc as int + 3] == dst,
        a < 32,
        b < 32,
        dst < 32,
        m.regs[b as int] == 0,
    ensures
        spec_step(m) == Outcome::Failed(m, VmError::DivisionByZero),
{
}

/// The truncating quotient and remainder are the correct pair: the dividend
/// is divisor times quotient plus remainder, the remainder's magnitude is
/// below the divisor's, and its sign follows the dividend.
pub proof fn lemma_div_rem_trunc(a: int, d: int)
    requires
        d != 0,
    ensures
        d * div_trunc(a, d) + rem_trunc(a, d) == a,
        abs(rem_trunc(a, d)) < abs(d),
        a >= 0 ==> rem_trunc(a, d) >= 0,
        a < 0 ==> rem_trunc(a, d) <= 0,
{
    let q0 = abs(a) as int / abs(d) as int;
    let r0 = abs(a) as int % abs(d) as int;
    lemma_fundamental_div_mod(abs(a) as int, abs(d) as int);
    lemma_mod_division_less_than_divisor(abs(a) as int, abs(d) as int);
    assert(abs(a) as int == abs(d) as int * q0 + r0);
    if a >= 0 && d < 0 {
        assert(d * (-q0) == (-d) * q0) by (nonlinear_arith);
    } else if a < 0 && d > 0 {
        assert(d * (-q0) == -(d * q0)) by (nonlinear_arith);
    } else if a < 0 && d < 0 {
        assert(d * q0 == -((-d) * q0)) by (nonlinear_arith);
    }
}

/// `GT` consumes all three operand bytes whatever the comparison says. When
/// the first source register exceeds the second, the cursor is set to the
/// value of the destination register (a negative value, never a byte offset,
/// lands past the end of the program, where the machine halts); otherwise the
/// cursor advances past the four instruction bytes. Registers, remainder and
/// program are never touched.
pub proof fn lemma_gt_step(m: Machine, a: u8, b: u8, dst: u8)
    requires
        m.regs.len() == 32,
        m.pc + 4 <= m.program.len(),
        m.program[m.pc as int] == opcode_value(Opcode::GT),
        m.program[m.pc as int + 1] == a,
        m.program[m.pc as int + 2] == b,
        m.program[m.pc as int + 3] == dst,
        a < 32,
        b < 32,
        dst < 32,
    ensures
        m.regs[a as int] > m.regs[b as int] && m.regs[dst as int] >= 0 ==> spec_step(m)
            == Outcome::Running((Machine { pc: m.regs[dst as int] as nat, ..m })),
        m.regs[a as int] > m.regs[b as int] && m.regs[dst as int] < 0 ==> spec_step(m)
            == Outcome::Running((Machine { pc: m.program.len(), ..m })),
        m.regs[a as int] <= m.regs[b as int] ==> spec_step(m) == Outcome::Running(
            (Machine { pc: (m.pc + 4) as nat, ..m }),
        ),
{
}

} // verus!
