//! A minimal register-based virtual machine.
//!
//! Programs are flat byte buffers: a concatenation of fixed-width four-byte
//! records `[opcode, operand, operand, operand]`. The [`instruction`] module
//! defines the opcode vocabulary and the encoder that produces such buffers
//! from typed instructions; the [`vm`] module owns the machine state and the
//! fetch-decode-execute cycle; the [`equivalence`] module proves that running
//! an encoded buffer has the same effect as executing the typed instructions
//! directly.

pub mod equivalence;
pub mod instruction;
pub mod vm;
