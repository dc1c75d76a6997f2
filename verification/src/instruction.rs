//! The instruction model: the opcode vocabulary, the four-byte instruction
//! record, and the encoder that turns a sequence of typed instructions into
//! the flat byte buffer the machine consumes.

use vstd::prelude::*;

verus! {

/// The operations the machine knows. The byte value of each opcode is a wire
/// contract, given by [`opcode_value`]: `HLT` is 0, `LOAD` 1, `ADD` 2, `SUB` 3,
/// `DIV` 4, `MUL` 5 and `GT` 6. Every other byte is an illegal opcode.
#[derive(Clone, Copy, Debug, PartialEq, Eq, Structural)]
pub enum Opcode {
    HLT,
    LOAD,
    ADD,
    SUB,
    DIV,
    MUL,
    GT,
}

/// The byte that encodes an opcode on the wire.
pub open spec fn opcode_value(op: Opcode) -> u8 {
    match op {
        Opcode::HLT => 0,
        Opcode::LOAD => 1,
        Opcode::ADD => 2,
        Opcode::SUB => 3,
        Opcode::DIV => 4,
        Opcode::MUL => 5,
        Opcode::GT => 6,
    }
}

/// The opcode a byte decodes to, or `None` for the bytes outside the opcode
/// vocabulary.
pub open spec fn opcode_of_byte(b: u8) -> Option<Opcode> {
    if b == 0 {
        Some(Opcode::HLT)
    } else if b == 1 {
        Some(Opcode::LOAD)
    } else if b == 2 {
        Some(Opcode::ADD)
    } else if b == 3 {
        Some(Opcode::SUB)
    } else if b == 4 {
        Some(Opcode::DIV)
    } else if b == 5 {
        Some(Opcode::MUL)
    } else if b == 6 {
        Some(Opcode::GT)
    } else {
        None
    }
}

impl Opcode {
    /// Decodes a raw byte. Exactly the byte values 0 through 6 decode to an
    /// opcode; every other value is rejected.
    pub fn from_byte(b: u8) -> (r: Option<Opcode>)
        ensures
            r == opcode_of_byte(b),
    {
        match b {
            0 => Some(Opcode::HLT),
            1 => Some(Opcode::LOAD),
            2 => Some(Opcode::ADD),
            3 => Some(Opcode::SUB),
            4 => Some(Opcode::DIV),
            5 => Some(Opcode::MUL),
            6 => Some(Opcode::GT),
            _ => None,
        }
    }

    /// The wire byte of this opcode.
    pub fn as_byte(self) -> (b: u8)
        ensures
            b == opcode_value(self),
    {
        match self {
            Opcode::HLT => 0,
            Opcode::LOAD => 1,
            Opcode::ADD => 2,
            Opcode::SUB => 3,
            Opcode::DIV => 4,
            Opcode::MUL => 5,
            Opcode::GT => 6,
        }
    }
}

/// Decoding succeeds exactly on the byte values 0 through 6, and the byte a
/// decoded opcode encodes back to is the byte it was decoded from.
pub proof fn lemma_opcode_byte_round_trip(b: u8)
    ensures
        b <= 6 ==> (opcode_of_byte(b) matches Some(op) && opcode_value(op) == b),
        b > 6 ==> opcode_of_byte(b) is None,
{
}

/// Encoding an opcode and decoding the resulting byte gives the opcode back.
pub proof fn lemma_opcode_value_round_trip(op: Opcode)
    ensures
        opcode_of_byte(opcode_value(op)) == Some(op),
{
}

/// One typed instruction: an opcode and three operand bytes. The operand
/// bytes are opaque here; what each means (a register index, or the high and
/// low halves of a 16-bit immediate) depends on the opcode and is resolved
/// during execution. Every instruction occupies exactly four bytes in the
/// encoded stream.
#[derive(Clone, Copy, Debug, PartialEq, Eq, Structural)]
pub struct Instruction {
    pub opcode: Opcode,
    pub byte1: u8,
    pub byte2: u8,
    pub byte3: u8,
}

impl Instruction {
    /// Builds an instruction from its opcode and operand bytes.
    pub fn new(opcode: Opcode, byte1: u8, byte2: u8, byte3: u8) -> (r: Instruction)
        ensures
            r == (Instruction { opcode, byte1, byte2, byte3 }),
    {
        Instruction { opcode, byte1, byte2, byte3 }
    }
}

/// The four bytes an instruction occupies in the encoded stream: the opcode
/// byte, then the three operand bytes, in order.
pub open spec fn spec_instruction_bytes(inst: Instruction) -> Seq<u8> {
    seq![opcode_value(inst.opcode), inst.byte1, inst.byte2, inst.byte3]
}

/// The encoding of a whole instruction sequence: each instruction's four
/// bytes, concatenated in order, with no separators, padding or length prefix.
pub open spec fn spec_encode(instrs: Seq<Instruction>) -> Seq<u8>
    decreases instrs.len(),
{
    if instrs.len() == 0 {
        Seq::empty()
    } else {
        spec_instruction_bytes(instrs[0]) + spec_encode(instrs.drop_first())
    }
}

/// An encoded sequence is exactly four bytes per instruction.
pub proof fn lemma_encode_len(instrs: Seq<Instruction>)
    ensures
        spec_encode(instrs).len() == 4 * instrs.len(),
    decreases instrs.len(),
{
    if instrs.len() > 0 {
        lemma_encode_len(instrs.drop_first());
    }
}

/// The four bytes at offset `4 * k` of an encoded sequence are the bytes of
/// the `k`-th instruction.
pub proof fn lemma_encode_at(instrs: Seq<Instruction>, k: int)
    requires
        0 <= k < instrs.len(),
    ensures
        spec_encode(instrs)[4 * k] == opcode_value(instrs[k].opcode),
        spec_encode(instrs)[4 * k + 1] == instrs[k].byte1,
        spec_encode(instrs)[4 * k + 2] == instrs[k].byte2,
        spec_encode(instrs)[4 * k + 3] == instrs[k].byte3,
    decreases k,
{
    lemma_encode_len(instrs.drop_first());
    if k == 0 {
        assert(spec_encode(instrs)[0] == spec_instruction_bytes(instrs[0])[0]);
    } else {
        lemma_encode_at(instrs.drop_first(), k - 1);
        assert(instrs.drop_first()[k - 1] == instrs[k]);
    }
}

/// Encoding one more instruction appends exactly its four bytes.
proof fn lemma_encode_take_step(instrs: Seq<Instruction>, i: int)
    requires
        0 <= i < instrs.len(),
    ensures
        spec_encode(instrs.take(i + 1)) == spec_encode(instrs.take(i)) + spec_instruction_bytes(
            instrs[i],
        ),
    decreases i,
{
    if i == 0 {
        assert(instrs.take(1)[0] == instrs[0]);
        assert(instrs.take(1).drop_first() =~= Seq::<Instruction>::empty());
        assert(spec_encode(instrs.take(1).drop_first()) =~= Seq::<u8>::empty());
        assert(spec_encode(instrs.take(1)) =~= spec_encode(instrs.take(0))
            + spec_instruction_bytes(instrs[0]));
    } else {
        let rest = instrs.drop_first();
        assert(instrs.take(i + 1).drop_first() =~= rest.take(i));
        assert(instrs.take(i).drop_first() =~= rest.take(i - 1));
        lemma_encode_take_step(rest, i - 1);
        assert(spec_encode(instrs.take(i + 1)) =~= spec_encode(instrs.take(i))
            + spec_instruction_bytes(instrs[i]));
    }
}

/// Encodes a sequence of typed instructions into the flat byte buffer the
/// machine consumes: for each instruction in order, its opcode byte followed
/// by its three operand bytes.
pub fn instructions_to_bytes(instructions: Vec<Instruction>) -> (bytes: Vec<u8>)
    ensures
        bytes@ == spec_encode(instructions@),
{
    let mut byte_vec: Vec<u8> = Vec::new();
    let mut i: usize = 0;
    while i < instructions.len()
        invariant
            i <= instructions.len(),
            byte_vec@ == spec_encode(instructions@.take(i as int)),
        decreases instructions.len() - i,
    {
        let inst = instructions[i];
        byte_vec.push(inst.opcode.as_byte());
        byte_vec.push(inst.byte1);
        byte_vec.push(inst.byte2);
        byte_vec.push(inst.byte3);
        proof {
            lemma_encode_take_step(instructions@, i as int);
            assert(byte_vec@ =~= spec_encode(instructions@.take(i + 1)));
        }
        i = i + 1;
    }
    proof {
        assert(instructions@.take(instructions@.len() as int) =~= instructions@);
    }
    byte_vec
}

} // verus!
