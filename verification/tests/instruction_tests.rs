use iridium::instruction::{instructions_to_bytes, Instruction, Opcode};
use iridium::vm::{VmError, VM};

#[test]
fn instruction_test_create_vm() {
    let test_vm = VM::new();
    assert_eq!(test_vm.registers[0], 0)
}

#[test]
fn test_opcode_hlt() {
    let mut test_vm = VM::new();
    let test_bytes = vec![0, 0, 0, 0];
    test_vm.program = test_bytes;
    let _ = test_vm.run();
    assert_eq!(test_vm.pc, 1);
}

#[test]
fn test_opcode_igl() {
    let mut test_vm = VM::new();
    let test_bytes = vec![200, 0, 0, 0];
    test_vm.program = test_bytes;
    let result = test_vm.run();
    assert_eq!(result, Err(VmError::IllegalOpcode(200)));
}

#[test]
fn test_opcode_add() {
    let mut test_vm = VM::new();
    let instrs = vec![
        Instruction::new(Opcode::LOAD, 1, 0, 2),
        Instruction::new(Opcode::LOAD, 3, 0, 5),
        Instruction::new(Opcode::ADD, 1, 3, 6),
    ];
    let test_bytes = instructions_to_bytes(instrs);

    test_vm.program = test_bytes;
    let _ = test_vm.run();

    assert_eq!(test_vm.registers[6], 7)
}

#[test]
fn test_opcode_mul() {
    let mut test_vm = VM::new();
    let instrs = vec![
        Instruction::new(Opcode::LOAD, 1, 0, 2),
        Instruction::new(Opcode::LOAD, 3, 0, 5),
        Instruction::new(Opcode::MUL, 1, 3, 6),
    ];
    let test_bytes = instructions_to_bytes(instrs);

    test_vm.program = test_bytes;
    let _ = test_vm.run();

    assert_eq!(test_vm.registers[6], 10)
}

#[test]
fn test_opcode_sub() {
    let mut test_vm = VM::new();
    let instrs = vec![
        Instruction::new(Opcode::LOAD, 1, 0, 25),
        Instruction::new(Opcode::LOAD, 3, 0, 17),
        Instruction::new(Opcode::SUB, 1, 3, 6),
    ];
    let test_bytes = instructions_to_bytes(instrs);

    test_vm.program = test_bytes;
    let _ = test_vm.run();

    assert_eq!(test_vm.registers[6], 8)
}

#[test]
fn test_opcode_gt() {
    let mut test_vm = VM::new();
    let instrs = vec![
        Instruction::new(Opcode::LOAD, 1, 0, 130),
        Instruction::new(Opcode::LOAD, 3, 0, 16),
        Instruction::new(Opcode::GT, 1, 3, 3),
        Instruction::new(Opcode::LOAD, 4, 0, 19),
        Instruction::new(Opcode::LOAD, 18, 0, 25),
    ];
    let test_bytes = instructions_to_bytes(instrs);

    test_vm.program = test_bytes;
    let _ = test_vm.run();

    assert_ne!(test_vm.registers[4], 19);
    assert_eq!(test_vm.registers[18], 25);
}

#[test]
fn test_opcode_byte_round_trip() {
    let opcodes = vec![
        Opcode::HLT,
        Opcode::LOAD,
        Opcode::ADD,
        Opcode::SUB,
        Opcode::DIV,
        Opcode::MUL,
        Opcode::GT,
    ];
    for (value, opcode) in opcodes.into_iter().enumerate() {
        let byte = value as u8;
        assert_eq!(opcode.as_byte(), byte);
        assert_eq!(Opcode::from_byte(byte), Some(opcode));
    }
    assert_eq!(Opcode::from_byte(7), None);
    assert_eq!(Opcode::from_byte(200), None);
    assert_eq!(Opcode::from_byte(255), None);
}

#[test]
fn test_instruction_new_fields() {
    let inst = Instruction::new(Opcode::LOAD, 1, 2, 3);
    assert_eq!(inst.opcode, Opcode::LOAD);
    assert_eq!(inst.byte1, 1);
    assert_eq!(inst.byte2, 2);
    assert_eq!(inst.byte3, 3);
}

#[test]
fn test_encode_exact_bytes() {
    // The wire format: opcode byte then operand bytes, four per instruction,
    // immediates big-endian (high byte first).
    let instrs = vec![
        Instruction::new(Opcode::LOAD, 0, 1, 244),
        Instruction::new(Opcode::ADD, 1, 2, 3),
        Instruction::new(Opcode::HLT, 0, 0, 0),
    ];
    let bytes = instructions_to_bytes(instrs);
    assert_eq!(bytes, vec![1, 0, 1, 244, 2, 1, 2, 3, 0, 0, 0, 0]);
}

#[test]
fn test_encode_empty() {
    let bytes = instructions_to_bytes(vec![]);
    assert_eq!(bytes, Vec::<u8>::new());
}

#[test]
fn test_encode_execute_round_trip() {
    // Executing the encoded bytes reproduces the register effects of the
    // typed sequence: r2 = 100, r3 = 30, r4 = r2 - r3 = 70, r5 = r4 * r3
    // (wrapping, in range: 2100), r6 = r5 / r4 = 30, remainder 0.
    let instrs = vec![
        Instruction::new(Opcode::LOAD, 2, 0, 100),
        Instruction::new(Opcode::LOAD, 3, 0, 30),
        Instruction::new(Opcode::SUB, 2, 3, 4),
        Instruction::new(Opcode::MUL, 4, 3, 5),
        Instruction::new(Opcode::DIV, 5, 4, 6),
    ];
    let mut test_vm = VM::new();
    test_vm.program = instructions_to_bytes(instrs);
    let result = test_vm.run();
    assert_eq!(result, Ok(true));
    assert_eq!(test_vm.registers[2], 100);
    assert_eq!(test_vm.registers[3], 30);
    assert_eq!(test_vm.registers[4], 70);
    assert_eq!(test_vm.registers[5], 2100);
    assert_eq!(test_vm.registers[6], 30);
    assert_eq!(test_vm.remainder, 0);
}
