use iridium::instruction::{instructions_to_bytes, Instruction, Opcode};
use iridium::vm::{VmError, VM};

#[test]
fn vm_test_create_vm() {
    let test_vm = VM::new();
    assert_eq!(test_vm.registers[0], 0)
}

#[test]
fn test_load_opcode() {
    let mut test_vm = VM::new();
    test_vm.program = vec![1, 0, 1, 244];
    let _ = test_vm.run();
    assert_eq!(test_vm.registers[0], 500);
}

#[test]
fn test_fresh_vm_state() {
    let test_vm = VM::new();
    for i in 0..32 {
        assert_eq!(test_vm.registers[i], 0);
    }
    assert_eq!(test_vm.pc, 0);
    assert_eq!(test_vm.remainder, 0);
    assert!(test_vm.program.is_empty());
}

#[test]
fn test_load_edge_values() {
    for &value in &[0u16, 1u16, 65535u16] {
        let mut test_vm = VM::new();
        let hi = (value >> 8) as u8;
        let lo = (value & 0xff) as u8;
        test_vm.program = vec![1, 5, hi, lo];
        let result = test_vm.run();
        assert_eq!(result, Ok(true));
        assert_eq!(test_vm.registers[5], value as i32);
        for i in 0..32 {
            if i != 5 {
                assert_eq!(test_vm.registers[i], 0);
            }
        }
    }
}

#[test]
fn test_hlt_stops_before_rest() {
    let mut test_vm = VM::new();
    // HLT first; the LOAD after it must not execute.
    test_vm.program = vec![0, 0, 0, 0, 1, 0, 0, 5];
    let result = test_vm.run();
    assert_eq!(result, Ok(true));
    assert_eq!(test_vm.pc, 1);
    for i in 0..32 {
        assert_eq!(test_vm.registers[i], 0);
    }
}

#[test]
fn test_div_remainder() {
    let mut test_vm = VM::new();
    let instrs = vec![
        Instruction::new(Opcode::LOAD, 1, 0, 25),
        Instruction::new(Opcode::LOAD, 3, 0, 17),
        Instruction::new(Opcode::DIV, 1, 3, 6),
    ];
    test_vm.program = instructions_to_bytes(instrs);
    let result = test_vm.run();
    assert_eq!(result, Ok(true));
    assert_eq!(test_vm.registers[6], 1);
    assert_eq!(test_vm.remainder, 8);
}

#[test]
fn test_div_negative_dividend() {
    let mut test_vm = VM::new();
    // r2 = 0 - 7 = -7; -7 / 2 truncates toward zero to -3 with remainder -1,
    // stored in the unsigned remainder register as its bit pattern.
    let instrs = vec![
        Instruction::new(Opcode::LOAD, 1, 0, 7),
        Instruction::new(Opcode::SUB, 0, 1, 2),
        Instruction::new(Opcode::LOAD, 3, 0, 2),
        Instruction::new(Opcode::DIV, 2, 3, 4),
    ];
    test_vm.program = instructions_to_bytes(instrs);
    let result = test_vm.run();
    assert_eq!(result, Ok(true));
    assert_eq!(test_vm.registers[2], -7);
    assert_eq!(test_vm.registers[4], -3);
    assert_eq!(test_vm.remainder, 4294967295);
}

#[test]
fn test_div_by_zero_error() {
    let mut test_vm = VM::new();
    let instrs = vec![
        Instruction::new(Opcode::LOAD, 1, 0, 25),
        Instruction::new(Opcode::DIV, 1, 2, 6),
    ];
    test_vm.program = instructions_to_bytes(instrs);
    let result = test_vm.run();
    assert_eq!(result, Err(VmError::DivisionByZero));
    // The failing step mutates nothing: the destination register and the
    // remainder keep their values.
    assert_eq!(test_vm.registers[6], 0);
    assert_eq!(test_vm.remainder, 0);
    assert_eq!(test_vm.registers[1], 25);
}

#[test]
fn test_truncated_program_error() {
    let mut test_vm = VM::new();
    test_vm.program = vec![1, 0];
    let result = test_vm.run();
    assert_eq!(result, Err(VmError::TruncatedProgram));
    assert_eq!(test_vm.pc, 0);
    assert_eq!(test_vm.registers[0], 0);
}

#[test]
fn test_register_out_of_range_error() {
    let mut test_vm = VM::new();
    test_vm.program = vec![2, 40, 0, 0];
    let result = test_vm.run();
    assert_eq!(result, Err(VmError::RegisterOutOfRange(40)));
    assert_eq!(test_vm.pc, 0);
}

#[test]
fn test_gt_not_taken_consumes_operands() {
    let mut test_vm = VM::new();
    // 1 > 5 is false: no jump, but all three operand bytes are consumed and
    // the next instruction executes from the following record.
    let instrs = vec![
        Instruction::new(Opcode::LOAD, 1, 0, 1),
        Instruction::new(Opcode::LOAD, 3, 0, 5),
        Instruction::new(Opcode::GT, 1, 3, 0),
        Instruction::new(Opcode::LOAD, 4, 0, 19),
    ];
    test_vm.program = instructions_to_bytes(instrs);
    let result = test_vm.run();
    assert_eq!(result, Ok(true));
    assert_eq!(test_vm.registers[4], 19);
    assert_eq!(test_vm.pc, 16);
}

#[test]
fn test_run_once_single_steps() {
    let mut test_vm = VM::new();
    let instrs = vec![
        Instruction::new(Opcode::LOAD, 0, 0, 5),
        Instruction::new(Opcode::LOAD, 1, 0, 6),
    ];
    test_vm.program = instructions_to_bytes(instrs);

    assert_eq!(test_vm.run_once(), Ok(false));
    assert_eq!(test_vm.registers[0], 5);
    assert_eq!(test_vm.registers[1], 0);
    assert_eq!(test_vm.pc, 4);

    assert_eq!(test_vm.run_once(), Ok(false));
    assert_eq!(test_vm.registers[1], 6);
    assert_eq!(test_vm.pc, 8);

    // The cursor is at the end of the program: the machine is done, nothing
    // changes any more.
    assert_eq!(test_vm.run_once(), Ok(true));
    assert_eq!(test_vm.pc, 8);
}

#[test]
fn test_mul_wraps() {
    let mut test_vm = VM::new();
    // 65535 * 65535 = 4294836225 wraps to -131071 in 32-bit signed arithmetic.
    let instrs = vec![
        Instruction::new(Opcode::LOAD, 0, 255, 255),
        Instruction::new(Opcode::LOAD, 1, 255, 255),
        Instruction::new(Opcode::MUL, 0, 1, 2),
    ];
    test_vm.program = instructions_to_bytes(instrs);
    let result = test_vm.run();
    assert_eq!(result, Ok(true));
    assert_eq!(test_vm.registers[2], -131071);
}

#[test]
fn test_sub_goes_negative() {
    let mut test_vm = VM::new();
    let instrs = vec![
        Instruction::new(Opcode::LOAD, 1, 0, 1),
        Instruction::new(Opcode::SUB, 0, 1, 2),
    ];
    test_vm.program = instructions_to_bytes(instrs);
    let result = test_vm.run();
    assert_eq!(result, Ok(true));
    assert_eq!(test_vm.registers[2], -1);
}

#[test]
fn test_illegal_opcode_after_work() {
    let mut test_vm = VM::new();
    // The first instruction executes; the unknown byte 9 then fails the run
    // with the machine left on it.
    let instrs = vec![Instruction::new(Opcode::LOAD, 0, 0, 3)];
    let mut bytes = instructions_to_bytes(instrs);
    bytes.push(9);
    test_vm.program = bytes;
    let result = test_vm.run();
    assert_eq!(result, Err(VmError::IllegalOpcode(9)));
    assert_eq!(test_vm.registers[0], 3);
    assert_eq!(test_vm.pc, 4);
}
