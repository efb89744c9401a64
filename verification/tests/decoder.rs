use y_cpu::Instruction;

// Byte 0 layout: [halt:1][debug:1][arg1_signed:1][arg2_signed:1][opcode:4];
// bytes 1 and 2 are the raw operand addresses.
#[test]
fn decode_flag_bits() {
    let inst = Instruction::from_3bytes([0b1011_0100, 7, 9]);
    assert!(matches!(inst, Instruction::Add(true, false, true, true, 7, 9)));
    let inst = Instruction::from_3bytes([0b0100_0001, 1, 2]);
    assert!(matches!(inst, Instruction::And(false, true, false, false, 1, 2)));
}

#[test]
fn decode_all_opcodes() {
    let mk = |op: u8| Instruction::from_3bytes([op, 10, 20]);
    assert!(matches!(mk(0), Instruction::NoOp(false, false, false, false)));
    assert!(matches!(mk(1), Instruction::And(_, _, _, _, 10, 20)));
    assert!(matches!(mk(2), Instruction::Or(_, _, _, _, 10, 20)));
    assert!(matches!(mk(3), Instruction::Not(_, _, _, _, 10)));
    assert!(matches!(mk(4), Instruction::Add(_, _, _, _, 10, 20)));
    assert!(matches!(mk(5), Instruction::Sub(_, _, _, _, 10, 20)));
    assert!(matches!(mk(6), Instruction::Mul(_, _, _, _, 10, 20)));
    assert!(matches!(mk(7), Instruction::Div(_, _, _, _, 10, 20)));
    assert!(matches!(mk(8), Instruction::SL(_, _, _, _, 10)));
    assert!(matches!(mk(9), Instruction::SR(_, _, _, _, 10)));
    assert!(matches!(mk(10), Instruction::RL(_, _, _, _, 10)));
    assert!(matches!(mk(11), Instruction::RR(_, _, _, _, 10)));
    assert!(matches!(mk(12), Instruction::Copy(_, _, _, _, 10, 20)));
    assert!(matches!(mk(13), Instruction::CompEq(_, _, _, _, 10, 20)));
    assert!(matches!(mk(14), Instruction::CompGt(_, _, _, _, 10, 20)));
    assert!(matches!(mk(15), Instruction::CompLt(_, _, _, _, 10, 20)));
}

// Decoding is a pure byte transform: flags do not leak into the opcode.
#[test]
fn decode_ignores_flag_bits_for_opcode() {
    let inst = Instruction::from_3bytes([0xF0, 0, 0]);
    assert!(matches!(inst, Instruction::NoOp(true, true, true, true)));
    let inst = Instruction::from_3bytes([0xFF, 1, 2]);
    assert!(matches!(inst, Instruction::CompLt(true, true, true, true, 1, 2)));
}
