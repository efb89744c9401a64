use y_cpu::{Banker, Device, EchoDevice, Fault, Halted, CPU};

fn blank_cpu() -> CPU {
    CPU::new([0u8; 127], Vec::new()).unwrap()
}

fn cpu_with_image(image: [u8; 127]) -> CPU {
    CPU::new(image, Vec::new()).unwrap()
}

// Instruction-bank round-trip: push then load returns the stored byte for
// every address 1..=126 (address 127 faults: it lies one past the last
// instruction-bank offset the address space can reach).
#[test]
fn instruction_bank_round_trip() {
    let mut cpu = blank_cpu();
    for a in 1u8..=126 {
        let v = a.wrapping_mul(37).wrapping_add(11);
        cpu.push(a, v).unwrap();
        assert_eq!(cpu.load(a).unwrap(), v);
    }
    assert_eq!(cpu.push(127, 5), Err(Fault::AddressFault(127)));
    assert_eq!(cpu.load(127), Err(Fault::AddressFault(127)));
}

// Data-bank round-trip for every address 128..=191.
#[test]
fn data_bank_round_trip() {
    let mut cpu = blank_cpu();
    for a in 128u8..=191 {
        let v = a.wrapping_mul(59).wrapping_add(3);
        cpu.push(a, v).unwrap();
        assert_eq!(cpu.load(a).unwrap(), v);
    }
}

// Bank isolation: a value written while bank p1 is active survives switching
// to p2, writing there, and switching back to p1.
#[test]
fn instruction_bank_isolation() {
    let mut cpu = blank_cpu();
    cpu.push(192, 7).unwrap(); // instruction-bank pointer := 7
    cpu.push(20, 0xAB).unwrap();
    cpu.push(192, 9).unwrap();
    cpu.push(20, 0x55).unwrap();
    cpu.push(192, 7).unwrap();
    assert_eq!(cpu.load(20).unwrap(), 0xAB);
    assert_eq!(cpu.load(192).unwrap(), 7);
}

#[test]
fn data_bank_isolation() {
    let mut cpu = blank_cpu();
    cpu.push(193, 1).unwrap();
    cpu.push(130, 0x42).unwrap();
    cpu.push(193, 2).unwrap();
    cpu.push(130, 0x99).unwrap();
    cpu.push(193, 1).unwrap();
    assert_eq!(cpu.load(130).unwrap(), 0x42);
    assert_eq!(cpu.load(193).unwrap(), 1);
}

#[test]
fn banker_direct_round_trip() {
    let mut b = Banker::new(vec![0u8; 64]);
    b.write(10, 0x5A);
    assert_eq!(b.read(10), 0x5A);
    b.set_pointer(200);
    assert_eq!(b.read(10), 0);
    b.set_pointer(0);
    assert_eq!(b.read(10), 0x5A);
    assert_eq!(b.get_pointer(), 0);
}

// Register zero is address 0 of the unified space.
#[test]
fn register_zero_is_address_zero() {
    let mut cpu = blank_cpu();
    cpu.push(0, 42).unwrap();
    assert_eq!(cpu.reg_zero, 42);
    assert_eq!(cpu.load(0).unwrap(), 42);
}

fn run_one(image: [u8; 127]) -> CPU {
    let mut cpu = cpu_with_image(image);
    assert!(matches!(cpu.tick(), Ok(Halted::Running)));
    cpu
}

// And(0xF0, 0x0F) == 0x00: result stored at the first operand's address.
#[test]
fn and_instruction() {
    let mut image = [0u8; 127];
    image[0] = 0x01; // And, no flags
    image[1] = 4;
    image[2] = 5;
    image[4] = 0xF0;
    image[5] = 0x0F;
    let mut cpu = run_one(image);
    assert_eq!(cpu.load(4).unwrap(), 0x00);
    assert_eq!(cpu.load(5).unwrap(), 0x0F);
    assert_eq!(cpu.reg_zero, 3);
}

// Or(0xF0, 0x0F) == 0xFF.
#[test]
fn or_instruction() {
    let mut image = [0u8; 127];
    image[0] = 0x02; // Or
    image[1] = 4;
    image[2] = 5;
    image[4] = 0xF0;
    image[5] = 0x0F;
    let mut cpu = run_one(image);
    assert_eq!(cpu.load(4).unwrap(), 0xFF);
}

// Not(0x00) == 0xFF.
#[test]
fn not_instruction() {
    let mut image = [0u8; 127];
    image[0] = 0x03; // Not
    image[1] = 4;
    image[4] = 0x00;
    let mut cpu = run_one(image);
    assert_eq!(cpu.load(4).unwrap(), 0xFF);
}

// Unsigned Add(250, 10) == 4: 8-bit wrapping.
#[test]
fn add_unsigned_wraps() {
    let mut image = [0u8; 127];
    image[0] = 0x04; // Add, both unsigned
    image[1] = 4;
    image[2] = 5;
    image[4] = 250;
    image[5] = 10;
    let mut cpu = run_one(image);
    assert_eq!(cpu.load(4).unwrap(), 4);
}

// Signed Add(-1, -1) == -2: byte pattern 0xFF + 0xFF -> 0xFE.
#[test]
fn add_signed_wraps() {
    let mut image = [0u8; 127];
    image[0] = 0x34; // Add, arg1_signed | arg2_signed
    image[1] = 4;
    image[2] = 5;
    image[4] = 0xFF;
    image[5] = 0xFF;
    let mut cpu = run_one(image);
    assert_eq!(cpu.load(4).unwrap(), 0xFE);
}

#[test]
fn sub_unsigned() {
    let mut image = [0u8; 127];
    image[0] = 0x05; // Sub
    image[1] = 4;
    image[2] = 5;
    image[4] = 3;
    image[5] = 10;
    let mut cpu = run_one(image);
    assert_eq!(cpu.load(4).unwrap(), 0xF9); // 3 - 10 wraps to 249
}

#[test]
fn mul_signed_by_unsigned() {
    let mut image = [0u8; 127];
    image[0] = 0x26; // Mul, arg1_signed
    image[1] = 4;
    image[2] = 5;
    image[4] = 0xFE; // -2
    image[5] = 3;
    let mut cpu = run_one(image);
    assert_eq!(cpu.load(4).unwrap(), 0xFA); // -6
}

#[test]
fn div_unsigned() {
    let mut image = [0u8; 127];
    image[0] = 0x07; // Div
    image[1] = 4;
    image[2] = 5;
    image[4] = 90;
    image[5] = 7;
    let mut cpu = run_one(image);
    assert_eq!(cpu.load(4).unwrap(), 12);
}

// Signed division truncates toward zero: -7 / 2 == -3 (0xFD).
#[test]
fn div_signed_truncates_toward_zero() {
    let mut image = [0u8; 127];
    image[0] = 0x27; // Div, arg1_signed
    image[1] = 4;
    image[2] = 5;
    image[4] = 0xF9; // -7
    image[5] = 2;
    let mut cpu = run_one(image);
    assert_eq!(cpu.load(4).unwrap(), 0xFD);
}

// Division by zero faults and leaves the machine untouched.
#[test]
fn div_by_zero_faults() {
    let mut image = [0u8; 127];
    image[0] = 0x07; // Div
    image[1] = 4;
    image[2] = 5;
    image[4] = 90;
    image[5] = 0;
    let mut cpu = cpu_with_image(image);
    assert_eq!(cpu.tick(), Err(Fault::DivideByZero));
    assert_eq!(cpu.reg_zero, 0);
    assert_eq!(cpu.load(4).unwrap(), 90);
}

#[test]
fn shifts_and_rotates() {
    for (op, input, expect) in [
        (0x08u8, 0x81u8, 0x02u8), // SL: logical, high bit lost
        (0x09, 0x81, 0x40),       // SR: logical, sign not preserved
        (0x0A, 0x81, 0x03),       // RL
        (0x0B, 0x81, 0xC0),       // RR
    ] {
        let mut image = [0u8; 127];
        image[0] = op;
        image[1] = 4;
        image[4] = input;
        let mut cpu = run_one(image);
        assert_eq!(cpu.load(4).unwrap(), expect, "opcode {op:#x}");
    }
}

// CompEq with equal operands does not skip (advance 3); with unequal
// operands it skips the next instruction (advance 6).
#[test]
fn comp_eq_advance() {
    let mut image = [0u8; 127];
    image[0] = 0x0D; // CompEq
    image[1] = 4;
    image[2] = 5;
    image[4] = 9;
    image[5] = 9;
    let cpu = run_one(image);
    assert_eq!(cpu.reg_zero, 3);

    image[5] = 8;
    let cpu = run_one(image);
    assert_eq!(cpu.reg_zero, 6);
}

// CompGt skips when data1 <= data2; CompLt skips when data1 >= data2.
#[test]
fn comp_gt_lt_advance() {
    let mut image = [0u8; 127];
    image[0] = 0x0E; // CompGt
    image[1] = 4;
    image[2] = 5;
    image[4] = 9;
    image[5] = 9;
    let cpu = run_one(image);
    assert_eq!(cpu.reg_zero, 6); // 9 <= 9: skip

    image[4] = 10;
    let cpu = run_one(image);
    assert_eq!(cpu.reg_zero, 3); // 10 > 9: no skip

    image[0] = 0x0F; // CompLt
    let cpu = run_one(image);
    assert_eq!(cpu.reg_zero, 6); // 10 >= 9: skip
}

// Copy from address 5 to address 0 sets register zero to the value at
// address 5; the tick's own +3 advance applies on top of the copied value.
#[test]
fn copy_into_register_zero_composes_with_advance() {
    let mut image = [0u8; 127];
    image[0] = 0x0C; // Copy
    image[1] = 5;
    image[2] = 0;
    image[5] = 0x10;
    let cpu = run_one(image);
    assert_eq!(cpu.reg_zero, 0x13);
}

// End-to-end: one And instruction over two instruction-memory cells, then a
// NoOp; after one tick the destination cell holds 0xAA & 0x0F == 0x0A and
// the program pointer sits at the next instruction.
#[test]
fn end_to_end_and_then_noop() {
    let mut image = [0u8; 127];
    image[0] = 0x01; // And
    image[1] = 4;
    image[2] = 5;
    image[3] = 0x00; // NoOp
    image[4] = 0xAA;
    image[5] = 0x0F;
    let mut cpu = cpu_with_image(image);
    assert!(matches!(cpu.tick(), Ok(Halted::Running)));
    assert_eq!(cpu.load(4).unwrap(), 0x0A);
    assert_eq!(cpu.reg_zero, 3);
    assert!(matches!(cpu.tick(), Ok(Halted::Running)));
    assert_eq!(cpu.reg_zero, 6);
}

#[test]
fn noop_only_advances() {
    let cpu = run_one([0u8; 127]);
    assert_eq!(cpu.reg_zero, 3);
}

// A Copy of 0xFF into register zero wraps under the tick's +3 advance.
#[test]
fn copy_wraps_program_pointer() {
    let mut image = [0u8; 127];
    image[0] = 0x0C; // Copy
    image[1] = 5;
    image[2] = 0;
    image[5] = 0xFF;
    let cpu = run_one(image);
    assert_eq!(cpu.reg_zero, 2);
}

// fetch decodes the 3-byte window at the program pointer without executing.
#[test]
fn fetch_decodes_window() {
    let mut image = [0u8; 127];
    image[0] = 0x34; // Add, both operands signed
    image[1] = 7;
    image[2] = 9;
    let cpu = cpu_with_image(image);
    let inst = cpu.fetch();
    assert!(matches!(
        inst,
        y_cpu::Instruction::Add(false, false, true, true, 7, 9)
    ));
    assert_eq!(cpu.reg_zero, 0);
}

// process executes an already-decoded instruction directly.
#[test]
fn process_executes_decoded_instruction() {
    let mut cpu = blank_cpu();
    cpu.push(130, 21).unwrap();
    cpu.push(131, 2).unwrap();
    let r = cpu.process(y_cpu::Instruction::Mul(false, false, false, false, 130, 131));
    assert!(matches!(r, Ok(Halted::Running)));
    assert_eq!(cpu.load(130).unwrap(), 42);
    assert_eq!(cpu.reg_zero, 3);
}

// Signed Div(-128, -1) wraps to -128 (0x80): 8-bit arithmetic, no overflow
// check.
#[test]
fn div_signed_overflow_wraps() {
    let mut image = [0u8; 127];
    image[0] = 0x37; // Div, both operands signed
    image[1] = 4;
    image[2] = 5;
    image[4] = 0x80; // -128
    image[5] = 0xFF; // -1
    let mut cpu = run_one(image);
    assert_eq!(cpu.load(4).unwrap(), 0x80);
}
