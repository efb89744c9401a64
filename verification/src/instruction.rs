use vstd::prelude::*;

verus! {

/// A decoded 3-byte instruction. Every variant carries the four flag bits of
/// byte 0 in order: `halt_on_error`, `store_debug_info`, `arg1_signed`,
/// `arg2_signed`. The trailing `u8` fields are the raw operand addresses from
/// bytes 1 and 2, not yet resolved through the address space.
///
/// `halt_on_error` and `store_debug_info` are decoded but not consulted by
/// execution: they are reserved for a future error/trace policy.
#[derive(Clone, Copy, Debug, PartialEq, Eq, Structural)]
pub enum Instruction {
    NoOp(bool, bool, bool, bool),
    And(bool, bool, bool, bool, u8, u8),
    Or(bool, bool, bool, bool, u8, u8),
    Not(bool, bool, bool, bool, u8),
    Add(bool, bool, bool, bool, u8, u8),
    Sub(bool, bool, bool, bool, u8, u8),
    Mul(bool, bool, bool, bool, u8, u8),
    Div(bool, bool, bool, bool, u8, u8),
    SL(bool, bool, bool, bool, u8),
    SR(bool, bool, bool, bool, u8),
    RL(bool, bool, bool, bool, u8),
    RR(bool, bool, bool, bool, u8),
    Copy(bool, bool, bool, bool, u8, u8),
    CompEq(bool, bool, bool, bool, u8, u8),
    CompGt(bool, bool, bool, bool, u8, u8),
    CompLt(bool, bool, bool, bool, u8, u8),
}

/// What a 3-byte window decodes to. Byte 0 is
/// `[halt_on_error:1][store_debug_info:1][arg1_signed:1][arg2_signed:1][opcode:4]`;
/// bytes 1 and 2 are the raw operand addresses.
pub open spec fn spec_decode(b0: u8, b1: u8, b2: u8) -> Instruction {
    let halt = b0 & 0x80 == 0x80;
    let debug = b0 & 0x40 == 0x40;
    let s1 = b0 & 0x20 == 0x20;
    let s2 = b0 & 0x10 == 0x10;
    let opcode = b0 & 0x0f;
    if opcode == 0 {
        Instruction::NoOp(halt, debug, s1, s2)
    } else if opcode == 1 {
        Instruction::And(halt, debug, s1, s2, b1, b2)
    } else if opcode == 2 {
        Instruction::Or(halt, debug, s1, s2, b1, b2)
    } else if opcode == 3 {
        Instruction::Not(halt, debug, s1, s2, b1)
    } else if opcode == 4 {
        Instruction::Add(halt, debug, s1, s2, b1, b2)
    } else if opcode == 5 {
        Instruction::Sub(halt, debug, s1, s2, b1, b2)
    } else if opcode == 6 {
        Instruction::Mul(halt, debug, s1, s2, b1, b2)
    } else if opcode == 7 {
        Instruction::Div(halt, debug, s1, s2, b1, b2)
    } else if opcode == 8 {
        Instruction::SL(halt, debug, s1, s2, b1)
    } else if opcode == 9 {
        Instruction::SR(halt, debug, s1, s2, b1)
    } else if opcode == 10 {
        Instruction::RL(halt, debug, s1, s2, b1)
    } else if opcode == 11 {
        Instruction::RR(halt, debug, s1, s2, b1)
    } else if opcode == 12 {
        Instruction::Copy(halt, debug, s1, s2, b1, b2)
    } else if opcode == 13 {
        Instruction::CompEq(halt, debug, s1, s2, b1, b2)
    } else if opcode == 14 {
        Instruction::CompGt(halt, debug, s1, s2, b1, b2)
    } else {
        Instruction::CompLt(halt, debug, s1, s2, b1, b2)
    }
}

impl Instruction {
    /// Decodes a 3-byte window. Total: the 4-bit opcode space is fully
    /// assigned, so decoding never fails and never touches memory.
    pub fn from_3bytes(bytes: [u8; 3]) -> (r: Instruction)
        ensures
            r == spec_decode(bytes[0], bytes[1], bytes[2]),
    {
        let b0 = bytes[0];
        let opcode = b0 & 0x0f;
        let halt = b0 & 0x80 == 0x80;
        let debug = b0 & 0x40 == 0x40;
        let s1 = b0 & 0x20 == 0x20;
        let s2 = b0 & 0x10 == 0x10;
        let arg1 = bytes[1];
        let arg2 = bytes[2];
        proof {
            assert(b0 & 0x0f < 16) by (bit_vector);
        }
        match opcode {
            0 => Instruction::NoOp(halt, debug, s1, s2),
            1 => Instruction::And(halt, debug, s1, s2, arg1, arg2),
            2 => Instruction::Or(halt, debug, s1, s2, arg1, arg2),
            3 => Instruction::Not(halt, debug, s1, s2, arg1),
            4 => Instruction::Add(halt, debug, s1, s2, arg1, arg2),
            5 => Instruction::Sub(halt, debug, s1, s2, arg1, arg2),
            6 => Instruction::Mul(halt, debug, s1, s2, arg1, arg2),
            7 => Instruction::Div(halt, debug, s1, s2, arg1, arg2),
            8 => Instruction::SL(halt, debug, s1, s2, arg1),
            9 => Instruction::SR(halt, debug, s1, s2, arg1),
            10 => Instruction::RL(halt, debug, s1, s2, arg1),
            11 => Instruction::RR(halt, debug, s1, s2, arg1),
            12 => Instruction::Copy(halt, debug, s1, s2, arg1, arg2),
            13 => Instruction::CompEq(halt, debug, s1, s2, arg1, arg2),
            14 => Instruction::CompGt(halt, debug, s1, s2, arg1, arg2),
            _ => Instruction::CompLt(halt, debug, s1, s2, arg1, arg2),
        }
    }

    /// The address of this instruction's first operand load, if it loads at
    /// all. Loads happen in operand order: first operand before second.
    pub open spec fn src1(self) -> Option<u8> {
        match self {
            Instruction::NoOp(..) => None,
            Instruction::And(_, _, _, _, a1, _) => Some(a1),
            Instruction::Or(_, _, _, _, a1, _) => Some(a1),
            Instruction::Not(_, _, _, _, a1) => Some(a1),
            Instruction::Add(_, _, _, _, a1, _) => Some(a1),
            Instruction::Sub(_, _, _, _, a1, _) => Some(a1),
            Instruction::Mul(_, _, _, _, a1, _) => Some(a1),
            Instruction::Div(_, _, _, _, a1, _) => Some(a1),
            Instruction::SL(_, _, _, _, a1) => Some(a1),
            Instruction::SR(_, _, _, _, a1) => Some(a1),
            Instruction::RL(_, _, _, _, a1) => Some(a1),
            Instruction::RR(_, _, _, _, a1) => Some(a1),
            Instruction::Copy(_, _, _, _, a1, _) => Some(a1),
            Instruction::CompEq(_, _, _, _, a1, _) => Some(a1),
            Instruction::CompGt(_, _, _, _, a1, _) => Some(a1),
            Instruction::CompLt(_, _, _, _, a1, _) => Some(a1),
        }
    }

    /// The address of this instruction's second operand load, if any.
    pub open spec fn src2(self) -> Option<u8> {
        match self {
            Instruction::NoOp(..) => None,
            Instruction::And(_, _, _, _, _, a2) => Some(a2),
            Instruction::Or(_, _, _, _, _, a2) => Some(a2),
            Instruction::Not(..) => None,
            Instruction::Add(_, _, _, _, _, a2) => Some(a2),
            Instruction::Sub(_, _, _, _, _, a2) => Some(a2),
            Instruction::Mul(_, _, _, _, _, a2) => Some(a2),
            Instruction::Div(_, _, _, _, _, a2) => Some(a2),
            Instruction::SL(..) => None,
            Instruction::SR(..) => None,
            Instruction::RL(..) => None,
            Instruction::RR(..) => None,
            Instruction::Copy(..) => None,
            Instruction::CompEq(_, _, _, _, _, a2) => Some(a2),
            Instruction::CompGt(_, _, _, _, _, a2) => Some(a2),
            Instruction::CompLt(_, _, _, _, _, a2) => Some(a2),
        }
    }

    /// The address this instruction writes its result to, if any.
    /// `Copy` is the one instruction whose destination is the second operand.
    pub open spec fn store_addr(self) -> Option<u8> {
        match self {
            Instruction::NoOp(..) => None,
            Instruction::And(_, _, _, _, a1, _) => Some(a1),
            Instruction::Or(_, _, _, _, a1, _) => Some(a1),
            Instruction::Not(_, _, _, _, a1) => Some(a1),
            Instruction::Add(_, _, _, _, a1, _) => Some(a1),
            Instruction::Sub(_, _, _, _, a1, _) => Some(a1),
            Instruction::Mul(_, _, _, _, a1, _) => Some(a1),
            Instruction::Div(_, _, _, _, a1, _) => Some(a1),
            Instruction::SL(_, _, _, _, a1) => Some(a1),
            Instruction::SR(_, _, _, _, a1) => Some(a1),
            Instruction::RL(_, _, _, _, a1) => Some(a1),
            Instruction::RR(_, _, _, _, a1) => Some(a1),
            Instruction::Copy(_, _, _, _, _, a2) => Some(a2),
            Instruction::CompEq(..) => None,
            Instruction::CompGt(..) => None,
            Instruction::CompLt(..) => None,
        }
    }
}

} // verus!
