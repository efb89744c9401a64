//! A simulator for a minimal 8-bit processor: 3-byte instructions fetched
//! from a banked instruction store, a 4-bit opcode with per-operand sign
//! flags, and a unified 8-bit address space covering a register, banked
//! instruction memory, banked data memory, two bank-pointer pseudo-registers,
//! and memory-mapped external devices.

use vstd::prelude::*;

pub use crate::banker::Banker;
pub use crate::cpu::{Device, CPU};
pub use crate::devices::{CounterDevice, EchoDevice};
pub use crate::instruction::Instruction;

pub mod alu;
pub mod banker;
pub mod cpu;
pub mod devices;
pub mod instruction;

verus! {

/// Outcome of one executed instruction. `Errored` and `Halted` are reserved:
/// no current opcode produces them.
#[derive(Clone, Copy, Debug, PartialEq, Eq, Structural)]
pub enum Halted {
    Running,
    Errored,
    Halted,
}

/// A runtime fault, local to the instruction that raised it.
///
/// `AddressFault(a)` names the unified address that could not be served:
/// address 127 (one past the last instruction-bank offset reachable through
/// the address space) or a device address in `194..=255` whose slot holds no
/// device. `DivideByZero` is the documented policy for a `Div` whose divisor
/// byte is zero: the instruction faults and leaves the machine unchanged.
#[derive(Clone, Copy, Debug, PartialEq, Eq, Structural)]
pub enum Fault {
    AddressFault(u8),
    DivideByZero,
}

/// A construction-time fault: a device declared an address outside
/// `194..=255`, or two devices declared the same address.
#[derive(Clone, Copy, Debug, PartialEq, Eq, Structural)]
pub enum DeviceError {
    AddressOutOfRange(u8),
    DuplicateAddress(u8),
}

} // verus!
