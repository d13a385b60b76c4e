//! The registers of the first instruction set: general registers and pointers.
pub mod instruction;

use vstd::prelude::*;

verus! {

/// The registers.
#[derive(Debug, Clone, Copy, PartialEq, Eq, Structural)]
pub enum Register {
    Zero,
    X1,
    X2,
    X3,
    X4,
    X5,
    X6,
    /// Stack Pointer
    SP,
    /// Base Pointer
    BP,
    /// Return Address
    RA,
}

/// The register of each number: 7 is the base pointer, 8 the stack pointer; numbers past the
/// last register give `Zero`.
pub open spec fn spec_register_of(v: u32) -> Register {
    if v == 1 {
        Register::X1
    } else if v == 2 {
        Register::X2
    } else if v == 3 {
        Register::X3
    } else if v == 4 {
        Register::X4
    } else if v == 5 {
        Register::X5
    } else if v == 6 {
        Register::X6
    } else if v == 7 {
        Register::BP
    } else if v == 8 {
        Register::SP
    } else if v == 9 {
        Register::RA
    } else {
        Register::Zero
    }
}

impl Register {
    /// The position of the register, in declaration order.
    pub open spec fn spec_index(self) -> u32 {
        match self {
            Register::Zero => 0,
            Register::X1 => 1,
            Register::X2 => 2,
            Register::X3 => 3,
            Register::X4 => 4,
            Register::X5 => 5,
            Register::X6 => 6,
            Register::SP => 7,
            Register::BP => 8,
            Register::RA => 9,
        }
    }

    /// `position & rhs`.
    pub fn bitand(self, rhs: u32) -> (r: u32)
        ensures
            r == self.spec_index() & rhs,
    {
        self as u32 & rhs
    }

    /// The register of a number; see `spec_register_of`.
    pub fn from_u32(value: u32) -> (r: Register)
        ensures
            r == spec_register_of(value),
    {
        match value {
            1 => Register::X1,
            2 => Register::X2,
            3 => Register::X3,
            4 => Register::X4,
            5 => Register::X5,
            6 => Register::X6,
            7 => Register::BP,
            8 => Register::SP,
            9 => Register::RA,
            _ => Register::Zero,
        }
    }

    /// The register of a byte; see `spec_register_of`.
    pub fn from_u8(value: u8) -> (r: Register)
        ensures
            r == spec_register_of(value as u32),
    {
        Self::from_u32(value as u32)
    }

    /// The register of a 16-bit number; see `spec_register_of`.
    pub fn from_u16(value: u16) -> (r: Register)
        ensures
            r == spec_register_of(value as u32),
    {
        Self::from_u32(value as u32)
    }
}

/// The address of the next instruction; instructions are four bytes.
#[derive(Debug, Clone, Copy, PartialEq, Eq)]
pub struct ProgramCounter(pub usize);

impl ProgramCounter {
    /// At address 0.
    pub fn new() -> (r: ProgramCounter)
        ensures
            r.0 == 0,
    {
        ProgramCounter(0)
    }

    /// Move to the next instruction.
    pub fn increment(&mut self)
        requires
            old(self).0 + 4 <= usize::MAX,
        ensures
            final(self).0 == old(self).0 + 4,
    {
        self.0 = self.0 + 4;
    }

    /// The address.
    pub fn value(&self) -> (r: usize)
        ensures
            r == self.0,
    {
        self.0
    }
}

} // verus!
