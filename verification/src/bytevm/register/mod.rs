//! The registers of the byte-code machine.
pub mod instruction;
pub mod pc;

use vstd::prelude::*;

verus! {

/// The registers.
#[derive(Debug, Clone, Copy, PartialEq, Eq, Structural)]
pub enum Register {
    Zero,
    R1,
    R2,
    R3,
    R4,
    R5,
    R6,
    /// Stack Pointer
    SP,
    /// Base Pointer
    BP,
    /// Return Address
    RA,
}

/// The register of each number: 7 is the base pointer, 8 the stack pointer; numbers past the
/// last register give `Zero`.
pub open spec fn spec_register_of(v: u32) -> Register {
    if v == 1 {
        Register::R1
    } else if v == 2 {
        Register::R2
    } else if v == 3 {
        Register::R3
    } else if v == 4 {
        Register::R4
    } else if v == 5 {
        Register::R5
    } else if v == 6 {
        Register::R6
    } else if v == 7 {
        Register::BP
    } else if v == 8 {
        Register::SP
    } else if v == 9 {
        Register::RA
    } else {
        Register::Zero
    }
}

impl Register {
    /// Number of registers.
    pub fn count() -> (r: usize)
        ensures
            r == 10,
    {
        10
    }

    /// The position of the register, in declaration order.
    pub open spec fn spec_index(self) -> usize {
        match self {
            Register::Zero => 0,
            Register::R1 => 1,
            Register::R2 => 2,
            Register::R3 => 3,
            Register::R4 => 4,
            Register::R5 => 5,
            Register::R6 => 6,
            Register::SP => 7,
            Register::BP => 8,
            Register::RA => 9,
        }
    }

    /// The position of the register.
    pub fn index(&self) -> (r: usize)
        ensures
            r == self.spec_index(),
    {
        *self as usize
    }

    /// The register of a number; see `spec_register_of`.
    pub fn from_u32(value: u32) -> (r: Register)
        ensures
            r == spec_register_of(value),
    {
        match value {
            1 => Register::R1,
            2 => Register::R2,
            3 => Register::R3,
            4 => Register::R4,
            5 => Register::R5,
            6 => Register::R6,
            7 => Register::BP,
            8 => Register::SP,
            9 => Register::RA,
            _ => Register::Zero,
        }
    }
}

} // verus!
