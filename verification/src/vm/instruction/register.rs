//! The registers by their calling-convention names, and a program counter.
use vstd::prelude::*;

use crate::isa::instruction::Codec;
use crate::shared::EnumCount;

verus! {

/// The registers, by their role in the calling convention.
#[derive(Debug, PartialEq, Eq, Clone, Copy, Structural)]
pub enum Register {
    Zero,
    RA,
    SP,
    GP,
    TP,
    /// temporary values
    T0,
    T1,
    T2,
    T3,
    /// saved values
    S0,
    S1,
    S2,
    S3,
    /// argument registers (function arguments and return values)
    A0,
    A1,
    A2,
    A3,
    /// the system call number
    A7,
}

impl EnumCount for Register {
    const VARIANT_COUNT: usize = 18;
}

/// The register of each number; numbers past the last register give `Zero`.
pub open spec fn spec_abi_register(v: u32) -> Register {
    if v == 1 {
        Register::RA
    } else if v == 2 {
        Register::SP
    } else if v == 3 {
        Register::GP
    } else if v == 4 {
        Register::TP
    } else if v == 5 {
        Register::T0
    } else if v == 6 {
        Register::T1
    } else if v == 7 {
        Register::T2
    } else if v == 8 {
        Register::T3
    } else if v == 9 {
        Register::S0
    } else if v == 10 {
        Register::S1
    } else if v == 11 {
        Register::S2
    } else if v == 12 {
        Register::S3
    } else if v == 13 {
        Register::A0
    } else if v == 14 {
        Register::A1
    } else if v == 15 {
        Register::A2
    } else if v == 16 {
        Register::A3
    } else if v == 17 {
        Register::A7
    } else {
        Register::Zero
    }
}

impl Register {
    /// The number of the register, in declaration order.
    pub open spec fn spec_index(self) -> u32 {
        match self {
            Register::Zero => 0,
            Register::RA => 1,
            Register::SP => 2,
            Register::GP => 3,
            Register::TP => 4,
            Register::T0 => 5,
            Register::T1 => 6,
            Register::T2 => 7,
            Register::T3 => 8,
            Register::S0 => 9,
            Register::S1 => 10,
            Register::S2 => 11,
            Register::S3 => 12,
            Register::A0 => 13,
            Register::A1 => 14,
            Register::A2 => 15,
            Register::A3 => 16,
            Register::A7 => 17,
        }
    }

    /// The number of the register.
    pub fn index(&self) -> (r: u32)
        ensures
            r == self.spec_index(),
    {
        *self as u32
    }

    /// The register of a number; numbers past the last register give `Zero`.
    pub fn from_u32(value: u32) -> (r: Register)
        ensures
            r == spec_abi_register(value),
    {
        match value {
            1 => Register::RA,
            2 => Register::SP,
            3 => Register::GP,
            4 => Register::TP,
            5 => Register::T0,
            6 => Register::T1,
            7 => Register::T2,
            8 => Register::T3,
            9 => Register::S0,
            10 => Register::S1,
            11 => Register::S2,
            12 => Register::S3,
            13 => Register::A0,
            14 => Register::A1,
            15 => Register::A2,
            16 => Register::A3,
            17 => Register::A7,
            _ => Register::Zero,
        }
    }

    /// The register of a byte; see `from_u32`.
    pub fn from_u8(value: u8) -> (r: Register)
        ensures
            r == spec_abi_register(value as u32),
    {
        Self::from_u32(value as u32)
    }

    /// `index & rhs`.
    pub fn bitand(&self, rhs: u32) -> (r: u32)
        ensures
            r == self.spec_index() & rhs,
    {
        self.index() & rhs
    }

    /// `index << rhs`.
    pub fn shl(&self, rhs: u32) -> (r: u32)
        requires
            rhs < 32,
        ensures
            r == self.spec_index() << rhs,
    {
        self.index() << rhs
    }

    /// `index >> rhs`.
    pub fn shr(&self, rhs: u32) -> (r: u32)
        requires
            rhs < 32,
        ensures
            r == self.spec_index() >> rhs,
    {
        self.index() >> rhs
    }
}

/// A register and its number agree both ways.
pub proof fn lemma_abi_register_roundtrip(r: Register)
    ensures
        spec_abi_register(r.spec_index()) == r,
        r.spec_index() < 18,
{
}

impl Codec for Register {
    /// Field of an instruction word: `(index & bit_mask) << bit_accumulation`.
    fn encode(&self, bit_mask: u32, bit_accumulation: u32) -> (r: u32)
        ensures
            r == (self.spec_index() & bit_mask) << bit_accumulation,
    {
        (*self as u32 & bit_mask) << bit_accumulation
    }

    /// The register held in the field of `src` that starts at `bit_accumulation` and is
    /// `bit_mask` wide.
    fn decode(src: u32, bit_accumulation: u32, bit_mask: u32) -> (r: Register)
        ensures
            r == spec_abi_register((src >> bit_accumulation) & bit_mask),
    {
        Register::from_u32((src >> bit_accumulation) & bit_mask)
    }
}

/// The address of the next instruction; instructions are four bytes.
#[derive(Debug, Clone, Copy, PartialEq, Eq)]
pub struct ProgramCounter(pub u32);

impl ProgramCounter {
    /// At address 0.
    pub fn new() -> (r: ProgramCounter)
        ensures
            r.0 == 0,
    {
        ProgramCounter(0)
    }

    /// Move to the next instruction.
    pub fn increment(&mut self)
        requires
            old(self).0 + 4 <= u32::MAX,
        ensures
            final(self).0 == old(self).0 + 4,
    {
        self.0 = self.0 + 4;
    }

    /// The address.
    pub fn value(&self) -> (r: u32)
        ensures
            r == self.0,
    {
        self.0
    }

    /// Back to address 0.
    pub fn reset(&mut self)
        ensures
            final(self).0 == 0,
    {
        self.0 = 0;
    }
}

} // verus!
