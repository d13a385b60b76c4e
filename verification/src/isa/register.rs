//! The thirty-two general purpose registers.
use vstd::prelude::*;

use crate::isa::instruction::Codec;
use crate::shared::{EnumCount, EnumVariants};

verus! {

#[derive(Debug, PartialEq, Eq, Clone, Copy, Structural)]
pub enum Register {
    /// Zero
    X0,
    /// Return address
    X1,
    /// Stack pointer
    X2,
    /// Global pointer
    X3,
    /// Thread pointer
    X4,
    /// Temporary, alternate return address
    X5,
    X6,
    X7,
    /// Saved, frame pointer
    X8,
    X9,
    /// Argument, return value
    X10,
    X11,
    X12,
    X13,
    X14,
    X15,
    X16,
    X17,
    X18,
    X19,
    /// Saved, syscall number
    X20,
    X21,
    X22,
    X23,
    X24,
    X25,
    X26,
    X27,
    X28,
    X29,
    X30,
    X31,
}

/// The register whose index is `value`, for an index below 32.
pub open spec fn spec_register(value: u32) -> Register
    recommends
        value < 32,
{
    match value {
        0 => Register::X0,
        1 => Register::X1,
        2 => Register::X2,
        3 => Register::X3,
        4 => Register::X4,
        5 => Register::X5,
        6 => Register::X6,
        7 => Register::X7,
        8 => Register::X8,
        9 => Register::X9,
        10 => Register::X10,
        11 => Register::X11,
        12 => Register::X12,
        13 => Register::X13,
        14 => Register::X14,
        15 => Register::X15,
        16 => Register::X16,
        17 => Register::X17,
        18 => Register::X18,
        19 => Register::X19,
        20 => Register::X20,
        21 => Register::X21,
        22 => Register::X22,
        23 => Register::X23,
        24 => Register::X24,
        25 => Register::X25,
        26 => Register::X26,
        27 => Register::X27,
        28 => Register::X28,
        29 => Register::X29,
        30 => Register::X30,
        31 => Register::X31,
        _ => Register::X0,
    }
}

impl Register {
    /// The index of the register, `0..32`.
    pub open spec fn spec_index(self) -> u32 {
        self as u32
    }

    #[allow(non_upper_case_globals)]
    pub const Zero: Register = Register::X0;
    pub const RA: Register = Register::X1;
    pub const SP: Register = Register::X2;
    pub const GP: Register = Register::X3;
    pub const TP: Register = Register::X4;
    pub const T0: Register = Register::X5;
    pub const T1: Register = Register::X6;
    pub const T2: Register = Register::X7;
    pub const S0: Register = Register::X8;
    pub const S1: Register = Register::X9;
    pub const A0: Register = Register::X10;
    pub const A1: Register = Register::X11;
    pub const A2: Register = Register::X12;
    pub const A3: Register = Register::X13;
    pub const T3: Register = Register::X28;

    /// The frame pointer.
    pub fn fp() -> (r: Register)
        ensures
            r == Register::X8,
    {
        Register::X8
    }

    /// The index of the register.
    pub fn index(&self) -> (r: u32)
        ensures
            r == self.spec_index(),
            r < 32,
    {
        *self as u32
    }

    /// The register with index `value`; every value outside `1..=31` gives `X0`.
    pub fn from_u32(value: u32) -> (r: Register)
        ensures
            r == (if value < 32 { spec_register(value) } else { Register::X0 }),
    {
        match value {
            0 => Register::X0,
            1 => Register::X1,
            2 => Register::X2,
            3 => Register::X3,
            4 => Register::X4,
            5 => Register::X5,
            6 => Register::X6,
            7 => Register::X7,
            8 => Register::X8,
            9 => Register::X9,
            10 => Register::X10,
            11 => Register::X11,
            12 => Register::X12,
            13 => Register::X13,
            14 => Register::X14,
            15 => Register::X15,
            16 => Register::X16,
            17 => Register::X17,
            18 => Register::X18,
            19 => Register::X19,
            20 => Register::X20,
            21 => Register::X21,
            22 => Register::X22,
            23 => Register::X23,
            24 => Register::X24,
            25 => Register::X25,
            26 => Register::X26,
            27 => Register::X27,
            28 => Register::X28,
            29 => Register::X29,
            30 => Register::X30,
            31 => Register::X31,
            _ => Register::X0,
        }
    }

    pub open spec fn from_spec_u32(value: u32) -> Register {
        if value < 32 { spec_register(value) } else { Register::X0 }
    }
}

impl Codec for Register {
    /// Field of an instruction word: `(index & bit_mask) << bit_accumulation`.
    fn encode(&self, bit_mask: u32, bit_accumulation: u32) -> (r: u32)
        ensures
            r == (self.spec_index() & bit_mask) << bit_accumulation,
    {
        (*self as u32 & bit_mask) << bit_accumulation
    }

    /// The register held in the field of `src` that starts at `bit_accumulation` and is
    /// `bit_mask` wide.
    fn decode(src: u32, bit_accumulation: u32, bit_mask: u32) -> (r: Register)
        ensures
            r == Register::from_spec_u32((src >> bit_accumulation) & bit_mask),
    {
        Register::from_u32((src >> bit_accumulation) & bit_mask)
    }
}

/// Index and register agree both ways.
pub proof fn lemma_register_index_roundtrip(r: Register)
    ensures
        spec_register(r.spec_index()) == r,
        r.spec_index() < 32,
{
}

impl EnumCount for Register {
    const VARIANT_COUNT: usize = 32;
}

impl EnumVariants<32> for Register {
    fn variants() -> (r: [&'static str; 32])
        ensures
            r@ == seq!["x0", "x1", "x2", "x3", "x4", "x5", "x6", "x7", "x8", "x9", "x10", "x11", "x12", "x13", "x14", "x15", "x16", "x17", "x18", "x19", "x20", "x21", "x22", "x23", "x24", "x25", "x26", "x27", "x28", "x29", "x30", "x31"],
    {
        ["x0", "x1", "x2", "x3", "x4", "x5", "x6", "x7", "x8", "x9", "x10", "x11", "x12", "x13", "x14", "x15", "x16", "x17", "x18", "x19", "x20", "x21", "x22", "x23", "x24", "x25", "x26", "x27", "x28", "x29", "x30", "x31"]
    }
}

} // verus!
