//! Immediates of instructions.
use vstd::prelude::*;

pub use crate::isa::operand::{Immediate, ImmediateValueError};

verus! {

/// The widths of immediates.
#[derive(Debug, Clone, Copy, PartialEq, Eq, Structural)]
pub enum ImmBit {
    B14,
    B19,
}

impl ImmBit {
    /// The number of bits.
    pub fn length(&self) -> (r: u32)
        ensures
            r == (match self {
                ImmBit::B14 => 14u32,
                ImmBit::B19 => 19u32,
            }),
    {
        match self {
            ImmBit::B14 => 14,
            ImmBit::B19 => 19,
        }
    }
}

} // verus!
