//! The opcodes of the byte-code machine.
use vstd::prelude::*;

verus! {

/// The opcodes.
#[derive(Debug, Clone, Copy, PartialEq, Eq, Structural)]
pub enum Opcode {
    /// HALT
    HLT,
    /// Illegal
    IGL,
    LOAD,
    ADD,
    SUB,
    MUL,
    DIV,
}

/// The opcode of a byte: 0 halts, every other byte is illegal.
pub open spec fn spec_opcode_of(v: u8) -> Opcode {
    if v == 0 {
        Opcode::HLT
    } else {
        Opcode::IGL
    }
}

impl Opcode {
    /// The opcode of a byte; see `spec_opcode_of`.
    pub fn from_u8(v: u8) -> (r: Opcode)
        ensures
            r == spec_opcode_of(v),
    {
        match v {
            0 => Opcode::HLT,
            _ => Opcode::IGL,
        }
    }
}

/// An instruction: its opcode.
#[derive(Debug, Clone, Copy, PartialEq, Eq)]
pub struct Instruction {
    pub opcode: Opcode,
}

impl Instruction {
    pub fn new(opcode: Opcode) -> (r: Instruction)
        ensures
            r.opcode == opcode,
    {
        Instruction { opcode }
    }
}

/// Fetching and decoding opcodes.
pub trait InstructionHandler {
    /// The opcode of the byte `memory`.
    fn fetch(&self, memory: u8) -> (r: Opcode)
        ensures
            r == spec_opcode_of(memory),
    {
        Opcode::from_u8(memory)
    }

    /// Carry the opcode out, as far as the machine knows it.
    fn decode(&self, opcode: Opcode) -> (r: Result<(), ()>)
        requires
            opcode == Opcode::HLT || opcode == Opcode::IGL,
        ensures
            r is Ok,
    ;
}

} // verus!
