//! The first instruction set: operands are registers, immediates, addresses or labels.
use vstd::prelude::*;

use crate::shared::VMInstruction;
use crate::vm::register::{spec_register_of, Register};

verus! {

/// An operand.
#[derive(Debug, Clone, Copy, PartialEq, Eq, Structural)]
pub enum Operand {
    Register(Register),
    Immediate(u32),
    Address(u32),
    /// A jump or call target
    LabelRef(u32),
}

/// The operand of each number: 0 the zero register, 1 and 2 an immediate and an address of
/// that value, anything else the label 0.
pub open spec fn spec_operand_of(v: u32) -> Operand {
    if v == 0 {
        Operand::Register(spec_register_of(v))
    } else if v == 1 {
        Operand::Immediate(v)
    } else if v == 2 {
        Operand::Address(v)
    } else {
        Operand::LabelRef(0)
    }
}

impl Operand {
    /// The operand's value `& rhs`: a register's position, the number of the others.
    pub fn bitand(self, rhs: u32) -> (r: u32)
        ensures
            r == (match self {
                Operand::Register(data) => data.spec_index() & rhs,
                Operand::Immediate(data) => data & rhs,
                Operand::Address(data) => data & rhs,
                Operand::LabelRef(data) => data & rhs,
            }),
    {
        match self {
            Operand::Register(data) => data.bitand(rhs),
            Operand::Immediate(data) => data & rhs,
            Operand::Address(data) => data & rhs,
            Operand::LabelRef(data) => data & rhs,
        }
    }

    /// The operand of a number; see `spec_operand_of`.
    pub fn from_u32(value: u32) -> (r: Operand)
        ensures
            r == spec_operand_of(value),
    {
        match value {
            0 => Operand::Register(Register::from_u32(value)),
            1 => Operand::Immediate(value),
            2 => Operand::Address(value),
            _ => Operand::LabelRef(0),
        }
    }

    /// The operand of a 16-bit number; see `spec_operand_of`.
    pub fn from_u16(value: u16) -> (r: Operand)
        ensures
            r == spec_operand_of(value as u32),
    {
        Self::from_u32(value as u32)
    }

    /// The operand of a byte; see `spec_operand_of`.
    pub fn from_u8(value: u8) -> (r: Operand)
        ensures
            r == spec_operand_of(value as u32),
    {
        Self::from_u32(value as u32)
    }
}

/// The instructions.
#[derive(Debug, Clone, Copy, PartialEq, Eq, Structural)]
pub enum Instruction {
    Nop,
    Add { dest: Register, src1: Operand, src2: Operand },
    Sub { dest: Register, src1: Operand, src2: Operand },
    Mul { dest: Register, src1: Operand, src2: Operand },
    And { dest: Register, src1: Operand, src2: Operand },
    Or { dest: Register, src1: Operand, src2: Operand },
    Xor { dest: Register, src1: Operand, src2: Operand },
    LoadWord { dest: Register, src: Operand },
    StoreWord { src: Register, dest: Operand },
    Move { dest: Register, src: Operand },
    Push { src: Operand },
    Pop { dest: Register },
    /// Shift Left
    Shl { dest: Register, src: Operand, shift: Operand },
    /// Shift Right
    Shr { dest: Register, src: Operand, shift: Operand },
    Cmp { left: Operand, right: Operand },
    Jmp { target: Operand },
    Call { target: Operand },
    Ret,
    Syscall { number: u32 },
    Halt,
}

/// The opcode of each instruction: the arithmetic ones count from 1, loads and stores are
/// 0xc and 0xd, halt 0, and the rest share 0xff.
pub open spec fn spec_opcode(i: Instruction) -> u8 {
    match i {
        Instruction::Add { .. } => 0x1,
        Instruction::Sub { .. } => 0x2,
        Instruction::Mul { .. } => 0x3,
        Instruction::And { .. } => 0x4,
        Instruction::Or { .. } => 0x5,
        Instruction::Xor { .. } => 0x6,
        Instruction::LoadWord { .. } => 0xc,
        Instruction::StoreWord { .. } => 0xd,
        Instruction::Halt => 0x0,
        _ => 0xff,
    }
}

impl VMInstruction for Instruction {
    /// The opcode; see `spec_opcode`.
    fn opcode(&self) -> (r: u8)
        ensures
            r == spec_opcode(*self),
    {
        match *self {
            Instruction::Add { .. } => 0x1,
            Instruction::Sub { .. } => 0x2,
            Instruction::Mul { .. } => 0x3,
            Instruction::And { .. } => 0x4,
            Instruction::Or { .. } => 0x5,
            Instruction::Xor { .. } => 0x6,
            Instruction::LoadWord { .. } => 0xc,
            Instruction::StoreWord { .. } => 0xd,
            Instruction::Halt => 0x0,
            _ => 0xff,
        }
    }
}

} // verus!
