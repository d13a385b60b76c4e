//! An instruction set on the calling-convention registers, with a load-immediate instruction.
//!
//! The low byte of a word is the opcode; the operands follow from bit 8 upwards: registers in
//! 5 bits, the value of `li` in 19 bits, the immediates of the others in 14 bits.
pub mod cpu;
pub mod operand;
pub mod register;

use vstd::prelude::*;

use crate::isa::instruction::Codec;
use crate::shared::{DecodeError, VMInstruction};
use crate::vm::instruction::register::{lemma_abi_register_roundtrip, spec_abi_register, Register};

verus! {

/// The instructions.
#[derive(Debug, PartialEq, Eq, Clone, Copy, Structural)]
#[allow(inconsistent_fields)]
pub enum Instruction {
    /// Load a 19-bit value
    Li { dest: Register, value: u32 },
    Add { dest: Register, src1: Register, src2: Register },
    Sub { dest: Register, src1: Register, src2: Register },
    Mul { dest: Register, src1: Register, src2: Register },
    And { dest: Register, src1: Register, src2: Register },
    Or { dest: Register, src1: Register, src2: Register },
    Xor { dest: Register, src1: Register, src2: Register },
    /// Shift Left
    Shl { dest: Register, src: Register, shift: Register },
    /// Shift Right Logical
    Shr { dest: Register, src: Register, shift: Register },
    /// Shift Right Arith
    ShrA { dest: Register, src: Register, shift: Register },
    AddI { dest: Register, src: Register, value: u16 },
    LoadWord { dest: Register, src: Register, offset: u16 },
    StoreWord { dest: Register, src: Register, offset: u16 },
    Syscall { src1: Register, src2: Register, src3: Register },
}

/// A 5-bit register field at `at`.
pub open spec fn field(r: Register, at: u32) -> u32 {
    (r.spec_index() & 0x1f) << at
}

/// Three registers at bits 8, 13 and 18.
pub open spec fn enc3(op: u8, a: Register, b: Register, c: Register) -> u32 {
    op as u32 | field(a, 8) | field(b, 13) | field(c, 18)
}

/// Two registers at bits 8 and 13, and a 14-bit value at bit 18.
pub open spec fn enc2i(op: u8, a: Register, b: Register, v: u16) -> u32 {
    op as u32 | field(a, 8) | field(b, 13) | (((v as u32) & 0x3fff) << 18)
}

/// The word an instruction is encoded into.
pub open spec fn spec_encode(i: Instruction) -> u32 {
    match i {
        Instruction::Li { dest, value } => 0xff | field(dest, 8) | ((value & 0x7ffff) << 13),
        Instruction::Add { dest, src1, src2 } => enc3(0x1, dest, src1, src2),
        Instruction::Sub { dest, src1, src2 } => enc3(0x2, dest, src1, src2),
        Instruction::Mul { dest, src1, src2 } => enc3(0x3, dest, src1, src2),
        Instruction::And { dest, src1, src2 } => enc3(0x4, dest, src1, src2),
        Instruction::Or { dest, src1, src2 } => enc3(0x5, dest, src1, src2),
        Instruction::Xor { dest, src1, src2 } => enc3(0x6, dest, src1, src2),
        Instruction::Shl { dest, src, shift } => enc3(0x7, dest, src, shift),
        Instruction::Shr { dest, src, shift } => enc3(0x8, dest, src, shift),
        Instruction::ShrA { dest, src, shift } => enc3(0x9, dest, src, shift),
        Instruction::AddI { dest, src, value } => enc2i(0x13, dest, src, value),
        Instruction::LoadWord { dest, src, offset } => enc2i(0xc, dest, src, offset),
        Instruction::StoreWord { dest, src, offset } => enc2i(0xd, dest, src, offset),
        Instruction::Syscall { src1, src2, src3 } => enc3(0x73, src1, src2, src3),
    }
}

/// The opcode of each instruction.
pub open spec fn spec_opcode(i: Instruction) -> u8 {
    match i {
        Instruction::Li { .. } => 0xff,
        Instruction::Add { .. } => 0x1,
        Instruction::Sub { .. } => 0x2,
        Instruction::Mul { .. } => 0x3,
        Instruction::And { .. } => 0x4,
        Instruction::Or { .. } => 0x5,
        Instruction::Xor { .. } => 0x6,
        Instruction::Shl { .. } => 0x7,
        Instruction::Shr { .. } => 0x8,
        Instruction::ShrA { .. } => 0x9,
        Instruction::AddI { .. } => 0x13,
        Instruction::LoadWord { .. } => 0xc,
        Instruction::StoreWord { .. } => 0xd,
        Instruction::Syscall { .. } => 0x73,
    }
}

/// What decoding `w` gives: the instruction of its low byte, with the operands read from
/// their fields; an unknown low byte is an error.
pub open spec fn spec_decode(w: u32) -> Result<Instruction, DecodeError> {
    let op = w as u8;
    let a = spec_abi_register((w >> 8) & 0x1f);
    let b = spec_abi_register((w >> 13) & 0x1f);
    let c = spec_abi_register((w >> 18) & 0x1f);
    let v = ((w >> 18) & 0x3fff) as u16;
    if op == 0xff {
        Ok(Instruction::Li { dest: a, value: (w >> 13) & 0x7ffff })
    } else if op == 0x1 {
        Ok(Instruction::Add { dest: a, src1: b, src2: c })
    } else if op == 0x2 {
        Ok(Instruction::Sub { dest: a, src1: b, src2: c })
    } else if op == 0x3 {
        Ok(Instruction::Mul { dest: a, src1: b, src2: c })
    } else if op == 0x4 {
        Ok(Instruction::And { dest: a, src1: b, src2: c })
    } else if op == 0x5 {
        Ok(Instruction::Or { dest: a, src1: b, src2: c })
    } else if op == 0x6 {
        Ok(Instruction::Xor { dest: a, src1: b, src2: c })
    } else if op == 0x7 {
        Ok(Instruction::Shl { dest: a, src: b, shift: c })
    } else if op == 0x8 {
        Ok(Instruction::Shr { dest: a, src: b, shift: c })
    } else if op == 0x9 {
        Ok(Instruction::ShrA { dest: a, src: b, shift: c })
    } else if op == 0x13 {
        Ok(Instruction::AddI { dest: a, src: b, value: v })
    } else if op == 0xc {
        Ok(Instruction::LoadWord { dest: a, src: b, offset: v })
    } else if op == 0xd {
        Ok(Instruction::StoreWord { dest: a, src: b, offset: v })
    } else if op == 0x73 {
        Ok(Instruction::Syscall { src1: a, src2: b, src3: c })
    } else {
        Err(DecodeError::UnknownOpcode(op))
    }
}

impl Instruction {
    /// Every value fits into its field: 19 bits for `li`, 14 bits for the others.
    pub open spec fn wf(self) -> bool {
        match self {
            Instruction::Li { value, .. } => value < 0x80000,
            Instruction::AddI { value, .. } => value < 0x4000,
            Instruction::LoadWord { offset, .. } => offset < 0x4000,
            Instruction::StoreWord { offset, .. } => offset < 0x4000,
            _ => true,
        }
    }

    /// The word the instruction is encoded into; see `spec_encode`.
    pub fn encode(&self) -> (r: u32)
        ensures
            r == spec_encode(*self),
    {
        match *self {
            Instruction::Li { dest, value } => 0xffu32 | dest.encode(0x1f, 8) | ((value & 0x7ffff)
                << 13),
            Instruction::Add { dest, src1, src2 } => Self::encode3(0x1, dest, src1, src2),
            Instruction::Sub { dest, src1, src2 } => Self::encode3(0x2, dest, src1, src2),
            Instruction::Mul { dest, src1, src2 } => Self::encode3(0x3, dest, src1, src2),
            Instruction::And { dest, src1, src2 } => Self::encode3(0x4, dest, src1, src2),
            Instruction::Or { dest, src1, src2 } => Self::encode3(0x5, dest, src1, src2),
            Instruction::Xor { dest, src1, src2 } => Self::encode3(0x6, dest, src1, src2),
            Instruction::Shl { dest, src, shift } => Self::encode3(0x7, dest, src, shift),
            Instruction::Shr { dest, src, shift } => Self::encode3(0x8, dest, src, shift),
            Instruction::ShrA { dest, src, shift } => Self::encode3(0x9, dest, src, shift),
            Instruction::AddI { dest, src, value } => Self::encode2i(0x13, dest, src, value),
            Instruction::LoadWord { dest, src, offset } => Self::encode2i(0xc, dest, src, offset),
            Instruction::StoreWord { dest, src, offset } => Self::encode2i(0xd, dest, src, offset),
            Instruction::Syscall { src1, src2, src3 } => Self::encode3(0x73, src1, src2, src3),
        }
    }

    fn encode3(op: u8, a: Register, b: Register, c: Register) -> (r: u32)
        ensures
            r == enc3(op, a, b, c),
    {
        op as u32 | a.encode(0x1f, 8) | b.encode(0x1f, 13) | c.encode(0x1f, 18)
    }

    fn encode2i(op: u8, a: Register, b: Register, v: u16) -> (r: u32)
        ensures
            r == enc2i(op, a, b, v),
    {
        op as u32 | a.encode(0x1f, 8) | b.encode(0x1f, 13) | (((v as u32) & 0x3fff) << 18)
    }

    /// The instruction a word holds; see `spec_decode`.
    pub fn try_from(value: u32) -> (r: Result<Instruction, DecodeError>)
        ensures
            r == spec_decode(value),
    {
        let opcode = value as u8;
        let a = Register::decode(value, 8, 0x1f);
        let b = Register::decode(value, 13, 0x1f);
        let c = Register::decode(value, 18, 0x1f);
        let v = ((value >> 18) & 0x3fff) as u16;
        match opcode {
            0xff => Ok(Instruction::Li { dest: a, value: (value >> 13) & 0x7ffff }),
            0x1 => Ok(Instruction::Add { dest: a, src1: b, src2: c }),
            0x2 => Ok(Instruction::Sub { dest: a, src1: b, src2: c }),
            0x3 => Ok(Instruction::Mul { dest: a, src1: b, src2: c }),
            0x4 => Ok(Instruction::And { dest: a, src1: b, src2: c }),
            0x5 => Ok(Instruction::Or { dest: a, src1: b, src2: c }),
            0x6 => Ok(Instruction::Xor { dest: a, src1: b, src2: c }),
            0x7 => Ok(Instruction::Shl { dest: a, src: b, shift: c }),
            0x8 => Ok(Instruction::Shr { dest: a, src: b, shift: c }),
            0x9 => Ok(Instruction::ShrA { dest: a, src: b, shift: c }),
            0x13 => Ok(Instruction::AddI { dest: a, src: b, value: v }),
            0xc => Ok(Instruction::LoadWord { dest: a, src: b, offset: v }),
            0xd => Ok(Instruction::StoreWord { dest: a, src: b, offset: v }),
            0x73 => Ok(Instruction::Syscall { src1: a, src2: b, src3: c }),
            _ => Err(DecodeError::UnknownOpcode(opcode)),
        }
    }
}

impl VMInstruction for Instruction {
    /// The opcode of the instruction: the low byte of its encoding.
    fn opcode(&self) -> (r: u8)
        ensures
            r == spec_opcode(*self),
            r == spec_encode(*self) as u8,
    {
        proof {
            lemma_encode_opcode(*self);
        }
        match *self {
            Instruction::Li { .. } => 0xff,
            Instruction::Add { .. } => 0x1,
            Instruction::Sub { .. } => 0x2,
            Instruction::Mul { .. } => 0x3,
            Instruction::And { .. } => 0x4,
            Instruction::Or { .. } => 0x5,
            Instruction::Xor { .. } => 0x6,
            Instruction::Shl { .. } => 0x7,
            Instruction::Shr { .. } => 0x8,
            Instruction::ShrA { .. } => 0x9,
            Instruction::AddI { .. } => 0x13,
            Instruction::LoadWord { .. } => 0xc,
            Instruction::StoreWord { .. } => 0xd,
            Instruction::Syscall { .. } => 0x73,
        }
    }
}

proof fn lemma_enc3(op: u8, a: Register, b: Register, c: Register)
    ensures
        enc3(op, a, b, c) as u8 == op,
        spec_abi_register((enc3(op, a, b, c) >> 8) & 0x1f) == a,
        spec_abi_register((enc3(op, a, b, c) >> 13) & 0x1f) == b,
        spec_abi_register((enc3(op, a, b, c) >> 18) & 0x1f) == c,
{
    let (x, y, z) = (a.spec_index(), b.spec_index(), c.spec_index());
    lemma_abi_register_roundtrip(a);
    lemma_abi_register_roundtrip(b);
    lemma_abi_register_roundtrip(c);
    let w = enc3(op, a, b, c);
    assert(w as u8 == op && (w >> 8) & 0x1f == x && (w >> 13) & 0x1f == y && (w >> 18) & 0x1f == z)
        by (bit_vector)
        requires
            w == op as u32 | (x & 0x1f) << 8 | (y & 0x1f) << 13 | (z & 0x1f) << 18,
            x < 32,
            y < 32,
            z < 32,
    ;
}

proof fn lemma_enc2i(op: u8, a: Register, b: Register, v: u16)
    ensures
        enc2i(op, a, b, v) as u8 == op,
        v < 0x4000 ==> spec_abi_register((enc2i(op, a, b, v) >> 8) & 0x1f) == a,
        v < 0x4000 ==> spec_abi_register((enc2i(op, a, b, v) >> 13) & 0x1f) == b,
        v < 0x4000 ==> ((enc2i(op, a, b, v) >> 18) & 0x3fff) as u16 == v,
{
    let (x, y, u) = (a.spec_index(), b.spec_index(), v as u32);
    lemma_abi_register_roundtrip(a);
    lemma_abi_register_roundtrip(b);
    let w = enc2i(op, a, b, v);
    assert(w as u8 == op && (u < 0x4000 ==> (w >> 8) & 0x1f == x && (w >> 13) & 0x1f == y && (w
        >> 18) & 0x3fff == u)) by (bit_vector)
        requires
            w == op as u32 | (x & 0x1f) << 8 | (y & 0x1f) << 13 | (u & 0x3fff) << 18,
            x < 32,
            y < 32,
    ;
}

proof fn lemma_enc_li(a: Register, value: u32)
    ensures
        (0xff | field(a, 8) | ((value & 0x7ffff) << 13)) as u8 == 0xff,
        spec_abi_register(((0xff | field(a, 8) | ((value & 0x7ffff) << 13)) >> 8) & 0x1f) == a,
        value < 0x80000 ==> ((0xff | field(a, 8) | ((value & 0x7ffff) << 13)) >> 13) & 0x7ffff
            == value,
{
    let x = a.spec_index();
    lemma_abi_register_roundtrip(a);
    let w = 0xff | field(a, 8) | ((value & 0x7ffff) << 13);
    assert(w as u8 == 0xff && (w >> 8) & 0x1f == x && (value < 0x80000 ==> (w >> 13) & 0x7ffff
        == value)) by (bit_vector)
        requires
            w == 0xff | (x & 0x1f) << 8 | (value & 0x7ffff) << 13,
            x < 32,
    ;
}

/// The low byte of every encoding is the instruction's opcode.
pub proof fn lemma_encode_opcode(i: Instruction)
    ensures
        spec_encode(i) as u8 == spec_opcode(i),
{
    match i {
        Instruction::Li { dest, value } => lemma_enc_li(dest, value),
        Instruction::Add { dest, src1, src2 } => lemma_enc3(0x1, dest, src1, src2),
        Instruction::Sub { dest, src1, src2 } => lemma_enc3(0x2, dest, src1, src2),
        Instruction::Mul { dest, src1, src2 } => lemma_enc3(0x3, dest, src1, src2),
        Instruction::And { dest, src1, src2 } => lemma_enc3(0x4, dest, src1, src2),
        Instruction::Or { dest, src1, src2 } => lemma_enc3(0x5, dest, src1, src2),
        Instruction::Xor { dest, src1, src2 } => lemma_enc3(0x6, dest, src1, src2),
        Instruction::Shl { dest, src, shift } => lemma_enc3(0x7, dest, src, shift),
        Instruction::Shr { dest, src, shift } => lemma_enc3(0x8, dest, src, shift),
        Instruction::ShrA { dest, src, shift } => lemma_enc3(0x9, dest, src, shift),
        Instruction::AddI { dest, src, value } => lemma_enc2i(0x13, dest, src, value),
        Instruction::LoadWord { dest, src, offset } => lemma_enc2i(0xc, dest, src, offset),
        Instruction::StoreWord { dest, src, offset } => lemma_enc2i(0xd, dest, src, offset),
        Instruction::Syscall { src1, src2, src3 } => lemma_enc3(0x73, src1, src2, src3),
    }
}

/// Decoding the encoding of an instruction whose values fit their fields gives it back.
#[verifier::rlimit(60)]
pub proof fn lemma_decode_encode(i: Instruction)
    requires
        i.wf(),
    ensures
        spec_decode(spec_encode(i)) == Ok::<Instruction, DecodeError>(i),
{
    match i {
        Instruction::Li { dest, value } => lemma_enc_li(dest, value),
        Instruction::Add { dest, src1, src2 } => lemma_enc3(0x1, dest, src1, src2),
        Instruction::Sub { dest, src1, src2 } => lemma_enc3(0x2, dest, src1, src2),
        Instruction::Mul { dest, src1, src2 } => lemma_enc3(0x3, dest, src1, src2),
        Instruction::And { dest, src1, src2 } => lemma_enc3(0x4, dest, src1, src2),
        Instruction::Or { dest, src1, src2 } => lemma_enc3(0x5, dest, src1, src2),
        Instruction::Xor { dest, src1, src2 } => lemma_enc3(0x6, dest, src1, src2),
        Instruction::Shl { dest, src, shift } => lemma_enc3(0x7, dest, src, shift),
        Instruction::Shr { dest, src, shift } => lemma_enc3(0x8, dest, src, shift),
        Instruction::ShrA { dest, src, shift } => lemma_enc3(0x9, dest, src, shift),
        Instruction::AddI { dest, src, value } => lemma_enc2i(0x13, dest, src, value),
        Instruction::LoadWord { dest, src, offset } => lemma_enc2i(0xc, dest, src, offset),
        Instruction::StoreWord { dest, src, offset } => lemma_enc2i(0xd, dest, src, offset),
        Instruction::Syscall { src1, src2, src3 } => lemma_enc3(0x73, src1, src2, src3),
    }
}

} // verus!
