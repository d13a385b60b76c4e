//! Instructions and their 32-bit encoding.
//!
//! The low byte of a word is the opcode. The operands follow from bit 8 upwards, each in a
//! field of its own width: registers take 5 bits, immediates 14 or 19 bits.
use vstd::arithmetic::power2::pow2;
use vstd::prelude::*;

use crate::isa::operand::{sign_extend, spec_trailing_ones, Immediate14, Immediate19};
use crate::isa::register::{spec_register, Register};
use crate::shared::{DecodeError, EnumCount, EnumVariants, VMInstruction};

verus! {

/// Encoding and decoding of an operand field of an instruction word.
pub trait Codec: Sized {
    fn decode(src: u32, bit_accumulation: u32, bit_mask: u32) -> Self
        requires
            bit_accumulation < 32,
    ;

    fn encode(&self, bit_mask: u32, bit_accumulation: u32) -> u32
        requires
            bit_accumulation < 32,
    ;
}

/// The instructions of the machine.
#[derive(Debug, PartialEq, Eq, Clone, Copy)]
#[allow(inconsistent_fields)]
pub enum Instruction {
    Add { dest: Register, src1: Register, src2: Register },
    Sub { dest: Register, src1: Register, src2: Register },
    Mul { dest: Register, src1: Register, src2: Register },
    And { dest: Register, src1: Register, src2: Register },
    Or { dest: Register, src1: Register, src2: Register },
    Xor { dest: Register, src1: Register, src2: Register },
    /// Shift Left
    Shl { dest: Register, src: Register, shift: Register },
    /// Shift Right Logical
    Shr { dest: Register, src: Register, shift: Register },
    /// Shift Right Arith
    ShrA { dest: Register, src: Register, shift: Register },
    /// Add Immediate
    AddI { dest: Register, src: Register, value: Immediate14 },
    /// Load Upper Immediate.
    Lui { dest: Register, value: Immediate19 },
    /// Load Word
    Lw { dest: Register, src: Register, offset: Immediate14 },
    /// Store Word
    Sw { src: Register, dest: Register, offset: Immediate14 },
    Syscall { src1: Register, src2: Register, src3: Register },
}

/// The name of an instruction without its operands.
#[derive(Debug, PartialEq, Eq, Clone, Copy, Structural)]
pub enum Mnemonic {
    Add,
    Sub,
    Mul,
    And,
    Or,
    Xor,
    Shl,
    Shr,
    ShrA,
    AddI,
    Lui,
    Lw,
    Sw,
    Syscall,
}

/// The operand shapes of instructions.
#[derive(Debug, Clone, Copy, PartialEq, Eq, Structural)]
pub enum InstructionType {
    /// Register - Register
    Arithmetic,
    /// Immediate Arithmetic
    IA,
    /// Branch
    B,
    /// Immediate Jump
    IJ,
    /// Immediate Load
    IL,
    /// Store
    S,
    /// Jump
    J,
    /// Upper immediate
    U,
}

/// The opcode of each mnemonic.
pub open spec fn spec_opcode(m: Mnemonic) -> u8 {
    match m {
        Mnemonic::Add => 0x1,
        Mnemonic::Sub => 0x2,
        Mnemonic::Mul => 0x3,
        Mnemonic::And => 0x4,
        Mnemonic::Or => 0x5,
        Mnemonic::Xor => 0x6,
        Mnemonic::Shl => 0x7,
        Mnemonic::Shr => 0x8,
        Mnemonic::ShrA => 0x9,
        Mnemonic::AddI => 0x13,
        Mnemonic::Lui => 0xff,
        Mnemonic::Lw => 0xc,
        Mnemonic::Sw => 0xd,
        Mnemonic::Syscall => 0x73,
    }
}

/// The mnemonic whose opcode is `op`, if any.
pub open spec fn spec_mnemonic_of_opcode(op: u8) -> Option<Mnemonic> {
    if op == 0x1 {
        Some(Mnemonic::Add)
    } else if op == 0x2 {
        Some(Mnemonic::Sub)
    } else if op == 0x3 {
        Some(Mnemonic::Mul)
    } else if op == 0x4 {
        Some(Mnemonic::And)
    } else if op == 0x5 {
        Some(Mnemonic::Or)
    } else if op == 0x6 {
        Some(Mnemonic::Xor)
    } else if op == 0x7 {
        Some(Mnemonic::Shl)
    } else if op == 0x8 {
        Some(Mnemonic::Shr)
    } else if op == 0x9 {
        Some(Mnemonic::ShrA)
    } else if op == 0x13 {
        Some(Mnemonic::AddI)
    } else if op == 0xff {
        Some(Mnemonic::Lui)
    } else if op == 0xc {
        Some(Mnemonic::Lw)
    } else if op == 0xd {
        Some(Mnemonic::Sw)
    } else if op == 0x73 {
        Some(Mnemonic::Syscall)
    } else {
        None
    }
}

/// Register field of 5 bits at `at`.
pub open spec fn reg_field(r: Register, at: u32) -> u32 {
    (r.spec_index() & 0x1f) << at
}

/// Three register operands at bits 8, 13 and 18.
pub open spec fn enc_r3(op: u8, a: Register, b: Register, c: Register) -> u32 {
    op as u32 | reg_field(a, 8) | reg_field(b, 13) | reg_field(c, 18)
}

/// Two registers at bits 8 and 13 and a 14-bit immediate at bit 18.
pub open spec fn enc_r2i(op: u8, a: Register, b: Register, imm: i32) -> u32 {
    op as u32 | reg_field(a, 8) | reg_field(b, 13) | (((imm as u32) & 0x3fff) << 18)
}

/// A register at bit 8 and a 19-bit immediate at bit 13.
pub open spec fn enc_ri(op: u8, a: Register, imm: i32) -> u32 {
    op as u32 | reg_field(a, 8) | (((imm as u32) & 0x7ffff) << 13)
}

/// The word an instruction is encoded into.
pub open spec fn spec_encode(i: Instruction) -> u32 {
    match i {
        Instruction::Add { dest, src1, src2 } => enc_r3(0x1, dest, src1, src2),
        Instruction::Sub { dest, src1, src2 } => enc_r3(0x2, dest, src1, src2),
        Instruction::Mul { dest, src1, src2 } => enc_r3(0x3, dest, src1, src2),
        Instruction::And { dest, src1, src2 } => enc_r3(0x4, dest, src1, src2),
        Instruction::Or { dest, src1, src2 } => enc_r3(0x5, dest, src1, src2),
        Instruction::Xor { dest, src1, src2 } => enc_r3(0x6, dest, src1, src2),
        Instruction::Shl { dest, src, shift } => enc_r3(0x7, dest, src, shift),
        Instruction::Shr { dest, src, shift } => enc_r3(0x8, dest, src, shift),
        Instruction::ShrA { dest, src, shift } => enc_r3(0x9, dest, src, shift),
        Instruction::AddI { dest, src, value } => enc_r2i(0x13, dest, src, value@),
        Instruction::Lui { dest, value } => enc_ri(0xff, dest, value@),
        Instruction::Lw { dest, src, offset } => enc_r2i(0xc, dest, src, offset@),
        Instruction::Sw { src, dest, offset } => enc_r2i(0xd, src, dest, offset@),
        Instruction::Syscall { src1, src2, src3 } => enc_r3(0x73, src1, src2, src3),
    }
}

/// The register in the 5-bit field of `w` at `at`.
pub open spec fn dec_reg(w: u32, at: u32) -> Register {
    spec_register((w >> at) & 0x1f)
}

/// The 14-bit immediate at bit 18.
pub open spec fn dec_imm14(w: u32) -> int {
    sign_extend((w >> 18) & 0x3fff, 14)
}

/// The 19-bit immediate at bit 13.
pub open spec fn dec_imm19(w: u32) -> int {
    sign_extend((w >> 13) & 0x7ffff, 19)
}

/// What decoding `w` gives: the mnemonic of its low byte, with the operands read from their
/// fields; an unknown low byte is an error.
pub open spec fn spec_decode(w: u32) -> Result<Instruction, DecodeError> {
    Instruction::spec_decode_checked(w)
}

impl Instruction {
    /// The mnemonic of the instruction.
    pub open spec fn spec_mnemonic(self) -> Mnemonic {
        match self {
            Instruction::Add { .. } => Mnemonic::Add,
            Instruction::Sub { .. } => Mnemonic::Sub,
            Instruction::Mul { .. } => Mnemonic::Mul,
            Instruction::And { .. } => Mnemonic::And,
            Instruction::Or { .. } => Mnemonic::Or,
            Instruction::Xor { .. } => Mnemonic::Xor,
            Instruction::Shl { .. } => Mnemonic::Shl,
            Instruction::Shr { .. } => Mnemonic::Shr,
            Instruction::ShrA { .. } => Mnemonic::ShrA,
            Instruction::AddI { .. } => Mnemonic::AddI,
            Instruction::Lui { .. } => Mnemonic::Lui,
            Instruction::Lw { .. } => Mnemonic::Lw,
            Instruction::Sw { .. } => Mnemonic::Sw,
            Instruction::Syscall { .. } => Mnemonic::Syscall,
        }
    }

    /// Every immediate fits into its field.
    pub open spec fn wf(self) -> bool {
        match self {
            Instruction::AddI { value, .. } => -8192 <= value@ <= 8191,
            Instruction::Lui { value, .. } => -262144 <= value@ <= 262143,
            Instruction::Lw { offset, .. } => -8192 <= offset@ <= 8191,
            Instruction::Sw { offset, .. } => -8192 <= offset@ <= 8191,
            _ => true,
        }
    }

    /// `spec_decode`, spelled out: operands in the same places as `spec_encode` puts them.
    pub open spec fn spec_decode_checked(w: u32) -> Result<Instruction, DecodeError> {
        match spec_mnemonic_of_opcode(w as u8) {
            None => Err(DecodeError::UnknownOpcode(w as u8)),
            Some(m) => Ok(Self::spec_build(m, w)),
        }
    }

    /// The instruction of mnemonic `m` with operands read from the fields of `w`.
    pub open spec fn spec_build(m: Mnemonic, w: u32) -> Instruction {
        let a = dec_reg(w, 8);
        let b = dec_reg(w, 13);
        let c = dec_reg(w, 18);
        match m {
            Mnemonic::Add => Instruction::Add { dest: a, src1: b, src2: c },
            Mnemonic::Sub => Instruction::Sub { dest: a, src1: b, src2: c },
            Mnemonic::Mul => Instruction::Mul { dest: a, src1: b, src2: c },
            Mnemonic::And => Instruction::And { dest: a, src1: b, src2: c },
            Mnemonic::Or => Instruction::Or { dest: a, src1: b, src2: c },
            Mnemonic::Xor => Instruction::Xor { dest: a, src1: b, src2: c },
            Mnemonic::Shl => Instruction::Shl { dest: a, src: b, shift: c },
            Mnemonic::Shr => Instruction::Shr { dest: a, src: b, shift: c },
            Mnemonic::ShrA => Instruction::ShrA { dest: a, src: b, shift: c },
            Mnemonic::AddI => Instruction::AddI { dest: a, src: b, value: imm14_of(dec_imm14(w)) },
            Mnemonic::Lui => Instruction::Lui { dest: a, value: imm19_of(dec_imm19(w)) },
            Mnemonic::Lw => Instruction::Lw { dest: a, src: b, offset: imm14_of(dec_imm14(w)) },
            Mnemonic::Sw => Instruction::Sw { src: a, dest: b, offset: imm14_of(dec_imm14(w)) },
            Mnemonic::Syscall => Instruction::Syscall { src1: a, src2: b, src3: c },
        }
    }

    /// The mnemonic of the instruction.
    pub fn mnemonic(&self) -> (r: Mnemonic)
        ensures
            r == self.spec_mnemonic(),
    {
        match self {
            Instruction::Add { .. } => Mnemonic::Add,
            Instruction::Sub { .. } => Mnemonic::Sub,
            Instruction::Mul { .. } => Mnemonic::Mul,
            Instruction::And { .. } => Mnemonic::And,
            Instruction::Or { .. } => Mnemonic::Or,
            Instruction::Xor { .. } => Mnemonic::Xor,
            Instruction::Shl { .. } => Mnemonic::Shl,
            Instruction::Shr { .. } => Mnemonic::Shr,
            Instruction::ShrA { .. } => Mnemonic::ShrA,
            Instruction::AddI { .. } => Mnemonic::AddI,
            Instruction::Lui { .. } => Mnemonic::Lui,
            Instruction::Lw { .. } => Mnemonic::Lw,
            Instruction::Sw { .. } => Mnemonic::Sw,
            Instruction::Syscall { .. } => Mnemonic::Syscall,
        }
    }

    /// The word the instruction is encoded into.
    pub fn encode(&self) -> (r: u32)
        ensures
            r == spec_encode(*self),
    {
        match self {
            Instruction::Add { dest, src1, src2 } => Self::encode_r3(0x1, dest, src1, src2),
            Instruction::Sub { dest, src1, src2 } => Self::encode_r3(0x2, dest, src1, src2),
            Instruction::Mul { dest, src1, src2 } => Self::encode_r3(0x3, dest, src1, src2),
            Instruction::And { dest, src1, src2 } => Self::encode_r3(0x4, dest, src1, src2),
            Instruction::Or { dest, src1, src2 } => Self::encode_r3(0x5, dest, src1, src2),
            Instruction::Xor { dest, src1, src2 } => Self::encode_r3(0x6, dest, src1, src2),
            Instruction::Shl { dest, src, shift } => Self::encode_r3(0x7, dest, src, shift),
            Instruction::Shr { dest, src, shift } => Self::encode_r3(0x8, dest, src, shift),
            Instruction::ShrA { dest, src, shift } => Self::encode_r3(0x9, dest, src, shift),
            Instruction::AddI { dest, src, value } => Self::encode_r2i(0x13, dest, src, value),
            Instruction::Lui { dest, value } => Self::encode_ri(0xff, dest, value),
            Instruction::Lw { dest, src, offset } => Self::encode_r2i(0xc, dest, src, offset),
            Instruction::Sw { src, dest, offset } => Self::encode_r2i(0xd, src, dest, offset),
            Instruction::Syscall { src1, src2, src3 } => Self::encode_r3(0x73, src1, src2, src3),
        }
    }

    fn encode_r3(opcode: u8, a: &Register, b: &Register, c: &Register) -> (r: u32)
        ensures
            r == enc_r3(opcode, *a, *b, *c),
    {
        let mut result = opcode as u32;
        result |= a.encode(0x1f, 8);
        result |= b.encode(0x1f, 13);
        result |= c.encode(0x1f, 18);
        result
    }

    fn encode_r2i(opcode: u8, a: &Register, b: &Register, imm: &Immediate14) -> (r: u32)
        ensures
            r == enc_r2i(opcode, *a, *b, imm@),
    {
        let mut result = opcode as u32;
        result |= a.encode(0x1f, 8);
        result |= b.encode(0x1f, 13);
        result |= imm.encode(0x3fff, 18);
        result
    }

    fn encode_ri(opcode: u8, a: &Register, imm: &Immediate19) -> (r: u32)
        ensures
            r == enc_ri(opcode, *a, imm@),
    {
        let mut result = opcode as u32;
        result |= a.encode(0x1f, 8);
        result |= imm.encode(0x7ffff, 13);
        result
    }

    /// The instruction held in `value`, or `UnknownOpcode` with its low byte.
    pub fn try_from(value: u32) -> (r: Result<Instruction, DecodeError>)
        ensures
            r == spec_decode(value),
    {
        proof {
            lemma_field_widths();
        }
        let opcode = value as u8;
        let a = Register::decode(value, 8, 0x1f);
        let b = Register::decode(value, 13, 0x1f);
        let c = Register::decode(value, 18, 0x1f);
        proof {
            lemma_reg_fields(value);
        }
        if opcode == 0x1 {
            Ok(Instruction::Add { dest: a, src1: b, src2: c })
        } else if opcode == 0x2 {
            Ok(Instruction::Sub { dest: a, src1: b, src2: c })
        } else if opcode == 0x3 {
            Ok(Instruction::Mul { dest: a, src1: b, src2: c })
        } else if opcode == 0x4 {
            Ok(Instruction::And { dest: a, src1: b, src2: c })
        } else if opcode == 0x5 {
            Ok(Instruction::Or { dest: a, src1: b, src2: c })
        } else if opcode == 0x6 {
            Ok(Instruction::Xor { dest: a, src1: b, src2: c })
        } else if opcode == 0x7 {
            Ok(Instruction::Shl { dest: a, src: b, shift: c })
        } else if opcode == 0x8 {
            Ok(Instruction::Shr { dest: a, src: b, shift: c })
        } else if opcode == 0x9 {
            Ok(Instruction::ShrA { dest: a, src: b, shift: c })
        } else if opcode == 0x13 {
            Ok(Instruction::AddI { dest: a, src: b, value: Immediate14::decode(value, 18, 0x3fff) })
        } else if opcode == 0xff {
            Ok(Instruction::Lui { dest: a, value: Immediate19::decode(value, 13, 0x7ffff) })
        } else if opcode == 0xc {
            Ok(Instruction::Lw { dest: a, src: b, offset: Immediate14::decode(value, 18, 0x3fff) })
        } else if opcode == 0xd {
            Ok(Instruction::Sw { src: a, dest: b, offset: Immediate14::decode(value, 18, 0x3fff) })
        } else if opcode == 0x73 {
            Ok(Instruction::Syscall { src1: a, src2: b, src3: c })
        } else {
            Err(DecodeError::UnknownOpcode(opcode))
        }
    }
}

/// The 14-bit immediate with value `v`.
pub open spec fn imm14_of(v: int) -> Immediate14 {
    Immediate14::spec_from_value(v as i32)
}

/// The 19-bit immediate with value `v`.
pub open spec fn imm19_of(v: int) -> Immediate19 {
    Immediate19::spec_from_value(v as i32)
}

impl VMInstruction for Instruction {
    fn opcode(&self) -> (r: u8)
        ensures
            r == spec_opcode(self.spec_mnemonic()),
    {
        match self.mnemonic() {
            Mnemonic::Add => 0x1,
            Mnemonic::Sub => 0x2,
            Mnemonic::Mul => 0x3,
            Mnemonic::And => 0x4,
            Mnemonic::Or => 0x5,
            Mnemonic::Xor => 0x6,
            Mnemonic::Shl => 0x7,
            Mnemonic::Shr => 0x8,
            Mnemonic::ShrA => 0x9,
            Mnemonic::AddI => 0x13,
            Mnemonic::Lui => 0xff,
            Mnemonic::Lw => 0xc,
            Mnemonic::Sw => 0xd,
            Mnemonic::Syscall => 0x73,
        }
    }
}

impl EnumCount for Instruction {
    const VARIANT_COUNT: usize = 14;
}

impl EnumCount for Mnemonic {
    const VARIANT_COUNT: usize = 14;
}

impl EnumVariants<14> for Mnemonic {
    fn variants() -> (r: [&'static str; 14])
        ensures
            r@ == seq!["add", "sub", "mul", "and", "or", "xor", "shl", "shr", "shra", "addi", "lui", "lw", "sw", "syscall"],
    {
        ["add", "sub", "mul", "and", "or", "xor", "shl", "shr", "shra", "addi", "lui", "lw", "sw", "syscall"]
    }
}

/// Decoding the encoding of a well-formed instruction gives the instruction back.
#[verifier::rlimit(60)]
pub proof fn lemma_decode_encode(i: Instruction)
    requires
        i.wf(),
    ensures
        spec_decode(spec_encode(i)) == Ok::<Instruction, DecodeError>(i),
{
    lemma_field_widths();
    let w = spec_encode(i);
    match i {
        Instruction::Add { dest, src1, src2 } => lemma_r3(0x1, dest, src1, src2),
        Instruction::Sub { dest, src1, src2 } => lemma_r3(0x2, dest, src1, src2),
        Instruction::Mul { dest, src1, src2 } => lemma_r3(0x3, dest, src1, src2),
        Instruction::And { dest, src1, src2 } => lemma_r3(0x4, dest, src1, src2),
        Instruction::Or { dest, src1, src2 } => lemma_r3(0x5, dest, src1, src2),
        Instruction::Xor { dest, src1, src2 } => lemma_r3(0x6, dest, src1, src2),
        Instruction::Shl { dest, src, shift } => lemma_r3(0x7, dest, src, shift),
        Instruction::Shr { dest, src, shift } => lemma_r3(0x8, dest, src, shift),
        Instruction::ShrA { dest, src, shift } => lemma_r3(0x9, dest, src, shift),
        Instruction::AddI { dest, src, value } => {
            lemma_r2i(0x13, dest, src, value@);
            Immediate14::lemma_from_value(value@, value);
        },
        Instruction::Lui { dest, value } => {
            lemma_ri(0xff, dest, value@);
            Immediate19::lemma_from_value(value@, value);
        },
        Instruction::Lw { dest, src, offset } => {
            lemma_r2i(0xc, dest, src, offset@);
            Immediate14::lemma_from_value(offset@, offset);
        },
        Instruction::Sw { src, dest, offset } => {
            lemma_r2i(0xd, src, dest, offset@);
            Immediate14::lemma_from_value(offset@, offset);
        },
        Instruction::Syscall { src1, src2, src3 } => lemma_r3(0x73, src1, src2, src3),
    }
}

/// The low byte of every encoding is the opcode of the instruction's mnemonic.
pub proof fn lemma_encode_opcode(i: Instruction)
    ensures
        spec_encode(i) as u8 == spec_opcode(i.spec_mnemonic()),
{
    lemma_field_widths();
    match i {
        Instruction::Add { dest, src1, src2 } => lemma_r3(0x1, dest, src1, src2),
        Instruction::Sub { dest, src1, src2 } => lemma_r3(0x2, dest, src1, src2),
        Instruction::Mul { dest, src1, src2 } => lemma_r3(0x3, dest, src1, src2),
        Instruction::And { dest, src1, src2 } => lemma_r3(0x4, dest, src1, src2),
        Instruction::Or { dest, src1, src2 } => lemma_r3(0x5, dest, src1, src2),
        Instruction::Xor { dest, src1, src2 } => lemma_r3(0x6, dest, src1, src2),
        Instruction::Shl { dest, src, shift } => lemma_r3(0x7, dest, src, shift),
        Instruction::Shr { dest, src, shift } => lemma_r3(0x8, dest, src, shift),
        Instruction::ShrA { dest, src, shift } => lemma_r3(0x9, dest, src, shift),
        Instruction::AddI { dest, src, value } => lemma_r2i_op(0x13, dest, src, value@),
        Instruction::Lui { dest, value } => lemma_ri_op(0xff, dest, value@),
        Instruction::Lw { dest, src, offset } => lemma_r2i_op(0xc, dest, src, offset@),
        Instruction::Sw { src, dest, offset } => lemma_r2i_op(0xd, src, dest, offset@),
        Instruction::Syscall { src1, src2, src3 } => lemma_r3(0x73, src1, src2, src3),
    }
}

proof fn lemma_r3(op: u8, a: Register, b: Register, c: Register)
    ensures
        enc_r3(op, a, b, c) as u8 == op,
        dec_reg(enc_r3(op, a, b, c), 8) == a,
        dec_reg(enc_r3(op, a, b, c), 13) == b,
        dec_reg(enc_r3(op, a, b, c), 18) == c,
{
    let (x, y, z) = (a.spec_index(), b.spec_index(), c.spec_index());
    let w = enc_r3(op, a, b, c);
    assert(w as u8 == op && (w >> 8) & 0x1f == x && (w >> 13) & 0x1f == y && (w >> 18) & 0x1f == z)
        by (bit_vector)
        requires
            w == op as u32 | (x & 0x1f) << 8 | (y & 0x1f) << 13 | (z & 0x1f) << 18,
            x < 32,
            y < 32,
            z < 32,
    ;
    crate::isa::register::lemma_register_index_roundtrip(a);
    crate::isa::register::lemma_register_index_roundtrip(b);
    crate::isa::register::lemma_register_index_roundtrip(c);
}

proof fn lemma_r2i_op(op: u8, a: Register, b: Register, imm: i32)
    ensures
        enc_r2i(op, a, b, imm) as u8 == op,
{
    let (x, y, u) = (a.spec_index(), b.spec_index(), imm as u32);
    let w = enc_r2i(op, a, b, imm);
    assert(w as u8 == op) by (bit_vector)
        requires
            w == op as u32 | (x & 0x1f) << 8 | (y & 0x1f) << 13 | (u & 0x3fff) << 18,
    ;
}

proof fn lemma_ri_op(op: u8, a: Register, imm: i32)
    ensures
        enc_ri(op, a, imm) as u8 == op,
{
    let (x, u) = (a.spec_index(), imm as u32);
    let w = enc_ri(op, a, imm);
    assert(w as u8 == op) by (bit_vector)
        requires
            w == op as u32 | (x & 0x1f) << 8 | (u & 0x7ffff) << 13,
    ;
}

proof fn lemma_r2i(op: u8, a: Register, b: Register, imm: i32)
    requires
        -8192 <= imm <= 8191,
    ensures
        enc_r2i(op, a, b, imm) as u8 == op,
        dec_reg(enc_r2i(op, a, b, imm), 8) == a,
        dec_reg(enc_r2i(op, a, b, imm), 13) == b,
        dec_imm14(enc_r2i(op, a, b, imm)) == imm,
{
    let (x, y, u) = (a.spec_index(), b.spec_index(), imm as u32);
    let w = enc_r2i(op, a, b, imm);
    assert(w as u8 == op && (w >> 8) & 0x1f == x && (w >> 13) & 0x1f == y && (w >> 18) & 0x3fff
        == u & 0x3fff) by (bit_vector)
        requires
            w == op as u32 | (x & 0x1f) << 8 | (y & 0x1f) << 13 | (u & 0x3fff) << 18,
            x < 32,
            y < 32,
    ;
    crate::isa::register::lemma_register_index_roundtrip(a);
    crate::isa::register::lemma_register_index_roundtrip(b);
    lemma_sign_extend_14(imm);
}

proof fn lemma_ri(op: u8, a: Register, imm: i32)
    requires
        -262144 <= imm <= 262143,
    ensures
        enc_ri(op, a, imm) as u8 == op,
        dec_reg(enc_ri(op, a, imm), 8) == a,
        dec_imm19(enc_ri(op, a, imm)) == imm,
{
    let (x, u) = (a.spec_index(), imm as u32);
    let w = enc_ri(op, a, imm);
    assert(w as u8 == op && (w >> 8) & 0x1f == x && (w >> 13) & 0x7ffff == u & 0x7ffff)
        by (bit_vector)
        requires
            w == op as u32 | (x & 0x1f) << 8 | (u & 0x7ffff) << 13,
            x < 32,
    ;
    crate::isa::register::lemma_register_index_roundtrip(a);
    lemma_sign_extend_19(imm);
}

proof fn lemma_sign_extend_14(v: i32)
    requires
        -8192 <= v <= 8191,
    ensures
        sign_extend((v as u32) & 0x3fff, 14) == v,
{
    vstd::arithmetic::power2::lemma2_to64();
    let u = (v as u32) & 0x3fff;
    assert(v >= 0 ==> u == v as u32) by (bit_vector)
        requires
            u == (v as u32) & 0x3fff,
            -8192 <= v <= 8191,
    ;
    assert(v < 0 ==> u == (v + 16384) as u32) by (bit_vector)
        requires
            u == (v as u32) & 0x3fff,
            -8192 <= v <= 8191,
    ;
}

proof fn lemma_sign_extend_19(v: i32)
    requires
        -262144 <= v <= 262143,
    ensures
        sign_extend((v as u32) & 0x7ffff, 19) == v,
{
    vstd::arithmetic::power2::lemma2_to64();
    let u = (v as u32) & 0x7ffff;
    assert(v >= 0 ==> u == v as u32) by (bit_vector)
        requires
            u == (v as u32) & 0x7ffff,
            -262144 <= v <= 262143,
    ;
    assert(v < 0 ==> u == (v + 524288) as u32) by (bit_vector)
        requires
            u == (v as u32) & 0x7ffff,
            -262144 <= v <= 262143,
    ;
}

/// The widths of the two immediate fields.
proof fn lemma_field_widths()
    ensures
        spec_trailing_ones(0x3fff) == 14,
        spec_trailing_ones(0x7ffff) == 19,
        pow2(14) == 0x4000,
        pow2(19) == 0x80000,
        pow2(13) == 0x2000,
        pow2(18) == 0x40000,
{
    vstd::arithmetic::power2::lemma2_to64();
    crate::isa::operand::lemma_trailing_ones_low_mask(14);
    crate::isa::operand::lemma_trailing_ones_low_mask(19);
    assert((1u32 << 14u32) - 1 == 0x3fff && (1u32 << 19u32) - 1 == 0x7ffff) by (bit_vector);
}

/// Each register field of a word decodes to a register.
proof fn lemma_reg_fields(w: u32)
    ensures
        (w >> 8) & 0x1f < 32,
        (w >> 13) & 0x1f < 32,
        (w >> 18) & 0x1f < 32,
        (w >> 18) & 0x3fff < 0x4000,
        (w >> 13) & 0x7ffff < 0x80000,
{
    assert((w >> 8) & 0x1f < 32) by (bit_vector);
    assert((w >> 13) & 0x1f < 32) by (bit_vector);
    assert((w >> 18) & 0x1f < 32) by (bit_vector);
    assert((w >> 18) & 0x3fff < 0x4000) by (bit_vector);
    assert((w >> 13) & 0x7ffff < 0x80000) by (bit_vector);
}

} // verus!
