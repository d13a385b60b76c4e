//! Instructions as the parser reads them: a mnemonic and up to three operands.
use vstd::prelude::*;

use crate::assembler::helper::{parse_int, spec_parse_int, IntErrorKind};
use crate::assembler::interner::StrId;
use crate::assembler::lexer::scan::literal_kind;
use crate::assembler::parser::grammar::OperandRuleType;
use crate::assembler::token::helper::spec_head_len;
use crate::assembler::token::{IdentifierType, LiteralIntegerType, Token};
use crate::isa::instruction::Mnemonic;
use crate::isa::operand::{Immediate14, Immediate19, ImmediateValueError};
use crate::isa::Register;
use crate::shared::{EnumCount, EnumVariants};

verus! {

/// Instructions that the assembler turns into others.
#[derive(Debug, Clone, Copy, PartialEq, Eq, Structural)]
pub enum PseudoMnemonic {
    /// No operation: `addi x0, x0, 0`
    Nop,
    /// Copy a register: `mv a5, a7` is `addi a5, a7, 0`
    Mv,
    /// Load an immediate
    Li,
}

impl EnumCount for PseudoMnemonic {
    const VARIANT_COUNT: usize = 3;
}

impl EnumVariants<3> for PseudoMnemonic {
    fn variants() -> (r: [&'static str; 3])
        ensures
            r@ == seq!["nop", "mv", "li"],
    {
        ["nop", "mv", "li"]
    }
}

/// An instruction: its mnemonic and its operands.
#[derive(Debug, Clone, Copy)]
pub struct Instruction {
    pub mnemonic: Mnemonic,
    pub operands: Operands,
}

impl View for Instruction {
    type V = (Mnemonic, Seq<Operand>);

    open spec fn view(&self) -> (Mnemonic, Seq<Operand>) {
        (self.mnemonic, self.operands.0@)
    }
}

impl Instruction {
    pub fn new(mnemonic: Mnemonic, operands: Operands) -> (r: Instruction)
        ensures
            r.mnemonic == mnemonic,
            r.operands == operands,
    {
        Instruction { mnemonic, operands }
    }
}

/// Why an operand could not be read.
#[derive(Debug, Clone, Copy, PartialEq, Eq, Structural)]
pub enum OperandError {
    /// The value does not fit into the immediate
    ImmediateError(ImmediateValueError),
    /// The digits are no `i32`
    ParseIntError(IntErrorKind),
}

/// The places of the operands.
#[derive(Debug, Clone, Copy, PartialEq, Eq, Structural)]
pub enum OperandsIndex {
    Dest,
    Src1,
    Src2,
}

impl EnumCount for OperandsIndex {
    const VARIANT_COUNT: usize = 3;
}

impl OperandsIndex {
    /// The position of the place.
    pub open spec fn spec_pos(self) -> int {
        match self {
            OperandsIndex::Dest => 0,
            OperandsIndex::Src1 => 1,
            OperandsIndex::Src2 => 2,
        }
    }
}

/// An operand.
#[derive(Debug, Clone, Copy)]
pub enum Operand {
    Symbol(StrId),
    Register(Register),
    Imm14(Immediate14),
    Imm19(Immediate19),
    Empty,
}

impl Operand {
    /// No operand.
    pub fn default() -> (r: Operand)
        ensures
            r == Operand::Empty,
    {
        Operand::Empty
    }
}

/// The operands `[dest, src1, src2]`.
#[derive(Debug, Clone, Copy)]
pub struct Operands(pub [Operand; 3]);

impl Operands {
    /// Three empty places.
    pub fn new() -> (r: Operands)
        ensures
            r.0@ == seq![Operand::Empty, Operand::Empty, Operand::Empty],
    {
        let r = Operands([Operand::Empty, Operand::Empty, Operand::Empty]);
        assert(r.0@ =~= seq![Operand::Empty, Operand::Empty, Operand::Empty]);
        r
    }

    /// The operands in order.
    pub fn iter(&self) -> (r: &[Operand])
        ensures
            r@ == self.0@,
    {
        self.0.as_slice()
    }

    /// The operands in order, to change them.
    pub fn iter_mut(&mut self) -> (r: &mut [Operand; 3])
        ensures
            *r == old(self).0,
            final(self).0 == *final(r),
    {
        &mut self.0
    }

    /// Copy `src` into the first places; the others keep their operands.
    pub fn copy_from_slice(&mut self, src: &[Operand])
        requires
            src@.len() <= 3,
        ensures
            final(self).0@ == src@ + old(self).0@.subrange(src@.len() as int, 3),
    {
        let mut i: usize = 0;
        while i < src.len()
            invariant
                i <= src@.len() <= 3,
                self.0@.len() == 3,
                self.0@ == src@.subrange(0, i as int) + old(self).0@.subrange(i as int, 3),
            decreases src@.len() - i,
        {
            let ghost before = self.0@;
            self.0[i] = src[i];
            assert(self.0@ =~= src@.subrange(0, i + 1) + old(self).0@.subrange(i + 1, 3));
            i = i + 1;
        }
        assert(src@.subrange(0, src@.len() as int) =~= src@);
    }

    /// Number of places.
    pub fn len(&self) -> (r: usize)
        ensures
            r == 3,
    {
        self.0.len()
    }

    /// The operand at a place.
    pub fn index(&self, index: OperandsIndex) -> (r: &Operand)
        ensures
            *r == self.0@[index.spec_pos()],
    {
        match index {
            OperandsIndex::Dest => &self.0[0],
            OperandsIndex::Src1 => &self.0[1],
            OperandsIndex::Src2 => &self.0[2],
        }
    }

    /// Change the operand at a place.
    pub fn set(&mut self, index: OperandsIndex, value: Operand)
        ensures
            final(self).0@ == old(self).0@.update(index.spec_pos(), value),
    {
        match index {
            OperandsIndex::Dest => {
                self.0[0] = value;
            },
            OperandsIndex::Src1 => {
                self.0[1] = value;
            },
            OperandsIndex::Src2 => {
                self.0[2] = value;
            },
        }
    }
}

/// The radix of the literal kind `k`.
pub open spec fn kind_base(k: u8) -> nat {
    if k == 0 {
        10
    } else if k == 1 {
        16
    } else {
        2
    }
}

/// The operand that the token `t`, written `slice`, gives in a place of pattern `rule`: a
/// symbol (its name id still to be set), a register, an immediate of 14 bits in the patterns
/// with two registers or a register in parentheses, of 19 bits in the pattern with one
/// register, or no operand.
pub open spec fn spec_operand(t: Token, rule: OperandRuleType, slice: Seq<u8>) -> Result<
    Operand,
    OperandError,
> {
    match t {
        Token::Identifier(IdentifierType::Symbol) => Ok(Operand::Symbol(StrId(0))),
        Token::Identifier(IdentifierType::Register(r)) => Ok(Operand::Register(r)),
        _ => if t.spec_is_literal_integer() && (rule == OperandRuleType::R2I || rule
            == OperandRuleType::RIR || rule == OperandRuleType::RI) {
            let k = literal_kind(t);
            let negative = slice[0] == 45;
            let prefix = spec_head_len(k) + (if negative {
                1int
            } else {
                0int
            });
            let digits = slice.subrange(prefix, slice.len() as int);
            match spec_parse_int(digits, kind_base(k), negative, i32::MIN as int, i32::MAX as int) {
                Err(e) => Err(OperandError::ParseIntError(e)),
                Ok(v) => if rule == OperandRuleType::RI {
                    if Immediate19::in_range(v) {
                        Ok(Operand::Imm19(Immediate19::spec_from_value(v as i32)))
                    } else {
                        Err(
                            OperandError::ImmediateError(
                                ImmediateValueError::OutOfRange { value: v as i32, bits: 19 },
                            ),
                        )
                    }
                } else {
                    if Immediate14::in_range(v) {
                        Ok(Operand::Imm14(Immediate14::spec_from_value(v as i32)))
                    } else {
                        Err(
                            OperandError::ImmediateError(
                                ImmediateValueError::OutOfRange { value: v as i32, bits: 14 },
                            ),
                        )
                    }
                },
            }
        } else {
            Ok(Operand::Empty)
        },
    }
}

impl Operand {
    /// The operand that `token`, written `slice`, gives in a place of pattern `rule`; see
    /// `spec_operand`. A negative literal is read with its sign.
    pub fn try_from(token: Token, rule: OperandRuleType, slice: &[u8]) -> (r: Result<
        Operand,
        OperandError,
    >)
        requires
            token.spec_is_literal_integer() ==> slice@.len() >= 1 && spec_head_len(
                literal_kind(token),
            ) + (if slice@[0] == 45 {
                1int
            } else {
                0int
            }) <= slice@.len(),
        ensures
            r == spec_operand(token, rule, slice@),
    {
        match token {
            Token::Identifier(IdentifierType::Symbol) => Ok(Operand::Symbol(StrId::default())),
            Token::Identifier(IdentifierType::Register(r)) => Ok(Operand::Register(r)),
            Token::LiteralDecimal | Token::LiteralHex | Token::LiteralBinary => {
                if !matches!(rule, OperandRuleType::R2I | OperandRuleType::RIR | OperandRuleType::RI) {
                    return Ok(Operand::Empty);
                }
                let first = slice[0];
                let int_ty = LiteralIntegerType::from_token(token);
                let k = int_ty.id();
                let prefix = LiteralIntegerType::prefix_len(first, k);
                let digits = vstd::slice::slice_subrange(slice, prefix, slice.len());
                let negative = LiteralIntegerType::is_signed(first);
                let base = int_ty.base();
                let imm = match parse_int(digits, base, negative, -0x8000_0000, 0x7fff_ffff) {
                    Ok(v) => v as i32,
                    Err(e) => {
                        return Err(OperandError::ParseIntError(e));
                    },
                };
                match rule {
                    OperandRuleType::R2I | OperandRuleType::RIR => match Immediate14::try_new(imm) {
                        Ok(i) => {
                            proof {
                                Immediate14::lemma_from_value(imm, i);
                            }
                            Ok(Operand::Imm14(i))
                        },
                        Err(e) => Err(OperandError::ImmediateError(e)),
                    },
                    _ => match Immediate19::try_new(imm) {
                        Ok(i) => {
                            proof {
                                Immediate19::lemma_from_value(imm, i);
                            }
                            Ok(Operand::Imm19(i))
                        },
                        Err(e) => Err(OperandError::ImmediateError(e)),
                    },
                }
            },
            _ => Ok(Operand::Empty),
        }
    }
}

} // verus!
