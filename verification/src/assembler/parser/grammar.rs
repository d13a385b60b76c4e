//! The operand patterns of the instructions.
use vstd::prelude::*;

use crate::assembler::token::{IdentifierType, Token};
use crate::isa::instruction::{InstructionType, Mnemonic};

verus! {

/// What the parser expects at a place of a line.
#[derive(Debug, Clone, Copy, PartialEq, Eq, Structural)]
pub enum RuleToken {
    Register,
    Comma,
    Label,
    SymbolOrNumeric,
    ParenL,
    ParenR,
    Operator,
    // The tokens below are only matched one at a time, never in a sequence.
    Symbol,
    LiteralString,
    SectionDir,
    InstructionOrDir,
    OperatorOrBreak,
    Break,
}

/// Whether `t` is what `rule` expects, for the rules that occur in sequences and `Break`.
pub open spec fn spec_matches_rule(t: Token, rule: RuleToken) -> bool {
    match rule {
        RuleToken::Register => t is Identifier && t->Identifier_0 is Register,
        RuleToken::Label => t == Token::Label,
        RuleToken::SymbolOrNumeric => t.spec_is_symbol_or_numeric(),
        RuleToken::Operator => t.spec_is_operator(),
        RuleToken::ParenR => t == Token::ParenR,
        RuleToken::ParenL => t == Token::ParenL,
        RuleToken::Comma => t == Token::Comma,
        RuleToken::Break => t.spec_is_break(),
        _ => false,
    }
}

impl Token {
    /// Whether the token is what `rule` expects. The rules only matched one at a time, but
    /// `Break`, match no token here.
    pub fn eq_rule(&self, rule: &RuleToken) -> (r: bool)
        ensures
            r == spec_matches_rule(*self, *rule),
    {
        match (*self, *rule) {
            (Token::Identifier(IdentifierType::Register(_)), RuleToken::Register) => true,
            (Token::Label, RuleToken::Label) => true,
            (
                Token::LiteralDecimal
                | Token::LiteralHex
                | Token::LiteralBinary
                | Token::Identifier(IdentifierType::Symbol),
                RuleToken::SymbolOrNumeric,
            ) => true,
            (Token::Positive | Token::Negative, RuleToken::Operator) => true,
            (Token::ParenR, RuleToken::ParenR) => true,
            (Token::ParenL, RuleToken::ParenL) => true,
            (Token::Comma, RuleToken::Comma) => true,
            (Token::Eol | Token::Eof, RuleToken::Break) => true,
            _ => false,
        }
    }
}

impl RuleToken {
    /// Number of rules that occur in sequences.
    pub fn token_count() -> (r: usize)
        ensures
            r == 7,
    {
        13 - Self::hidden_count()
    }

    /// The rules that occur in sequences.
    pub fn sequence() -> (r: [RuleToken; 7])
        ensures
            r@ == seq![
                RuleToken::Register,
                RuleToken::Comma,
                RuleToken::SymbolOrNumeric,
                RuleToken::Label,
                RuleToken::ParenL,
                RuleToken::ParenR,
                RuleToken::Operator,
            ],
    {
        let r = [
            RuleToken::Register,
            RuleToken::Comma,
            RuleToken::SymbolOrNumeric,
            RuleToken::Label,
            RuleToken::ParenL,
            RuleToken::ParenR,
            RuleToken::Operator,
        ];
        assert(r@ =~= seq![
            RuleToken::Register,
            RuleToken::Comma,
            RuleToken::SymbolOrNumeric,
            RuleToken::Label,
            RuleToken::ParenL,
            RuleToken::ParenR,
            RuleToken::Operator,
        ]);
        r
    }

    /// Number of rules only matched one at a time.
    pub fn hidden_count() -> (r: usize)
        ensures
            r == 6,
    {
        let hidden = [
            RuleToken::Symbol,
            RuleToken::LiteralString,
            RuleToken::SectionDir,
            RuleToken::InstructionOrDir,
            RuleToken::Break,
            RuleToken::OperatorOrBreak,
        ];
        hidden.len()
    }

    /// What the rule is called in messages.
    pub open spec fn spec_name(self) -> &'static str {
        match self {
            RuleToken::Register => "register",
            RuleToken::Comma => "COMMA",
            RuleToken::Label => "label",
            RuleToken::ParenL => "(",
            RuleToken::ParenR => ")",
            RuleToken::Break => "EOL|EOF",
            RuleToken::Symbol => "symbol",
            RuleToken::LiteralString => "string",
            RuleToken::SectionDir => ".text|.data|.rodata|.bss",
            RuleToken::InstructionOrDir => "instruction|directive",
            RuleToken::SymbolOrNumeric => "symbol|decimal|hex|binary",
            RuleToken::Operator => "+|-",
            RuleToken::OperatorOrBreak => "EOL|EOF|+|-",
        }
    }

    /// What the rule is called in messages: the names of the tokens it accepts, apart by `|`.
    pub fn name(&self) -> (r: &'static str)
        ensures
            r == self.spec_name(),
    {
        match *self {
            RuleToken::Register => "register",
            RuleToken::Comma => "COMMA",
            RuleToken::Label => "label",
            RuleToken::ParenL => "(",
            RuleToken::ParenR => ")",
            RuleToken::Break => "EOL|EOF",
            RuleToken::Symbol => "symbol",
            RuleToken::LiteralString => "string",
            RuleToken::SectionDir => ".text|.data|.rodata|.bss",
            RuleToken::InstructionOrDir => "instruction|directive",
            RuleToken::SymbolOrNumeric => "symbol|decimal|hex|binary",
            RuleToken::Operator => "+|-",
            RuleToken::OperatorOrBreak => "EOL|EOF|+|-",
        }
    }
}

/// The operand patterns.
#[derive(Debug, Clone, Copy, PartialEq, Eq, Structural)]
pub enum OperandRuleType {
    /// Register, Register, Register
    R3,
    /// Register, Register, Immediate
    R2I,
    /// Register, Register, Label
    R2L,
    /// Register, Immediate(Register)
    RIR,
    /// Register, Immediate
    RI,
    /// Register, Label
    RL,
}

/// The operand pattern of each mnemonic.
pub open spec fn spec_rule_of_mnemonic(m: Mnemonic) -> OperandRuleType {
    match m {
        Mnemonic::AddI => OperandRuleType::R2I,
        Mnemonic::Lui => OperandRuleType::RI,
        Mnemonic::Lw => OperandRuleType::RIR,
        Mnemonic::Sw => OperandRuleType::RIR,
        _ => OperandRuleType::R3,
    }
}

/// The operand pattern of each instruction shape.
pub open spec fn spec_rule_of_type(t: InstructionType) -> OperandRuleType {
    match t {
        InstructionType::Arithmetic => OperandRuleType::R3,
        InstructionType::IA => OperandRuleType::R2I,
        InstructionType::IJ => OperandRuleType::R2I,
        InstructionType::IL => OperandRuleType::RIR,
        InstructionType::S => OperandRuleType::RIR,
        InstructionType::B => OperandRuleType::R2L,
        InstructionType::J => OperandRuleType::RL,
        InstructionType::U => OperandRuleType::RI,
    }
}

/// The tokens a line must hold after the mnemonic, for each pattern.
pub open spec fn spec_rule_sequence(ty: OperandRuleType) -> Seq<RuleToken> {
    match ty {
        OperandRuleType::R3 => seq![
            RuleToken::Register,
            RuleToken::Comma,
            RuleToken::Register,
            RuleToken::Comma,
            RuleToken::Register,
        ],
        OperandRuleType::R2I => seq![
            RuleToken::Register,
            RuleToken::Comma,
            RuleToken::Register,
            RuleToken::Comma,
            RuleToken::SymbolOrNumeric,
        ],
        OperandRuleType::RI => seq![
            RuleToken::Register,
            RuleToken::Comma,
            RuleToken::SymbolOrNumeric,
        ],
        OperandRuleType::RIR => seq![
            RuleToken::Register,
            RuleToken::Comma,
            RuleToken::SymbolOrNumeric,
            RuleToken::ParenL,
            RuleToken::Register,
            RuleToken::ParenR,
        ],
        OperandRuleType::R2L => seq![
            RuleToken::Register,
            RuleToken::Comma,
            RuleToken::Register,
            RuleToken::Comma,
            RuleToken::Label,
        ],
        OperandRuleType::RL => seq![RuleToken::Register, RuleToken::Comma, RuleToken::Label],
    }
}

impl OperandRuleType {
    /// Register, Register, Immediate.
    pub fn default() -> (r: OperandRuleType)
        ensures
            r == OperandRuleType::R2I,
    {
        OperandRuleType::R2I
    }

    /// Operands stand at every second token; the others are commas and parentheses.
    pub fn noises_in_every() -> (r: usize)
        ensures
            r == 2,
    {
        2
    }

    /// The pattern of an instruction shape.
    pub fn from_instruction_type(value: InstructionType) -> (r: OperandRuleType)
        ensures
            r == spec_rule_of_type(value),
    {
        match value {
            InstructionType::Arithmetic => OperandRuleType::R3,
            InstructionType::IA => OperandRuleType::R2I,
            InstructionType::IJ => OperandRuleType::R2I,
            InstructionType::IL => OperandRuleType::RIR,
            InstructionType::S => OperandRuleType::RIR,
            InstructionType::B => OperandRuleType::R2L,
            InstructionType::J => OperandRuleType::RL,
            InstructionType::U => OperandRuleType::RI,
        }
    }

    /// The pattern of a mnemonic.
    pub fn from_mnemonic(value: Mnemonic) -> (r: OperandRuleType)
        ensures
            r == spec_rule_of_mnemonic(value),
    {
        match value {
            Mnemonic::Add => OperandRuleType::R3,
            Mnemonic::Sub => OperandRuleType::R3,
            Mnemonic::Mul => OperandRuleType::R3,
            Mnemonic::And => OperandRuleType::R3,
            Mnemonic::Or => OperandRuleType::R3,
            Mnemonic::Xor => OperandRuleType::R3,
            Mnemonic::Shl => OperandRuleType::R3,
            Mnemonic::Shr => OperandRuleType::R3,
            Mnemonic::ShrA => OperandRuleType::R3,
            Mnemonic::AddI => OperandRuleType::R2I,
            Mnemonic::Lui => OperandRuleType::RI,
            Mnemonic::Lw => OperandRuleType::RIR,
            Mnemonic::Sw => OperandRuleType::RIR,
            Mnemonic::Syscall => OperandRuleType::R3,
        }
    }
}

/// The operand pattern of a mnemonic, and the tokens it expects.
pub struct InstructionRule {
    sequence: [RuleToken; 7],
    ty: OperandRuleType,
}

impl InstructionRule {
    /// The pattern of the rule.
    pub closed spec fn spec_ty(&self) -> OperandRuleType {
        self.ty
    }

    /// The sequence starts with a register and a comma, as every pattern does.
    pub closed spec fn wf(&self) -> bool {
        self.sequence@[0] == RuleToken::Register && self.sequence@[1] == RuleToken::Comma
    }

    /// The rule of `mnemonic`.
    pub fn new(mnemonic: Mnemonic) -> (r: InstructionRule)
        ensures
            r.wf(),
            r.spec_ty() == spec_rule_of_mnemonic(mnemonic),
    {
        InstructionRule {
            sequence: RuleToken::sequence(),
            ty: OperandRuleType::from_mnemonic(mnemonic),
        }
    }

    /// The pattern.
    pub fn ty(&self) -> (r: OperandRuleType)
        ensures
            r == self.spec_ty(),
    {
        self.ty
    }

    /// The tokens the line must hold after the mnemonic.
    pub fn generate_sequence(&mut self) -> (r: Vec<RuleToken>)
        requires
            old(self).wf(),
        ensures
            final(self).wf(),
            final(self).spec_ty() == old(self).spec_ty(),
            r@ == spec_rule_sequence(old(self).spec_ty()),
    {
        let last_id: usize = match self.ty {
            OperandRuleType::R3 => {
                self.sequence[2] = RuleToken::Register;
                self.sequence[3] = RuleToken::Comma;
                self.sequence[4] = RuleToken::Register;
                4
            },
            OperandRuleType::R2I => {
                self.sequence[2] = RuleToken::Register;
                self.sequence[3] = RuleToken::Comma;
                self.sequence[4] = RuleToken::SymbolOrNumeric;
                4
            },
            OperandRuleType::RI => {
                self.sequence[2] = RuleToken::SymbolOrNumeric;
                2
            },
            OperandRuleType::RIR => {
                self.sequence[2] = RuleToken::SymbolOrNumeric;
                self.sequence[3] = RuleToken::ParenL;
                self.sequence[4] = RuleToken::Register;
                self.sequence[5] = RuleToken::ParenR;
                5
            },
            OperandRuleType::R2L => {
                self.sequence[2] = RuleToken::Register;
                self.sequence[3] = RuleToken::Comma;
                self.sequence[4] = RuleToken::Label;
                4
            },
            OperandRuleType::RL => {
                self.sequence[2] = RuleToken::Label;
                2
            },
        };
        let mut out: Vec<RuleToken> = Vec::new();
        let mut i: usize = 0;
        while i <= last_id
            invariant
                last_id < 7,
                i <= last_id + 1,
                out@ == self.sequence@.subrange(0, i as int),
            decreases last_id + 1 - i,
        {
            out.push(self.sequence[i]);
            i = i + 1;
        }
        assert(out@ =~= spec_rule_sequence(self.ty));
        out
    }
}

} // verus!
