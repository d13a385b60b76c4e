//! The tokens of the assembly language.
pub mod helper;

use vstd::prelude::*;

pub use crate::assembler::token::helper::{IdentifierType, LexingError, LiteralIntegerType};
use crate::assembler::assembly::directive::DirectiveType;
use crate::isa::instruction::Mnemonic;
use crate::isa::Register;

verus! {

/// A token of the assembly language.
#[derive(Debug, PartialEq, Eq, Copy, Clone, Structural)]
pub enum Token {
    /// `[a-zA-Z_]\w+`: a mnemonic, a register or a symbol
    Identifier(IdentifierType),
    /// `[a-zA-Z]\w+:`
    Label,
    /// `\.[a-zA-Z]\w+`
    Directive(DirectiveType),
    /// A double-quoted string, with backslash escapes
    LiteralString,
    /// `-?\d+` with an optional suffix, which is refused
    LiteralDecimal,
    /// `-?0x[0-9a-fA-F]+` with an optional suffix, which is refused
    LiteralHex,
    /// `-?0b[01]+` with an optional suffix, which is refused
    LiteralBinary,
    /// `-`
    Negative,
    /// `+`
    Positive,
    /// `)`
    ParenR,
    /// `(`
    ParenL,
    /// `'`
    QuoteSingle,
    /// `,`
    Comma,
    /// `:`
    Colon,
    /// A newline
    Eol,
    /// The end of the input
    Eof,
    /// `;`, `#` or `//` up to the end of the line; skipped by the lexer
    CommentSingleLine,
}

impl Token {
    /// The default token: the end of a line.
    pub fn default() -> (r: Token)
        ensures
            r == Token::Eol,
    {
        Token::Eol
    }

    /// The token that stands for every register.
    pub fn register() -> (r: Token)
        ensures
            r == Token::Identifier(IdentifierType::Register(Register::X0)),
    {
        Token::Identifier(IdentifierType::Register(Register::X0))
    }

    /// The token that stands for every mnemonic.
    pub fn mnemonic() -> (r: Token)
        ensures
            r == Token::Identifier(IdentifierType::Mnemonic(Mnemonic::Add)),
    {
        Token::Identifier(IdentifierType::Mnemonic(Mnemonic::Add))
    }

    /// The token that stands for every directive.
    pub fn directive() -> (r: Token)
        ensures
            r == Token::Directive(DirectiveType::Text),
    {
        Token::Directive(DirectiveType::Text)
    }

    /// The token of a symbol.
    pub fn symbol() -> (r: Token)
        ensures
            r == Token::Identifier(IdentifierType::Symbol),
    {
        Token::Identifier(IdentifierType::Symbol)
    }

    /// Whether this is a symbol.
    pub open spec fn spec_is_symbol(self) -> bool {
        self == Token::Identifier(IdentifierType::Symbol)
    }

    /// Whether this is an integer literal.
    pub open spec fn spec_is_literal_integer(self) -> bool {
        ||| self == Token::LiteralDecimal
        ||| self == Token::LiteralHex
        ||| self == Token::LiteralBinary
    }

    /// Whether this is a symbol or an integer literal.
    pub open spec fn spec_is_symbol_or_numeric(self) -> bool {
        self.spec_is_literal_integer() || self.spec_is_symbol()
    }

    /// Whether this is `+` or `-`.
    pub open spec fn spec_is_operator(self) -> bool {
        self == Token::Positive || self == Token::Negative
    }

    /// Whether this ends a line: a newline or the end of the input.
    pub open spec fn spec_is_break(self) -> bool {
        self == Token::Eol || self == Token::Eof
    }

    /// Whether this is a directive that names a section.
    pub open spec fn spec_is_section_dir(self) -> bool {
        match self {
            Token::Directive(d) => d == DirectiveType::Text || d == DirectiveType::Data || d
                == DirectiveType::Rodata || d == DirectiveType::Bss || d
                == DirectiveType::CustomSection,
            _ => false,
        }
    }

    /// Whether this is a symbol.
    pub fn is_symbol(&self) -> (r: bool)
        ensures
            r == self.spec_is_symbol(),
    {
        matches!(*self, Token::Identifier(IdentifierType::Symbol))
    }

    /// Whether this is an integer literal.
    pub fn is_literal_integer(&self) -> (r: bool)
        ensures
            r == self.spec_is_literal_integer(),
    {
        matches!(*self, Token::LiteralDecimal | Token::LiteralHex | Token::LiteralBinary)
    }

    /// Whether this is a symbol or an integer literal.
    pub fn is_symbol_or_numeric(&self) -> (r: bool)
        ensures
            r == self.spec_is_symbol_or_numeric(),
    {
        self.is_literal_integer() || self.is_symbol()
    }

    /// Whether this is `+` or `-`.
    pub fn is_operator(&self) -> (r: bool)
        ensures
            r == self.spec_is_operator(),
    {
        matches!(*self, Token::Positive | Token::Negative)
    }

    /// Whether this ends a line.
    pub fn is_break(&self) -> (r: bool)
        ensures
            r == self.spec_is_break(),
    {
        matches!(*self, Token::Eol | Token::Eof)
    }

    /// Whether this is a directive that names a section.
    pub fn is_section_dir(&self) -> (r: bool)
        ensures
            r == self.spec_is_section_dir(),
    {
        match *self {
            Token::Directive(d) => matches!(
                d,
                DirectiveType::Text | DirectiveType::Data | DirectiveType::Rodata
                    | DirectiveType::Bss | DirectiveType::CustomSection
            ),
            _ => false,
        }
    }

    /// What the token is called in messages.
    pub open spec fn spec_name(self) -> &'static str {
        match self {
            Token::Identifier(IdentifierType::Mnemonic(_)) => "instruction",
            Token::Identifier(IdentifierType::Register(_)) => "register",
            Token::Identifier(IdentifierType::Symbol) => "symbol",
            Token::Label => "label",
            Token::Directive(_) => "directive",
            Token::LiteralString => "string",
            Token::LiteralDecimal => "decimal",
            Token::LiteralHex => "hex",
            Token::LiteralBinary => "binary",
            Token::Positive => "+",
            Token::Negative => "-",
            Token::ParenR => ")",
            Token::ParenL => "(",
            Token::QuoteSingle => "single quote",
            Token::Comma => "COMMA",
            Token::Colon => "COLON",
            Token::Eol => "EOL",
            Token::Eof => "EOF",
            Token::CommentSingleLine => "#|//",
        }
    }

    /// What the token is called in messages.
    pub fn name(&self) -> (r: &'static str)
        ensures
            r == self.spec_name(),
    {
        match *self {
            Token::Identifier(IdentifierType::Mnemonic(_)) => "instruction",
            Token::Identifier(IdentifierType::Register(_)) => "register",
            Token::Identifier(IdentifierType::Symbol) => "symbol",
            Token::Label => "label",
            Token::Directive(_) => "directive",
            Token::LiteralString => "string",
            Token::LiteralDecimal => "decimal",
            Token::LiteralHex => "hex",
            Token::LiteralBinary => "binary",
            Token::Positive => "+",
            Token::Negative => "-",
            Token::ParenR => ")",
            Token::ParenL => "(",
            Token::QuoteSingle => "single quote",
            Token::Comma => "COMMA",
            Token::Colon => "COLON",
            Token::Eol => "EOL",
            Token::Eof => "EOF",
            Token::CommentSingleLine => "#|//",
        }
    }
}

} // verus!
