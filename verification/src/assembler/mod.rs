//! The assembler: source text to tokens, tokens to an intermediate representation.
pub mod assembly;
pub mod exprs;
pub mod helper;
pub mod instruction;
pub mod interner;
pub mod ir;
pub mod layout;
pub mod lexer;
pub mod parser;
pub mod symbol_table;
pub mod token;

use vstd::prelude::*;

use crate::assembler::lexer::scan::{lemma_tokenize, spec_tokenize, LexFault};
use crate::assembler::lexer::Lexer;
use crate::assembler::parser::spec::{empty_ir, spec_parse_from, PState};
use crate::assembler::parser::{Parser, ParserError, ParserFault};
use crate::assembler::symbol_table::SymbolTable;
use crate::assembler::token::LexingError;

verus! {

/// Why a source could not be assembled.
#[derive(Debug, Clone, PartialEq, Eq)]
pub enum AssemblerError {
    /// The source could not be split into tokens
    LexerError(LexingError),
    /// The tokens could not be parsed
    ParserErrorError(ParserError),
}

/// What assembling `s` gives: the parsed program from the tokens of `s`, or the first error of
/// the lexer, or else of the parser.
pub open spec fn spec_assemble(s: Seq<u8>) -> Result<PState, Result<LexFault, ParserFault>> {
    match spec_tokenize(s) {
        Err(f) => Err(Ok(f)),
        Ok((ts, sps)) => match spec_parse_from(
            s,
            ts,
            sps,
            PState { index: 0, constants: Map::empty(), ir: empty_ir() },
        ) {
            Err(f) => Err(Err(f)),
            Ok(st) => Ok(st),
        },
    }
}

/// Assembles sources.
pub struct Assembler {}

impl Assembler {
    pub fn new() -> (r: Assembler) {
        Assembler {  }
    }

    /// Split `source` into tokens and parse them; see `spec_assemble`.
    pub fn assemble(&mut self, source: &[u8]) -> (r: Result<(), AssemblerError>)
        requires
            source@.len() < usize::MAX / 4,
        ensures
            match spec_assemble(source@) {
                Ok(_) => r is Ok,
                Err(Ok(f)) => r matches Err(AssemblerError::LexerError(e)) && e@ == f,
                Err(Err(f)) => r matches Err(AssemblerError::ParserErrorError(e)) && e@ == f,
            },
    {
        let _symbol_table = SymbolTable::new();
        let lexemes = match Lexer::new().tokenize(source) {
            Ok(l) => l,
            Err(e) => {
                return Err(AssemblerError::LexerError(e));
            },
        };
        proof {
            lemma_tokenize(source@);
        }
        let mut parser = Parser::new(source, lexemes);
        match parser.parse() {
            Ok(_) => Ok(()),
            Err(e) => Err(AssemblerError::ParserErrorError(e)),
        }
    }
}

} // verus!
