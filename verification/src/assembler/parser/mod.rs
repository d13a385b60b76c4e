//! The parser: tokens to the intermediate representation.
pub mod grammar;
pub mod spec;

use std::ops::Range;

use vstd::prelude::*;
use vstd::string::StringSliceAdditionalSpecFns;

use crate::assembler::assembly::directive::DirectiveType;
use crate::assembler::assembly::section::SectionType;
use crate::assembler::exprs::{token_text, Exprs};
use crate::assembler::instruction::{Instruction, Operand, OperandError, Operands};

use crate::assembler::ir::{IRError, IRView, Node, IR};
use crate::assembler::lexer::scan::{span_ok, spans_ok};
use crate::assembler::lexer::Lexemes;
use crate::assembler::parser::grammar::{spec_rule_sequence, InstructionRule, RuleToken};
use crate::assembler::parser::spec::{
    break_pos, empty_ir, first_mismatch, lemma_break_pos, lemma_walk_advances, spec_accepts,
    error_keeps, spec_expect, spec_operands, spec_parse_from, spec_walk, spec_walk_constant,
    spec_walk_directive, spec_walk_instruction, spec_walk_label, PState,
};
use crate::assembler::symbol_table::{
    ConstantSymbol, ConstantSymbolDir, ConstantSymbols, ConstantView, SymbolError,
};
use crate::assembler::token::{IdentifierType, Token};
use crate::isa::instruction::Mnemonic;
use crate::shared::RangeChunks;

verus! {

/// A feature the parser does not handle yet.
#[derive(Debug, Clone, Copy, PartialEq, Eq, Structural)]
pub enum RuntimeTodo {
    /// A directive
    Dir(DirectiveType),
    /// A symbol
    Symbol,
}

/// Why the tokens could not be parsed.
#[derive(Debug, Clone, PartialEq, Eq)]
pub enum ParserError {
    /// A line starts with something else than a label, a directive or a mnemonic
    SyntaxError,
    /// A token is not what the grammar expects; `found` is what stands there, if anything
    UnexpectedToken { expected: RuleToken, found: Option<Vec<u8>> },
    /// The feature is not handled yet
    UnimplementedFeature(RuntimeTodo),
    /// An operand could not be read
    ValueError(OperandError),
    /// A value could not be read
    IRError(IRError),
    /// A symbol could not be defined
    SymbolError(SymbolError),
}

/// A parser error, with its texts as byte sequences.
pub enum ParserFault {
    SyntaxError,
    UnexpectedToken { expected: RuleToken, found: Option<Seq<u8>> },
    UnimplementedFeature(RuntimeTodo),
    ValueError(OperandError),
    IRError(IRError),
    SymbolError(Seq<u8>),
}

impl View for ParserError {
    type V = ParserFault;

    open spec fn view(&self) -> ParserFault {
        match self {
            ParserError::SyntaxError => ParserFault::SyntaxError,
            ParserError::UnexpectedToken { expected, found } => ParserFault::UnexpectedToken {
                expected: *expected,
                found: match found {
                    Some(v) => Some(v@),
                    None => None,
                },
            },
            ParserError::UnimplementedFeature(t) => ParserFault::UnimplementedFeature(*t),
            ParserError::ValueError(e) => ParserFault::ValueError(*e),
            ParserError::IRError(e) => ParserFault::IRError(*e),
            ParserError::SymbolError(e) => ParserFault::SymbolError(e@),
        }
    }
}

/// The error for a place where `expected` is wanted and the token `found`, if any, stands:
/// the token is named by its name in messages.
pub open spec fn spec_unexpected(expected: RuleToken, found: Option<Token>) -> ParserFault {
    ParserFault::UnexpectedToken {
        expected,
        found: match found {
            Some(t) => Some(t.spec_name().spec_bytes()),
            None => None,
        },
    }
}

/// The error for a place where `expected` is wanted and the token `found`, if any, stands.
pub fn unexpected(expected: RuleToken, found: Option<Token>) -> (r: ParserError)
    ensures
        r@ == spec_unexpected(expected, found),
{
    match found {
        Some(t) => ParserError::UnexpectedToken {
            expected,
            found: Some(vstd::slice::slice_to_vec(t.name().as_bytes())),
        },
        None => ParserError::UnexpectedToken { expected, found: None },
    }
}


/// Whether the token `t` is what `rule` expects, where the rule is checked on its own.
pub fn accepts(rule: RuleToken, t: &Token) -> (r: bool)
    ensures
        r == spec_accepts(rule, *t),
{
    match rule {
        RuleToken::Symbol => t.is_symbol(),
        RuleToken::LiteralString => matches!(*t, Token::LiteralString),
        RuleToken::SectionDir => t.is_section_dir(),
        RuleToken::InstructionOrDir => matches!(
            *t,
            Token::Identifier(IdentifierType::Mnemonic(_)) | Token::Directive(_) | Token::Eol
                | Token::Eof
        ),
        RuleToken::OperatorOrBreak => t.is_operator() || t.is_break(),
        _ => t.eq_rule(&rule),
    }
}

/// Reads the tokens of a source into the intermediate representation.
pub struct Parser<'a> {
    lexemes: Lexemes,
    index: usize,
    source: &'a [u8],
    constants: ConstantSymbols,
}

impl<'a> Parser<'a> {
    /// The position of the token the parser reads.
    pub closed spec fn spec_index(&self) -> int {
        self.index as int
    }

    /// The source.
    pub closed spec fn spec_source(&self) -> Seq<u8> {
        self.source@
    }

    /// The tokens.
    pub closed spec fn spec_tokens(&self) -> Seq<Token> {
        self.lexemes@.0
    }

    /// The spans of the tokens.
    pub closed spec fn spec_spans(&self) -> Seq<Range<usize>> {
        self.lexemes@.1
    }

    /// The constants defined so far.
    pub closed spec fn spec_constants(&self) -> Map<u32, ConstantView> {
        self.constants@
    }

    /// Where the parser stands, with the representation `ir`.
    pub open spec fn pstate(&self, ir: IRView) -> PState {
        PState { index: self.spec_index(), constants: self.spec_constants(), ir }
    }

    /// The tokens fit the source as the lexer gives them: each span inside the source, an
    /// integer literal with digits, and the last token the end of input.
    pub closed spec fn wf(&self) -> bool {
        &&& self.lexemes.wf()
        &&& spans_ok(self.source@, self.lexemes@.0, self.lexemes@.1)
        &&& (self.lexemes@.0.len() == 0 || self.lexemes@.0.last() == Token::Eof)
        &&& self.lexemes@.0.len() + 8 < usize::MAX
        &&& self.index <= self.lexemes@.0.len() + 1
    }

    /// The parser of `lexemes`, the tokens of `source`, at the first token, with no constant.
    pub fn new(source: &'a [u8], lexemes: Lexemes) -> (r: Parser<'a>)
        ensures
            r.spec_index() == 0,
            r.spec_source() == source@,
            r.spec_tokens() == lexemes@.0,
            r.spec_spans() == lexemes@.1,
            r.spec_constants() == Map::<u32, ConstantView>::empty(),
            lexemes.wf() && spans_ok(source@, lexemes@.0, lexemes@.1) && (lexemes@.0.len() == 0
                || lexemes@.0.last() == Token::Eof) && lexemes@.0.len() + 8 < usize::MAX
                ==> r.wf(),
    {
        Parser { lexemes, index: 0, source, constants: ConstantSymbols::default() }
    }

    /// Read `input` from now on.
    pub fn new_source(&mut self, input: &'a [u8])
        ensures
            final(self).spec_source() == input@,
            final(self).spec_index() == old(self).spec_index(),
            final(self).spec_tokens() == old(self).spec_tokens(),
            final(self).spec_spans() == old(self).spec_spans(),
            final(self).spec_constants() == old(self).spec_constants(),
    {
        self.source = input;
    }

    /// The position after the current one.
    fn next_index(&self) -> (r: usize)
        requires
            self.wf(),
        ensures
            r == self.index + 1,
    {
        self.index + 1
    }

    /// The token at `k` must be what `rule` expects.
    fn expect(&self, k: usize, rule: RuleToken) -> (r: Result<(), ParserError>)
        requires
            self.wf(),
        ensures
            match spec_expect(self.lexemes@.0, k as int, rule) {
                Ok(_) => r is Ok,
                Err(f) => r matches Err(e) && e@ == f,
            },
    {
        match self.lexemes.get_token(k) {
            None => Err(unexpected(rule, None)),
            Some(t) => {
                if accepts(rule, t) {
                    Ok(())
                } else {
                    Err(unexpected(rule, Some(*t)))
                }
            },
        }
    }

    /// The source text of the token at `k`.
    fn text(&self, k: usize) -> (r: &'a [u8])
        requires
            self.wf(),
            k < self.lexemes@.0.len(),
        ensures
            r@ == token_text(self.source@, self.lexemes@.1, k as int),
    {
        let span = self.lexemes.get_span(k);
        proof {
            assert(span_ok(self.source@, self.lexemes@.0[k as int], self.lexemes@.1[k as int]));
        }
        let src: &'a [u8] = self.source;
        vstd::slice::slice_subrange(src, span.start, span.end)
    }

    /// The position of the first line break after the current token.
    fn nearest_break(&self) -> (r: usize)
        requires
            self.wf(),
            self.index + 1 < self.lexemes@.0.len(),
        ensures
            r == break_pos(self.lexemes@.0, self.index + 1),
            self.index + 1 <= r < self.lexemes@.0.len(),
    {
        proof {
            lemma_break_pos(self.lexemes@.0, self.index + 1);
        }
        let tokens = self.lexemes.tokens();
        let mut j = self.index + 1;
        while j < tokens.len() && !tokens[j].is_break()
            invariant
                self.wf(),
                tokens@ == self.lexemes@.0,
                self.index + 1 <= j <= tokens@.len(),
                break_pos(tokens@, self.index + 1) == break_pos(tokens@, j as int),
            decreases tokens@.len() - j,
        {
            j = j + 1;
        }
        j
    }

    /// The number of tokens from the current one to the next line break, that included.
    fn next_line_index(&self) -> (r: usize)
        requires
            self.wf(),
            self.index + 1 < self.lexemes@.0.len(),
        ensures
            r == break_pos(self.lexemes@.0, self.index + 1) - self.index,
            r >= 1,
            self.index + r < self.lexemes@.0.len(),
    {
        self.nearest_break() - self.index
    }

    /// The positions of the tokens after the current one up to the line break, that included.
    fn peek_line_indices(&self) -> (r: Range<usize>)
        requires
            self.wf(),
            self.index + 1 < self.lexemes@.0.len(),
        ensures
            r.start == self.index + 1,
            r.end == break_pos(self.lexemes@.0, self.index + 1) + 1,
            r.start < r.end <= self.lexemes@.0.len(),
    {
        let n = self.next_line_index();
        let next_idx = self.next_index();
        next_idx..next_idx + n
    }

    /// Move past `n` tokens.
    fn advance_by(&mut self, n: usize)
        requires
            old(self).index + n <= usize::MAX,
        ensures
            final(self).index == old(self).index + n,
            final(self).lexemes == old(self).lexemes,
            final(self).source == old(self).source,
            final(self).constants == old(self).constants,
    {
        self.index = self.index + n;
    }

    /// Move to the next line break.
    fn advance_line(&mut self)
        requires
            old(self).wf(),
            old(self).index + 1 < old(self).lexemes@.0.len(),
        ensures
            final(self).index == break_pos(old(self).lexemes@.0, old(self).index + 1),
            final(self).lexemes == old(self).lexemes,
            final(self).source == old(self).source,
            final(self).constants == old(self).constants,
            final(self).wf(),
    {
        let n = self.next_line_index();
        self.advance_by(n);
    }

    /// A directive at the current position.
    fn walk_directive(&mut self, dir_type: DirectiveType, ir: &mut IR) -> (r: Result<
        (),
        ParserError,
    >)
        requires
            old(self).wf(),
            old(ir).wf(),
            old(self).index < old(self).lexemes@.0.len(),
            old(self).lexemes@.0[old(self).index as int] == Token::Directive(dir_type),
        ensures
            final(self).wf(),
            final(ir).wf(),
            final(self).lexemes == old(self).lexemes,
            final(self).source == old(self).source,
            match spec_walk_directive(
                old(self).source@,
                old(self).lexemes@.0,
                old(self).lexemes@.1,
                dir_type,
                old(self).pstate(old(ir)@),
            ) {
                Ok(st) => r is Ok && final(self).pstate(final(ir)@) == st,
                Err(f) => r matches Err(e) && e@ == f,
            },
            r is Err ==> error_keeps(old(self).pstate(old(ir)@), final(self).pstate(final(ir)@)),
            r is Err && dir_type != DirectiveType::SetSymbol && dir_type != DirectiveType::Equ
                ==> final(self).pstate(final(ir)@) == old(self).pstate(old(ir)@),
    {
        let idx = self.index;
        proof {
            assert(self.lexemes@.0.last() == Token::Eof);
        }
        match dir_type {
            DirectiveType::Section => {
                self.expect(idx + 1, RuleToken::SectionDir)?;
                self.advance_by(1);
                Ok(())
            },
            DirectiveType::Text | DirectiveType::Data | DirectiveType::Rodata | DirectiveType::Bss
            | DirectiveType::CustomSection => {
                self.expect(idx + 1, RuleToken::Break)?;
                let name = self.text(idx);
                ir.add_section(name, SectionType::from_directive(dir_type));
                self.advance_by(1);
                Ok(())
            },
            DirectiveType::Ascii => {
                self.expect(idx + 1, RuleToken::LiteralString)?;
                self.expect(idx + 2, RuleToken::Break)?;
                let text = self.text(idx + 1);
                ir.push(Node::String(vstd::slice::slice_to_vec(text)));
                self.advance_by(1);
                Ok(())
            },
            DirectiveType::Global => {
                self.expect(idx + 1, RuleToken::Symbol)?;
                self.expect(idx + 2, RuleToken::Break)?;
                let text = self.text(idx + 1);
                let str_id = ir.alloc_str(text);
                ir.push(Node::Global(str_id));
                self.advance_by(2);
                Ok(())
            },
            DirectiveType::SetSymbol | DirectiveType::Equ => self.walk_constant(dir_type, ir),
            _ => Err(ParserError::UnimplementedFeature(RuntimeTodo::Dir(dir_type))),
        }
    }

    /// `.set` or `.equ` at the current position.
    fn walk_constant(&mut self, dir_type: DirectiveType, ir: &mut IR) -> (r: Result<
        (),
        ParserError,
    >)
        requires
            old(self).wf(),
            old(ir).wf(),
            old(self).index + 1 < old(self).lexemes@.0.len(),
            dir_type == DirectiveType::SetSymbol || dir_type == DirectiveType::Equ,
        ensures
            final(self).wf(),
            final(ir).wf(),
            final(self).lexemes == old(self).lexemes,
            final(self).source == old(self).source,
            match spec_walk_constant(
                old(self).source@,
                old(self).lexemes@.0,
                old(self).lexemes@.1,
                dir_type,
                old(self).pstate(old(ir)@),
            ) {
                Ok(st) => r is Ok && final(self).pstate(final(ir)@) == st,
                Err(f) => r matches Err(e) && e@ == f,
            },
            r is Err ==> error_keeps(old(self).pstate(old(ir)@), final(self).pstate(final(ir)@)),
    {
        let line_range = self.peek_line_indices();
        let indices_len = line_range.end - line_range.start;
        let mut range_chunks = line_range.chunks(2);
        let first_chunk = match range_chunks.next() {
            Some(c) => c,
            None => {
                return Err(ParserError::SyntaxError);
            },
        };
        let c0 = first_chunk.start;
        self.expect(c0, RuleToken::Symbol)?;
        self.expect(first_chunk.end - 1, RuleToken::Comma)?;
        let mut exprs = Exprs::with_capacity(indices_len - 1);
        exprs.build(range_chunks, &self.lexemes, self.source, ir.str_tab_mut())?;
        let name = self.text(c0);
        let str_id = ir.alloc_str(name);
        let ghost before = self.constants@;
        match self.constants.insert(
            ConstantSymbolDir::from_directive(dir_type),
            ConstantSymbol::new(str_id, exprs),
            name,
        ) {
            Ok(_) => {},
            Err(e) => {
                return Err(ParserError::SymbolError(e));
            },
        }
        self.advance_line();
        self.advance_by(1);
        Ok(())
    }

    /// A label at the current position.
    fn walk_label(&mut self, ir: &mut IR) -> (r: Result<(), ParserError>)
        requires
            old(self).wf(),
            old(ir).wf(),
            old(self).index < old(self).lexemes@.0.len(),
        ensures
            final(self).wf(),
            final(ir).wf(),
            final(self).lexemes == old(self).lexemes,
            final(self).source == old(self).source,
            match spec_walk_label(
                old(self).source@,
                old(self).lexemes@.0,
                old(self).lexemes@.1,
                old(self).pstate(old(ir)@),
            ) {
                Ok(st) => r is Ok && final(self).pstate(final(ir)@) == st,
                Err(f) => r matches Err(e) && e@ == f,
            },
            r is Err ==> final(self).pstate(final(ir)@) == old(self).pstate(old(ir)@),
    {
        let idx = self.index;
        self.expect(idx + 1, RuleToken::InstructionOrDir)?;
        let name = self.text(idx);
        let str_id = ir.alloc_str(name);
        ir.push(Node::Label(str_id));
        self.advance_by(1);
        Ok(())
    }

    /// An instruction at the current position.
    #[verifier::loop_isolation(false)]
    fn walk_instruction(&mut self, mnemonic: Mnemonic, ir: &mut IR) -> (r: Result<
        (),
        ParserError,
    >)
        requires
            old(self).wf(),
            old(ir).wf(),
            old(self).index + 1 < old(self).lexemes@.0.len(),
        ensures
            final(self).wf(),
            final(ir).wf(),
            final(self).lexemes == old(self).lexemes,
            final(self).source == old(self).source,
            match spec_walk_instruction(
                old(self).source@,
                old(self).lexemes@.0,
                old(self).lexemes@.1,
                mnemonic,
                old(self).pstate(old(ir)@),
            ) {
                Ok(st) => r is Ok && final(self).pstate(final(ir)@) == st,
                Err(f) => r matches Err(e) && e@ == f,
            },
            r is Err ==> error_keeps(old(self).pstate(old(ir)@), final(self).pstate(final(ir)@)),
    {
        let idx = self.index;
        let line_range = self.peek_line_indices();
        let bp = line_range.end - 1;
        let line = match self.lexemes.slice(line_range) {
            Some(l) => l,
            None => {
                return Err(ParserError::SyntaxError);
            },
        };
        let ghost ts = self.lexemes@.0;
        let ghost line_seq = ts.subrange(idx + 1, bp + 1);
        let mut rule = InstructionRule::new(mnemonic);
        let rule_sequence = rule.generate_sequence();
        let seq_len = rule_sequence.len();
        let line_len = line.token_len();
        let n = if seq_len < line_len {
            seq_len
        } else {
            line_len
        };
        let mut k: usize = 0;
        while k < n
            invariant
                self.wf(),
                idx == self.index,
                idx + 1 + n <= bp + 1,
                bp < self.lexemes@.0.len(),
                ts == self.lexemes@.0,
                k <= n,
                n <= seq_len,
                n <= line_len,
                line@.tokens == line_seq,
                line_len == line_seq.len(),
                rule_sequence@ == spec_rule_sequence(rule.spec_ty()),
                seq_len == rule_sequence@.len(),
                first_mismatch(rule_sequence@, line_seq, 0) == first_mismatch(
                    rule_sequence@,
                    line_seq,
                    k as int,
                ),
            decreases n - k,
        {
            let t = line.get_token(k);
            if !t.eq_rule(&rule_sequence[k]) {
                let found = self.text(idx + 1 + k);
                return Err(
                    ParserError::UnexpectedToken {
                        expected: rule_sequence[k],
                        found: Some(vstd::slice::slice_to_vec(found)),
                    },
                );
            }
            k = k + 1;
        }
        let rule_residue = if seq_len > line_len {
            seq_len - line_len
        } else {
            0
        };
        if rule_residue > 0 {
            return Err(
                ParserError::UnexpectedToken {
                    expected: rule_sequence[seq_len - rule_residue],
                    found: None,
                },
            );
        }
        if seq_len < line_len {
            let t = line.get_token(seq_len);
            if !t.is_break() {
                let found = self.text(idx + 1 + seq_len);
                return Err(
                    ParserError::UnexpectedToken {
                        expected: RuleToken::Break,
                        found: Some(vstd::slice::slice_to_vec(found)),
                    },
                );
            }
        }
        let rule_ty = rule.ty();
        let mut operand_types = [Operand::Empty, Operand::Empty, Operand::Empty];
        let mut pos = idx + 1;
        let mut slot: usize = 0;
        proof {
            lemma_break_pos(ts, idx + 1);
            if seq_len < line_len {
                assert(ts[idx + 1 + seq_len].spec_is_break());
            }
            assert(bp <= idx + 1 + seq_len);
        }
        while pos < bp
            invariant
                self.wf(),
                ir.wf(),
                ir@.nodes == old(ir)@.nodes,
                ir@.sections == old(ir)@.sections,
                ir@.instructions == old(ir)@.instructions,
                idx == self.index,
                slot <= 3,
                pos == idx + 1 + 2 * slot,
                bp <= idx + 1 + seq_len,
                seq_len <= 6,
                bp < self.lexemes@.0.len(),
                spec_operands(
                    self.source@,
                    self.lexemes@.0,
                    self.lexemes@.1,
                    rule_ty,
                    idx + 1,
                    bp as int,
                    0,
                    seq![Operand::Empty, Operand::Empty, Operand::Empty],
                    old(ir)@.strs,
                ) == spec_operands(
                    self.source@,
                    self.lexemes@.0,
                    self.lexemes@.1,
                    rule_ty,
                    pos as int,
                    bp as int,
                    slot as int,
                    operand_types@,
                    ir@.strs,
                ),
            decreases bp + 1 - pos,
        {
            let lexeme = self.lexemes.get_unchecked(pos);
            let token = *lexeme.token();
            let slice = self.text(pos);
            proof {
                assert(span_ok(self.source@, self.lexemes@.0[pos as int], self.lexemes@.1[pos as int]));
            }
            let mut operand = match Operand::try_from(token, rule_ty, slice) {
                Ok(o) => o,
                Err(e) => {
                    return Err(ParserError::ValueError(e));
                },
            };
            if let Operand::Symbol(_) = operand {
                let id = ir.alloc_str(slice);
                operand = Operand::Symbol(id);
            }
            operand_types[slot] = operand;
            pos = pos + 2;
            slot = slot + 1;
        }
        let ghost ops_seq = operand_types@;
        let ghost ir_mid = ir@;
        assert(spec_operands(
            self.source@,
            self.lexemes@.0,
            self.lexemes@.1,
            rule_ty,
            pos as int,
            bp as int,
            slot as int,
            operand_types@,
            ir@.strs,
        ) == Ok::<(Seq<Operand>, Seq<Seq<u8>>), ParserFault>((operand_types@, ir@.strs)));
        let mut operands = Operands::new();
        operands.copy_from_slice(operand_types.as_slice());
        assert(operands.0@ =~= ops_seq);
        let ins = Instruction::new(mnemonic, operands);
        ir.add_instruction(ins);
        self.advance_line();
        self.advance_by(1);
        proof {
            let st = old(self).pstate(old(ir)@);
            assert(ir_mid.nodes == old(ir)@.nodes);
            assert(ir_mid.sections == old(ir)@.sections);
            assert(ir_mid.instructions == old(ir)@.instructions);
            assert(spec_walk_instruction(
                old(self).source@,
                old(self).lexemes@.0,
                old(self).lexemes@.1,
                mnemonic,
                st,
            ) == Ok::<PState, ParserFault>(self.pstate(ir@)));
        }
        Ok(())
    }

    /// One step at the current position.
    fn walk(&mut self, token: Token, ir: &mut IR) -> (r: Result<(), ParserError>)
        requires
            old(self).wf(),
            old(ir).wf(),
            old(self).index < old(self).lexemes@.0.len(),
            token == old(self).lexemes@.0[old(self).index as int],
        ensures
            final(self).wf(),
            final(ir).wf(),
            final(self).lexemes == old(self).lexemes,
            final(self).source == old(self).source,
            match spec_walk(
                old(self).source@,
                old(self).lexemes@.0,
                old(self).lexemes@.1,
                old(self).pstate(old(ir)@),
            ) {
                Ok(st) => r is Ok && final(self).pstate(final(ir)@) == st,
                Err(f) => r matches Err(e) && e@ == f,
            },
            r is Err ==> error_keeps(old(self).pstate(old(ir)@), final(self).pstate(final(ir)@)),
            r is Err && token != Token::Directive(DirectiveType::SetSymbol) && token
                != Token::Directive(DirectiveType::Equ) && !(token matches Token::Identifier(
                IdentifierType::Mnemonic(_),
            )) ==> final(self).pstate(final(ir)@) == old(self).pstate(old(ir)@),
    {
        proof {
            assert(self.lexemes@.0.last() == Token::Eof);
        }
        match token {
            Token::Directive(dir_type) => self.walk_directive(dir_type, ir),
            Token::Label => self.walk_label(ir),
            Token::Identifier(IdentifierType::Mnemonic(mnemonic)) => self.walk_instruction(
                mnemonic,
                ir,
            ),
            Token::Eol | Token::Eof => {
                self.advance_by(1);
                Ok(())
            },
            _ => Err(ParserError::SyntaxError),
        }
    }

    /// Parse the tokens from the current position to the end; see `spec_parse_from`.
    pub fn parse(&mut self) -> (r: Result<IR, ParserError>)
        requires
            old(self).wf(),
        ensures
            match spec_parse_from(
                old(self).spec_source(),
                old(self).spec_tokens(),
                old(self).spec_spans(),
                old(self).pstate(empty_ir()),
            ) {
                Ok(st) => r matches Ok(ir) && ir@ == st.ir && final(self).pstate(ir@) == st,
                Err(f) => r matches Err(e) && e@ == f,
            },
            r matches Ok(ir) ==> ir.wf(),
    {
        let mut ir = IR::new(10);
        let ghost total = spec_parse_from(
            old(self).spec_source(),
            old(self).spec_tokens(),
            old(self).spec_spans(),
            old(self).pstate(empty_ir()),
        );
        assert(ir@ == empty_ir());
        while self.index < self.lexemes.len()
            invariant
                self.wf(),
                ir.wf(),
                self.lexemes == old(self).lexemes,
                self.source == old(self).source,
                total == spec_parse_from(
                    old(self).spec_source(),
                    old(self).spec_tokens(),
                    old(self).spec_spans(),
                    old(self).pstate(empty_ir()),
                ),
                total == spec_parse_from(
                    self.spec_source(),
                    self.spec_tokens(),
                    self.spec_spans(),
                    self.pstate(ir@),
                ),
            decreases self.lexemes@.0.len() + 1 - self.index,
        {
            let token = self.lexemes.tokens()[self.index];
            let ghost st = self.pstate(ir@);
            proof {
                lemma_walk_advances(self.spec_source(), self.spec_tokens(), self.spec_spans(), st);
            }
            match self.walk(token, &mut ir) {
                Ok(_) => {},
                Err(e) => {
                    return Err(e);
                },
            }
        }
        Ok(ir)
    }
}

} // verus!
