//! The lexer: source bytes to tokens and their spans.
pub mod scan;

use std::ops::Range;

use vstd::prelude::*;

use crate::assembler::assembly::directive::DirectiveType;
use crate::assembler::helper::ascii_string;
use crate::assembler::lexer::scan::{
    exec_first_bad, exec_int_token, is_word, lemma_first_bad, lemma_piece, lemma_word_ascii,
    lex_from, literal_digits, scan, spec_piece, spec_resolve, spec_span, spec_tokenize, LexFault,
    Piece,
};
use crate::assembler::token::helper::{is_digit, LiteralIntegerType, State};
use crate::assembler::token::{IdentifierType, LexingError, Token};

verus! {

/// The tokens and spans found so far, put before what the rest of the source gives.
pub open spec fn prepend(
    ts: Seq<Token>,
    sps: Seq<Range<usize>>,
    r: Result<(Seq<Token>, Seq<Range<usize>>), LexFault>,
) -> Result<(Seq<Token>, Seq<Range<usize>>), LexFault> {
    match r {
        Ok((a, b)) => Ok((ts + a, sps + b)),
        Err(f) => Err(f),
    }
}

/// `Vec::shrink_to_fit`, which lowers the capacity and keeps the elements.
#[verifier::external_body]
fn vec_shrink_to_fit<T>(v: &mut Vec<T>)
    ensures
        final(v)@ == old(v)@,
{
    v.shrink_to_fit();
}

/// Splits source bytes into tokens.
pub struct Lexer;

impl Lexer {
    pub fn new() -> (r: Lexer) {
        Lexer
    }

    /// The token, or the error, for the piece `p` found at `i..e`.
    fn resolve(&self, s: &[u8], i: usize, p: Piece, e: usize, row: usize, last: Token) -> (r: Result<
        Token,
        LexingError,
    >)
        requires
            i < s@.len(),
            p != Piece::Skip,
            p == spec_piece(s@, i as int).0,
            e == spec_piece(s@, i as int).1,
            row < usize::MAX,
        ensures
            r matches Ok(t) ==> spec_resolve(s@, i as int, p, e as int, row as int, last) == Ok::<
                Token,
                LexFault,
            >(t),
            r matches Err(x) ==> spec_resolve(s@, i as int, p, e as int, row as int, last) == Err::<
                Token,
                LexFault,
            >(x@),
    {
        proof {
            lemma_piece(s@, i as int);
        }
        match p {
            Piece::Ident => {
                let name = vstd::slice::slice_subrange(s, i, e);
                Ok(Token::Identifier(IdentifierType::from_bytes(name)))
            },
            Piece::Label => Ok(Token::Label),
            Piece::Directive => {
                let name = vstd::slice::slice_subrange(s, i + 1, e);
                match DirectiveType::from_name(name) {
                    Some(d) => Ok(Token::Directive(d)),
                    None => {
                        if last == Token::Directive(DirectiveType::Section) {
                            Ok(Token::Directive(DirectiveType::CustomSection))
                        } else {
                            let text = vstd::slice::slice_subrange(s, i, e);
                            proof {
                                assert forall|j: int| 0 <= j < text@.len() implies #[trigger] text@[j]
                                    < 128 by {
                                    if j > 0 {
                                        assert(is_word(s@[i + j]));
                                    }
                                }
                            }
                            Err(LexingError::UnknownDirective(ascii_string(vstd::slice::slice_to_vec(text)), row))
                        }
                    },
                }
            },
            Piece::Str => Ok(Token::LiteralString),
            Piece::Int(k) => {
                let head = LiteralIntegerType::head_len(k);
                let d = if s[i] == 45 {
                    i + 1
                } else {
                    i
                };
                let t = vstd::slice::slice_subrange(s, d + head, e);
                assert(t@ == literal_digits(s@, i as int, e as int, k));
                match exec_first_bad(k, t, 0) {
                    Some(q) => {
                        proof {
                            lemma_first_bad(k, t@, 0);
                        }
                        let rest = vstd::slice::slice_subrange(t, q, t.len());
                        proof {
                            assert forall|j: int| d + head + q <= j < e implies is_word(
                                #[trigger] s@[j],
                            ) by {
                                if j == i {
                                    assert(is_digit(s@[j]));
                                }
                            }
                            lemma_word_ascii(s@, d + head + q, e as int);
                            assert(rest@ =~= s@.subrange(d + head + q, e as int));
                        }
                        Err(LexingError::InvalidSuffix(ascii_string(vstd::slice::slice_to_vec(rest)), 1))
                    },
                    None => Ok(exec_int_token(k)),
                }
            },
            Piece::Sym(t) => Ok(t),
            _ => {
                if s[i] < 128 {
                    let text = vstd::slice::slice_subrange(s, i, i + 1);
                    Err(LexingError::UnknownSyntax(ascii_string(vstd::slice::slice_to_vec(text)), row + 1))
                } else {
                    Err(LexingError::NonAsciiCharacter(row + 1))
                }
            },
        }
    }

    /// Split `input` into tokens and their spans, closed by the end of input; or the first
    /// error. See `spec_tokenize`.
    pub fn tokenize(&self, input: &[u8]) -> (r: Result<Lexemes, LexingError>)
        requires
            input@.len() < usize::MAX / 4,
        ensures
            r matches Ok(l) ==> l.wf() && spec_tokenize(input@) == Ok::<
                (Seq<Token>, Seq<Range<usize>>),
                LexFault,
            >(l@),
            r matches Err(x) ==> spec_tokenize(input@) == Err::<
                (Seq<Token>, Seq<Range<usize>>),
                LexFault,
            >(x@),
    {
        let mut state = State::default();
        let mut lexemes = Lexemes::new(input.len());
        let mut i: usize = 0;
        assert(lexemes@.0 + Seq::<Token>::empty() =~= lexemes@.0);
        while i < input.len()
            invariant
                i <= input@.len(),
                input@.len() < usize::MAX / 4,
                lexemes.wf(),
                state.spec_cell().spec_row() <= 1 + 2 * i,
                lex_from(input@, 0, 1, Token::Eol) == prepend(
                    lexemes@.0,
                    lexemes@.1,
                    lex_from(
                        input@,
                        i as int,
                        state.spec_cell().spec_row() as int,
                        state.spec_last_token(),
                    ),
                ),
            decreases input@.len() - i,
        {
            let (p, e) = scan(input, i);
            proof {
                lemma_piece(input@, i as int);
            }
            if p == Piece::Skip {
                i = e;
            } else {
                let ghost row0 = state.spec_cell().spec_row();
                if p == Piece::Sym(Token::Eol) {
                    state.on_newline();
                }
                let row = state.cell().row();
                let last = state.last_token();
                let res = self.resolve(input, i, p, e, row, last);
                state.advance_row();
                match res {
                    Err(x) => {
                        return Err(x);
                    },
                    Ok(token) => {
                        let ghost before = lexemes@;
                        state.set_last_token(token);
                        let span = self.filter_span(token, i..e);
                        lexemes.push(token, span);
                        proof {
                            let rest = lex_from(input@, e as int, row as int + 1, token);
                            match rest {
                                Ok((a, b)) => {
                                    assert(before.0 + (seq![token] + a) =~= before.0.push(token)
                                        + a);
                                    assert(before.1 + (seq![span] + b) =~= before.1.push(span)
                                        + b);
                                },
                                Err(_) => {},
                            }
                        }
                        i = e;
                    },
                }
            }
        }
        proof {
            assert(lexemes@.0 + Seq::<Token>::empty() =~= lexemes@.0);
            assert(lexemes@.1 + Seq::<Range<usize>>::empty() =~= lexemes@.1);
        }
        lexemes.seal();
        Ok(lexemes)
    }

    /// The span kept for `token` found at `span`: a label without its colon, a directive
    /// without its dot, a string without its quotes.
    pub fn filter_span(&self, token: Token, span: Range<usize>) -> (r: Range<usize>)
        requires
            token == Token::Label ==> span.end >= 1,
            token is Directive ==> span.start < usize::MAX,
            token == Token::LiteralString ==> span.start < usize::MAX && span.end >= 1,
        ensures
            r == spec_span(token, span.start as int, span.end as int),
    {
        let mut span = span;
        match token {
            Token::Label => {
                span.end = span.end - 1;
            },
            Token::Directive(_) => {
                span.start = span.start + 1;
            },
            Token::LiteralString => {
                span.start = span.start + 1;
                span.end = span.end - 1;
            },
            _ => {},
        }
        span
    }
}

/// The tokens of a source and their spans, side by side.
#[derive(Debug)]
pub struct Lexemes {
    tokens: Vec<Token>,
    spans: Vec<Range<usize>>,
}

impl View for Lexemes {
    type V = (Seq<Token>, Seq<Range<usize>>);

    closed spec fn view(&self) -> (Seq<Token>, Seq<Range<usize>>) {
        (self.tokens@, self.spans@)
    }
}

/// A label or a symbol.
pub open spec fn is_symbol_token(t: Token) -> bool {
    t == Token::Label || t == Token::Identifier(IdentifierType::Symbol)
}

/// The labels and symbols of `ts`, with their spans, in order.
pub open spec fn symbols_of(ts: Seq<Token>, sps: Seq<Range<usize>>) -> Seq<(Token, Range<usize>)>
    decreases ts.len(),
{
    if ts.len() == 0 || sps.len() == 0 {
        Seq::empty()
    } else {
        let rest = symbols_of(ts.drop_last(), sps.drop_last());
        if is_symbol_token(ts.last()) {
            rest.push((ts.last(), sps.last()))
        } else {
            rest
        }
    }
}

impl Lexemes {
    /// As many tokens as spans.
    pub closed spec fn wf(&self) -> bool {
        self.tokens@.len() == self.spans@.len()
    }

    /// No token yet. The capacity is a hint only.
    pub fn new(capacity: usize) -> (r: Lexemes)
        ensures
            r.wf(),
            r@.0 == Seq::<Token>::empty(),
            r@.1 == Seq::<Range<usize>>::empty(),
    {
        Lexemes { tokens: Vec::with_capacity(capacity), spans: Vec::with_capacity(capacity) }
    }

    pub fn tokens(&self) -> (r: &[Token])
        ensures
            r@ == self@.0,
    {
        self.tokens.as_slice()
    }

    pub fn spans(&self) -> (r: &[Range<usize>])
        ensures
            r@ == self@.1,
    {
        self.spans.as_slice()
    }

    /// The token and span at `index`, if there is one.
    pub fn get(&self, index: usize) -> (r: Option<Lexeme<'_>>)
        requires
            self.wf(),
        ensures
            r is Some <==> index < self@.0.len(),
            r matches Some(l) ==> l@ == (self@.0[index as int], self@.1[index as int]),
    {
        if index < self.tokens.len() {
            Some(Lexeme { token: &self.tokens[index], span: &self.spans[index] })
        } else {
            None
        }
    }

    /// The token and span at `index`, which must exist.
    pub fn get_unchecked(&self, index: usize) -> (r: Lexeme<'_>)
        requires
            self.wf(),
            index < self@.0.len(),
        ensures
            r@ == (self@.0[index as int], self@.1[index as int]),
    {
        Lexeme::new(&self.tokens[index], &self.spans[index])
    }

    /// The token at `index`, if there is one.
    pub fn get_token(&self, index: usize) -> (r: Option<&Token>)
        ensures
            r is Some <==> index < self@.0.len(),
            r matches Some(t) ==> *t == self@.0[index as int],
    {
        if index < self.tokens.len() {
            Some(&self.tokens[index])
        } else {
            None
        }
    }

    /// The span at `index`, which must exist.
    pub fn get_span(&self, index: usize) -> (r: &Range<usize>)
        requires
            index < self@.1.len(),
        ensures
            *r == self@.1[index as int],
    {
        &self.spans[index]
    }

    /// Add a token and its span at the end.
    pub fn push(&mut self, token: Token, span: Range<usize>)
        requires
            old(self).wf(),
        ensures
            final(self).wf(),
            final(self)@.0 == old(self)@.0.push(token),
            final(self)@.1 == old(self)@.1.push(span),
    {
        self.tokens.push(token);
        self.spans.push(span);
    }

    /// The tokens and spans of `range`, if it is a range of positions inside the lexemes.
    pub fn slice(&self, range: Range<usize>) -> (r: Option<LexemesSlice<'_>>)
        requires
            self.wf(),
        ensures
            r is Some <==> range.start <= range.end <= self@.0.len(),
            r matches Some(sl) ==> sl.wf() && sl@.tokens == self@.0.subrange(
                range.start as int,
                range.end as int,
            ) && sl@.spans == self@.1.subrange(range.start as int, range.end as int)
                && sl@.index == 0 && sl@.range_index == range,
    {
        if range.start <= range.end && range.end <= self.tokens.len() {
            let tokens = vstd::slice::slice_subrange(self.tokens.as_slice(), range.start, range.end);
            let spans = vstd::slice::slice_subrange(self.spans.as_slice(), range.start, range.end);
            Some(LexemesSlice::new(tokens, spans, range))
        } else {
            None
        }
    }

    /// The labels and symbols, with their spans, in order.
    pub fn symbols(&self) -> (r: Vec<(Token, Range<usize>)>)
        requires
            self.wf(),
        ensures
            r@ == symbols_of(self@.0, self@.1),
    {
        let mut out: Vec<(Token, Range<usize>)> = Vec::new();
        let mut i: usize = 0;
        while i < self.tokens.len()
            invariant
                self.wf(),
                i <= self@.0.len(),
                out@ == symbols_of(self@.0.subrange(0, i as int), self@.1.subrange(0, i as int)),
            decreases self@.0.len() - i,
        {
            let t = self.tokens[i];
            let sp = &self.spans[i];
            proof {
                let ts = self@.0.subrange(0, i + 1);
                let sps = self@.1.subrange(0, i + 1);
                assert(ts.drop_last() =~= self@.0.subrange(0, i as int));
                assert(sps.drop_last() =~= self@.1.subrange(0, i as int));
            }
            if t == Token::Label || t == Token::Identifier(IdentifierType::Symbol) {
                out.push((t, sp.start..sp.end));
            }
            i = i + 1;
        }
        proof {
            assert(self@.0.subrange(0, self@.0.len() as int) =~= self@.0);
            assert(self@.1.subrange(0, self@.1.len() as int) =~= self@.1);
        }
        out
    }

    /// Number of tokens.
    pub fn len(&self) -> (r: usize)
        ensures
            r == self@.0.len(),
    {
        self.tokens.len()
    }

    /// Close the tokens with the end of input, at the end of the last span, where there is
    /// any token.
    pub fn seal(&mut self)
        requires
            old(self).wf(),
        ensures
            final(self).wf(),
            old(self)@.0.len() == 0 ==> final(self)@ == old(self)@,
            old(self)@.0.len() > 0 ==> ({
                let end = old(self)@.1.last().end;
                final(self)@ == (old(self)@.0.push(Token::Eof), old(self)@.1.push(end..end))
            }),
    {
        if self.spans.len() > 0 {
            let end = self.spans[self.spans.len() - 1].end;
            self.spans.push(end..end);
            self.tokens.push(Token::Eof);
            self.shrink_to_fit();
        }
    }

    /// Release the spare capacity.
    pub fn shrink_to_fit(&mut self)
        ensures
            final(self)@ == old(self)@,
            old(self).wf() ==> final(self).wf(),
    {
        vec_shrink_to_fit(&mut self.tokens);
        vec_shrink_to_fit(&mut self.spans);
    }
}

/// What a slice of the lexemes holds and where its cursor stands.
pub struct SliceView {
    pub tokens: Seq<Token>,
    pub spans: Seq<Range<usize>>,
    pub index: int,
    pub range_index: Range<usize>,
}

/// A run of the lexemes with a cursor.
pub struct LexemesSlice<'a> {
    tokens: &'a [Token],
    spans: &'a [Range<usize>],
    index: usize,
    range_index: Range<usize>,
}

impl<'a> View for LexemesSlice<'a> {
    type V = SliceView;

    closed spec fn view(&self) -> SliceView {
        SliceView {
            tokens: self.tokens@,
            spans: self.spans@,
            index: self.index as int,
            range_index: self.range_index,
        }
    }
}

impl<'a> LexemesSlice<'a> {
    /// As many tokens as spans.
    pub closed spec fn wf(&self) -> bool {
        self.tokens@.len() == self.spans@.len()
    }

    fn new(tokens: &'a [Token], spans: &'a [Range<usize>], range_index: Range<usize>) -> (r:
        LexemesSlice<'a>)
        ensures
            r@.tokens == tokens@,
            r@.spans == spans@,
            r@.index == 0,
            r@.range_index == range_index,
            tokens@.len() == spans@.len() ==> r.wf(),
    {
        LexemesSlice { tokens, spans, index: 0, range_index }
    }

    /// The first token of the slice for which `predicate` holds, with its span.
    pub fn find_token<F: Fn(&Token) -> bool>(&self, predicate: F) -> (r: Option<Lexeme<'_>>)
        requires
            self.wf(),
            forall|t: &Token| #[trigger] predicate.requires((t,)),
        ensures
            r matches Some(l) ==> exists|p: int|
                0 <= p < self@.tokens.len() && l@ == (self@.tokens[p], self@.spans[p])
                    && predicate.ensures((&self@.tokens[p],), true) && forall|j: int|
                    0 <= j < p ==> predicate.ensures((&self@.tokens[j],), false),
            r is None ==> forall|j: int|
                0 <= j < self@.tokens.len() ==> predicate.ensures((&self@.tokens[j],), false),
    {
        let mut p: usize = 0;
        while p < self.tokens.len()
            invariant
                self.wf(),
                p <= self@.tokens.len(),
                forall|t: &Token| #[trigger] predicate.requires((t,)),
                forall|j: int| 0 <= j < p ==> predicate.ensures((&self@.tokens[j],), false),
            decreases self@.tokens.len() - p,
        {
            if predicate(&self.tokens[p]) {
                return Some(Lexeme::new(&self.tokens[p], &self.spans[p]));
            }
            p = p + 1;
        }
        None
    }

    /// The lexeme after the cursor, where the cursor is not at the end.
    pub fn peek(&self) -> (r: Option<Lexeme<'_>>)
        requires
            self.wf(),
            self@.index >= self@.tokens.len() || self@.index + 1 < self@.tokens.len(),
        ensures
            r is Some <==> self@.index < self@.tokens.len(),
            r matches Some(l) ==> l@ == (
                self@.tokens[self@.index + 1],
                self@.spans[self@.index + 1],
            ),
    {
        if self.index >= self.tokens.len() {
            return None;
        }
        let next_id = self.index + 1;
        Some(self.get(next_id))
    }

    /// The lexeme `n` places after the cursor, if there is one.
    pub fn peek_n(&self, n: usize) -> (r: Option<Lexeme<'_>>)
        requires
            self.wf(),
            self@.index + n <= usize::MAX,
        ensures
            r is Some <==> self@.index + n < self@.tokens.len(),
            r matches Some(l) ==> l@ == (
                self@.tokens[self@.index + n],
                self@.spans[self@.index + n],
            ),
    {
        let next_id = self.index + n;
        if next_id >= self.tokens.len() {
            return None;
        }
        Some(self.get(next_id))
    }

    /// Number of tokens in the slice.
    pub fn token_len(&self) -> (r: usize)
        ensures
            r == self@.tokens.len(),
    {
        self.tokens.len()
    }

    pub fn tokens(&self) -> (r: &'a [Token])
        ensures
            r@ == self@.tokens,
    {
        self.tokens
    }

    /// The token at `idx`, which must exist.
    pub fn get_token(&self, idx: usize) -> (r: Token)
        requires
            idx < self@.tokens.len(),
        ensures
            r == self@.tokens[idx as int],
    {
        self.tokens[idx]
    }

    /// The lexeme at `index`, which must exist.
    pub fn get(&self, index: usize) -> (r: Lexeme<'_>)
        requires
            self.wf(),
            index < self@.tokens.len(),
        ensures
            r@ == (self@.tokens[index as int], self@.spans[index as int]),
    {
        Lexeme::new(&self.tokens[index], &self.spans[index])
    }

    /// Put the cursor back to the start.
    pub fn reset(&mut self)
        ensures
            final(self)@ == (SliceView { index: 0, ..old(self)@ }),
            old(self).wf() ==> final(self).wf(),
    {
        self.index = 0;
    }

    /// Put the cursor at `index`, or at the last index where `index` is past the length (at 0
    /// where the slice is empty).
    pub fn reset_to(&mut self, index: usize)
        ensures
            final(self)@ == (SliceView {
                index: if index <= old(self)@.tokens.len() {
                    index as int
                } else if old(self)@.tokens.len() > 0 {
                    old(self)@.tokens.len() - 1
                } else {
                    0
                },
                ..old(self)@
            }),
            old(self).wf() ==> final(self).wf(),
    {
        let len = self.tokens.len();
        self.index = if index <= len {
            index
        } else if len > 0 {
            len - 1
        } else {
            0
        };
    }

    /// Put the cursor at `index`.
    pub fn reset_to_unchecked(&mut self, index: usize)
        ensures
            final(self)@ == (SliceView { index: index as int, ..old(self)@ }),
            old(self).wf() ==> final(self).wf(),
    {
        self.index = index;
    }

    /// The range of the slice in the lexemes it was taken from.
    pub fn range_index(&self) -> (r: &Range<usize>)
        ensures
            *r == self@.range_index,
    {
        &self.range_index
    }

    /// The range, in the lexemes, of what the cursor has not passed yet: from the cursor to the
    /// end of the slice.
    pub fn remainder_range(&self) -> (r: Range<usize>)
        requires
            self@.range_index.start + self@.index <= usize::MAX,
        ensures
            r.start == self@.range_index.start + self@.index,
            r.end == self@.range_index.end,
    {
        let start = self.range_index.start + self.index;
        start..self.range_index.end
    }

    /// The lexeme at the cursor, which then moves on; `None` at the end.
    pub fn next(&mut self) -> (r: Option<Lexeme<'a>>)
        requires
            old(self).wf(),
        ensures
            final(self).wf(),
            r is Some <==> old(self)@.index < old(self)@.tokens.len(),
            r matches Some(l) ==> l@ == (
                old(self)@.tokens[old(self)@.index],
                old(self)@.spans[old(self)@.index],
            ) && final(self)@ == (SliceView { index: old(self)@.index + 1, ..old(self)@ }),
            r is None ==> final(self)@ == old(self)@,
    {
        if self.index >= self.tokens.len() {
            return None;
        }
        let tokens: &'a [Token] = self.tokens;
        let spans: &'a [Range<usize>] = self.spans;
        let lex = Lexeme { token: &tokens[self.index], span: &spans[self.index] };
        self.index = self.index + 1;
        Some(lex)
    }

    /// Number of tokens after the cursor.
    pub fn len(&self) -> (r: usize)
        requires
            self@.index <= self@.tokens.len(),
        ensures
            r == self@.tokens.len() - self@.index,
    {
        self.tokens.len() - self.index
    }
}

/// A token and its span.
#[derive(Debug)]
pub struct Lexeme<'a> {
    token: &'a Token,
    span: &'a Range<usize>,
}

impl<'a> View for Lexeme<'a> {
    type V = (Token, Range<usize>);

    closed spec fn view(&self) -> (Token, Range<usize>) {
        (*self.token, *self.span)
    }
}

impl<'a> Lexeme<'a> {
    fn new(token: &'a Token, span: &'a Range<usize>) -> (r: Self)
        ensures
            r@ == (*token, *span),
    {
        Lexeme { token, span }
    }

    pub fn token(&self) -> (r: &Token)
        ensures
            *r == self@.0,
    {
        self.token
    }

    pub fn span(&self) -> (r: &Range<usize>)
        ensures
            *r == self@.1,
    {
        self.span
    }
}

} // verus!
