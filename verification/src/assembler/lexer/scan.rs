//! What the lexer finds at a position of the source: the grammar of the tokens, on bytes.
use vstd::prelude::*;

use crate::assembler::assembly::directive::{spec_directive_of, DirectiveType};
use crate::assembler::helper::{ascii_text, is_ascii};
use crate::assembler::token::helper::{
    is_digit, is_hex_digit, is_literal_digit, spec_head_len, spec_identifier_type,
};
use crate::assembler::token::Token;
use std::ops::Range;

verus! {

/// `[ \t\f]`: blanks between tokens.
pub open spec fn is_blank(b: u8) -> bool {
    b == 32 || b == 9 || b == 12
}

/// `[a-zA-Z]`
pub open spec fn is_alpha(b: u8) -> bool {
    (65 <= b <= 90) || (97 <= b <= 122)
}

/// `\w` on ASCII: `[a-zA-Z0-9_]`
pub open spec fn is_word(b: u8) -> bool {
    is_alpha(b) || is_digit(b) || b == 95
}

/// The end of the run of word bytes that starts at `i`.
pub open spec fn word_end(s: Seq<u8>, i: int) -> int
    decreases s.len() - i,
{
    if i < 0 || i >= s.len() || !is_word(s[i]) {
        i
    } else {
        word_end(s, i + 1)
    }
}

/// The end of the run of blanks that starts at `i`.
pub open spec fn blank_end(s: Seq<u8>, i: int) -> int
    decreases s.len() - i,
{
    if i < 0 || i >= s.len() || !is_blank(s[i]) {
        i
    } else {
        blank_end(s, i + 1)
    }
}

/// The position of the next newline from `i`, or the end of the source.
pub open spec fn line_end(s: Seq<u8>, i: int) -> int
    decreases s.len() - i,
{
    if i < 0 || i >= s.len() || s[i] == 10 {
        i
    } else {
        line_end(s, i + 1)
    }
}

/// The end of a string whose body starts at `j`, just after the closing quote; `None` where
/// no quote closes it, or a backslash escapes a newline or nothing.
pub open spec fn string_end(s: Seq<u8>, j: int) -> Option<int>
    decreases s.len() - j,
{
    if j < 0 || j >= s.len() {
        None
    } else if s[j] == 34 {
        Some(j + 1)
    } else if s[j] == 92 {
        if j + 1 < s.len() && s[j + 1] != 10 {
            string_end(s, j + 2)
        } else {
            None
        }
    } else {
        string_end(s, j + 1)
    }
}

/// What starts at a position of the source, before the token's own checks.
#[derive(Debug, Clone, Copy, PartialEq, Eq, Structural)]
pub enum Piece {
    /// Blanks or a comment
    Skip,
    /// An identifier: a mnemonic, a register or a symbol
    Ident,
    /// A label, with its colon
    Label,
    /// A dot and a name
    Directive,
    /// A string with its quotes
    Str,
    /// An integer literal of the kind given (0 decimal, 1 hex, 2 binary)
    Int(u8),
    /// A token of one byte
    Sym(Token),
    /// Nothing the language knows
    NoMatch,
}

/// The kind of the integer literal whose first digit is at `d`: hex after `0x` and a hex
/// digit, binary after `0b` and a binary digit, else decimal.
pub open spec fn int_kind(s: Seq<u8>, d: int) -> u8 {
    if d + 2 < s.len() && s[d] == 48 && s[d + 1] == 120 && is_hex_digit(s[d + 2]) {
        1
    } else if d + 2 < s.len() && s[d] == 48 && s[d + 1] == 98 && (s[d + 2] == 48 || s[d + 2]
        == 49) {
        2
    } else {
        0
    }
}

/// What starts at `i` and where it ends. Where several token patterns match, the longest
/// wins; of equally long ones a hex or binary literal wins over a decimal one.
pub open spec fn spec_piece(s: Seq<u8>, i: int) -> (Piece, int) {
    let c = s[i];
    if is_blank(c) {
        (Piece::Skip, blank_end(s, i))
    } else if c == 10 {
        (Piece::Sym(Token::Eol), i + 1)
    } else if c == 59 || c == 35 || (c == 47 && i + 1 < s.len() && s[i + 1] == 47) {
        (Piece::Skip, line_end(s, i))
    } else if c == 34 {
        match string_end(s, i + 1) {
            Some(e) => (Piece::Str, e),
            None => (Piece::NoMatch, i + 1),
        }
    } else if c == 46 {
        if i + 2 < s.len() && is_alpha(s[i + 1]) && is_word(s[i + 2]) {
            (Piece::Directive, word_end(s, i + 2))
        } else {
            (Piece::NoMatch, i + 1)
        }
    } else if is_alpha(c) || c == 95 {
        let e = word_end(s, i + 1);
        if e < i + 2 {
            (Piece::NoMatch, i + 1)
        } else if is_alpha(c) && e < s.len() && s[e] == 58 {
            (Piece::Label, e + 1)
        } else {
            (Piece::Ident, e)
        }
    } else if is_digit(c) {
        (Piece::Int(int_kind(s, i)), word_end(s, i))
    } else if c == 45 {
        if i + 1 < s.len() && is_digit(s[i + 1]) {
            (Piece::Int(int_kind(s, i + 1)), word_end(s, i + 1))
        } else {
            (Piece::Sym(Token::Negative), i + 1)
        }
    } else if c == 43 {
        (Piece::Sym(Token::Positive), i + 1)
    } else if c == 41 {
        (Piece::Sym(Token::ParenR), i + 1)
    } else if c == 40 {
        (Piece::Sym(Token::ParenL), i + 1)
    } else if c == 39 {
        (Piece::Sym(Token::QuoteSingle), i + 1)
    } else if c == 44 {
        (Piece::Sym(Token::Comma), i + 1)
    } else if c == 58 {
        (Piece::Sym(Token::Colon), i + 1)
    } else {
        (Piece::NoMatch, i + 1)
    }
}

/// Why the source could not be split into tokens, with the texts as characters.
pub enum LexFault {
    UnknownDirective(Seq<char>, int),
    InvalidSuffix(Seq<char>, int),
    NonAsciiCharacter(int),
    UnknownSyntax(Seq<char>, int),
    Error,
}

/// The position of the first byte from `p` on that is not a digit of kind `k`.
pub open spec fn first_bad(k: u8, t: Seq<u8>, p: int) -> Option<int>
    decreases t.len() - p,
{
    if p < 0 || p >= t.len() {
        None
    } else if !is_literal_digit(k, t[p]) {
        Some(p)
    } else {
        first_bad(k, t, p + 1)
    }
}

/// `first_bad` finds a byte at or after `p`, inside `t`, that is not a digit.
pub proof fn lemma_first_bad(k: u8, t: Seq<u8>, p: int)
    requires
        0 <= p,
    ensures
        first_bad(k, t, p) matches Some(q) ==> p <= q < t.len() && !is_literal_digit(k, t[q]),
    decreases t.len() - p,
{
    if p < t.len() && is_literal_digit(k, t[p]) {
        lemma_first_bad(k, t, p + 1);
    }
}

/// The token of an integer literal of kind `k`.
pub open spec fn int_token(k: u8) -> Token {
    if k == 0 {
        Token::LiteralDecimal
    } else if k == 1 {
        Token::LiteralHex
    } else {
        Token::LiteralBinary
    }
}

/// The digits of the integer literal at `i..e`: after the sign and the prefix.
pub open spec fn literal_digits(s: Seq<u8>, i: int, e: int, k: u8) -> Seq<u8> {
    let d = if s[i] == 45 {
        i + 1
    } else {
        i
    };
    s.subrange(d + spec_head_len(k), e)
}

/// The token, or the error, for the piece `p` found at `i..e`. `row` is the current row and
/// `last` the last token; a name after `.section` that is no directive names a custom section.
pub open spec fn spec_resolve(s: Seq<u8>, i: int, p: Piece, e: int, row: int, last: Token) -> Result<
    Token,
    LexFault,
> {
    match p {
        Piece::Ident => Ok(Token::Identifier(spec_identifier_type(s.subrange(i, e)))),
        Piece::Label => Ok(Token::Label),
        Piece::Directive => match spec_directive_of(s.subrange(i + 1, e)) {
            Some(d) => Ok(Token::Directive(d)),
            None => if last == Token::Directive(DirectiveType::Section) {
                Ok(Token::Directive(DirectiveType::CustomSection))
            } else {
                Err(LexFault::UnknownDirective(ascii_text(s.subrange(i, e)), row))
            },
        },
        Piece::Str => Ok(Token::LiteralString),
        Piece::Int(k) => {
            let t = literal_digits(s, i, e, k);
            match first_bad(k, t, 0) {
                Some(q) => Err(LexFault::InvalidSuffix(ascii_text(t.subrange(q, t.len() as int)), 1)),
                None => Ok(int_token(k)),
            }
        },
        Piece::Sym(t) => Ok(t),
        _ => if s[i] < 128 {
            Err(LexFault::UnknownSyntax(ascii_text(s.subrange(i, i + 1)), row + 1))
        } else {
            Err(LexFault::NonAsciiCharacter(row + 1))
        },
    }
}

/// The span kept for a token found at `i..e`: a label without its colon, a directive without
/// its dot, a string without its quotes.
pub open spec fn spec_span(t: Token, i: int, e: int) -> core::ops::Range<usize> {
    match t {
        Token::Label => (i as usize)..((e - 1) as usize),
        Token::Directive(_) => ((i + 1) as usize)..(e as usize),
        Token::LiteralString => ((i + 1) as usize)..((e - 1) as usize),
        _ => (i as usize)..(e as usize),
    }
}

/// The tokens and spans of `s` from `i` on, with the lexer at row `row` after the token
/// `last`; or the first error. Blanks and comments are skipped; every token or error moves
/// the row on by one, and a newline by one more.
pub open spec fn lex_from(s: Seq<u8>, i: int, row: int, last: Token) -> Result<
    (Seq<Token>, Seq<core::ops::Range<usize>>),
    LexFault,
>
    decreases s.len() - i,
{
    if i < 0 || i >= s.len() {
        Ok((Seq::empty(), Seq::empty()))
    } else {
        let (p, e) = spec_piece(s, i);
        if e <= i || e > s.len() {
            Ok((Seq::empty(), Seq::empty()))
        } else if p == Piece::Skip {
            lex_from(s, e, row, last)
        } else {
            let row1 = if p == Piece::Sym(Token::Eol) {
                row + 1
            } else {
                row
            };
            match spec_resolve(s, i, p, e, row1, last) {
                Err(f) => Err(f),
                Ok(t) => match lex_from(s, e, row1 + 1, t) {
                    Err(f) => Err(f),
                    Ok((ts, sps)) => Ok((seq![t] + ts, seq![spec_span(t, i, e)] + sps)),
                },
            }
        }
    }
}

/// The tokens and spans of `s`, closed by the end of input where there is any token; or the
/// first error.
pub open spec fn spec_tokenize(s: Seq<u8>) -> Result<
    (Seq<Token>, Seq<core::ops::Range<usize>>),
    LexFault,
> {
    match lex_from(s, 0, 1, Token::Eol) {
        Err(f) => Err(f),
        Ok((ts, sps)) => if ts.len() == 0 {
            Ok((ts, sps))
        } else {
            let end = sps.last().end;
            Ok((ts.push(Token::Eof), sps.push(end..end)))
        },
    }
}

/// Each run ends at or after where it starts, and inside the source.
pub proof fn lemma_runs(s: Seq<u8>, i: int)
    requires
        0 <= i <= s.len(),
    ensures
        i <= word_end(s, i) <= s.len(),
        i <= blank_end(s, i) <= s.len(),
        i <= line_end(s, i) <= s.len(),
        forall|j: int| i <= j < word_end(s, i) ==> is_word(#[trigger] s[j]),
    decreases s.len() - i,
{
    if i < s.len() {
        lemma_runs(s, i + 1);
    }
}

/// A string ends after its start, inside the source.
pub proof fn lemma_string_end(s: Seq<u8>, j: int)
    requires
        0 <= j,
    ensures
        string_end(s, j) matches Some(e) ==> j < e <= s.len(),
    decreases s.len() - j,
{
    if 0 <= j < s.len() && s[j] != 34 {
        if s[j] == 92 {
            if j + 1 < s.len() && s[j + 1] != 10 {
                lemma_string_end(s, j + 2);
            }
        } else {
            lemma_string_end(s, j + 1);
        }
    }
}

/// Every piece moves past its first byte and stays inside the source; a label ends with its
/// colon and a string with its quote.
pub proof fn lemma_piece(s: Seq<u8>, i: int)
    requires
        0 <= i < s.len(),
    ensures
        i < spec_piece(s, i).1 <= s.len(),
        spec_piece(s, i).0 == Piece::Label ==> i + 2 < spec_piece(s, i).1,
        spec_piece(s, i).0 == Piece::Str ==> i + 2 <= spec_piece(s, i).1,
        spec_piece(s, i).0 == Piece::Directive ==> i + 2 < spec_piece(s, i).1,
        spec_piece(s, i).0 is Int ==> {
            let d = if s[i] == 45 { i + 1 } else { i };
            &&& d < spec_piece(s, i).1
            &&& is_digit(s[d])
            &&& d + spec_head_len(spec_piece(s, i).0->Int_0) < spec_piece(s, i).1
            &&& forall|j: int| i < j < spec_piece(s, i).1 ==> is_word(#[trigger] s[j])
            &&& spec_piece(s, i).0->Int_0 <= 2
        },
        spec_piece(s, i).0 == Piece::Ident ==> forall|j: int|
            i <= j < spec_piece(s, i).1 ==> is_word(#[trigger] s[j]),
        spec_piece(s, i).0 == Piece::Directive ==> forall|j: int|
            i < j < spec_piece(s, i).1 ==> is_word(#[trigger] s[j]),
{
    lemma_runs(s, i);
    lemma_runs(s, i + 1);
    if i + 2 <= s.len() {
        lemma_runs(s, i + 2);
    }
    lemma_string_end(s, i + 1);
    let c = s[i];
    if i + 3 <= s.len() {
        lemma_runs(s, i + 3);
        if is_word(s[i + 2]) {
            assert(word_end(s, i + 2) == word_end(s, i + 3));
        }
    }
    if c == 45 && i + 1 < s.len() && is_digit(s[i + 1]) {
        let d = i + 1;
        if int_kind(s, d) != 0 {
            lemma_runs(s, d + 3);
            assert(word_end(s, d) == word_end(s, d + 1));
            assert(word_end(s, d + 1) == word_end(s, d + 2));
            assert(word_end(s, d + 2) == word_end(s, d + 3));
        }
    } else if is_digit(c) {
        if int_kind(s, i) != 0 {
            assert(word_end(s, i) == word_end(s, i + 1));
            assert(word_end(s, i + 1) == word_end(s, i + 2));
            assert(word_end(s, i + 2) == word_end(s, i + 3));
        }
    }
}

/// The kind number of an integer literal token: 0 decimal, 1 hex, 2 binary.
pub open spec fn literal_kind(t: Token) -> u8 {
    match t {
        Token::LiteralHex => 1,
        Token::LiteralBinary => 2,
        _ => 0,
    }
}

/// A span lies inside the source; that of an integer literal holds at least one byte after
/// its sign and prefix.
pub open spec fn span_ok(s: Seq<u8>, t: Token, sp: Range<usize>) -> bool {
    &&& sp.start <= sp.end <= s.len()
    &&& t.spec_is_literal_integer() ==> {
        &&& sp.start < sp.end
        &&& (if s[sp.start as int] == 45 {
            1int
        } else {
            0int
        }) + spec_head_len(literal_kind(t)) < sp.end - sp.start
    }
}

/// As many spans as tokens, and each span fits its token.
pub open spec fn spans_ok(s: Seq<u8>, ts: Seq<Token>, sps: Seq<Range<usize>>) -> bool {
    &&& ts.len() == sps.len()
    &&& forall|k: int| 0 <= k < ts.len() ==> span_ok(s, #[trigger] ts[k], sps[k])
}

/// The lexer gives spans that fit their tokens.
pub proof fn lemma_lex_from_spans(s: Seq<u8>, i: int, row: int, last: Token)
    requires
        0 <= i,
        s.len() <= usize::MAX,
    ensures
        lex_from(s, i, row, last) matches Ok((ts, sps)) ==> spans_ok(s, ts, sps),
    decreases s.len() - i,
{
    if i < s.len() {
        lemma_piece(s, i);
        let (p, e) = spec_piece(s, i);
        if p == Piece::Skip {
            lemma_lex_from_spans(s, e, row, last);
        } else {
            let row1 = if p == Piece::Sym(Token::Eol) {
                row + 1
            } else {
                row
            };
            if let Ok(t) = spec_resolve(s, i, p, e, row1, last) {
                lemma_lex_from_spans(s, e, row1 + 1, t);
                if let Ok((ts, sps)) = lex_from(s, e, row1 + 1, t) {
                    let all_t = seq![t] + ts;
                    let all_s = seq![spec_span(t, i, e)] + sps;
                    assert(span_ok(s, t, spec_span(t, i, e))) by {
                        if t.spec_is_literal_integer() {
                            assert(p is Int);
                            let k = p->Int_0;
                            assert(int_token(k) == t);
                            assert(literal_kind(t) == k);
                            assert(spec_span(t, i, e) == ((i as usize)..(e as usize)));
                        }
                    }
                    assert forall|k: int| 0 <= k < all_t.len() implies span_ok(
                        s,
                        #[trigger] all_t[k],
                        all_s[k],
                    ) by {
                        if k > 0 {
                            assert(all_t[k] == ts[k - 1]);
                            assert(all_s[k] == sps[k - 1]);
                        }
                    }
                }
            }
        }
    }
}

/// The lexer gives at most one token per byte.
pub proof fn lemma_lex_from_len(s: Seq<u8>, i: int, row: int, last: Token)
    requires
        0 <= i <= s.len(),
    ensures
        lex_from(s, i, row, last) matches Ok((ts, sps)) ==> ts.len() <= s.len() - i,
    decreases s.len() - i,
{
    if i < s.len() {
        lemma_piece(s, i);
        let (p, e) = spec_piece(s, i);
        if p == Piece::Skip {
            lemma_lex_from_len(s, e, row, last);
        } else {
            let row1 = if p == Piece::Sym(Token::Eol) {
                row + 1
            } else {
                row
            };
            if let Ok(t) = spec_resolve(s, i, p, e, row1, last) {
                lemma_lex_from_len(s, e, row1 + 1, t);
            }
        }
    }
}

/// The tokens of a source, closed by the end of input: at most one more than bytes, the last
/// the end of input, each with a span that fits it.
pub proof fn lemma_tokenize(s: Seq<u8>)
    requires
        s.len() <= usize::MAX,
    ensures
        spec_tokenize(s) matches Ok((ts, sps)) ==> {
            &&& spans_ok(s, ts, sps)
            &&& ts.len() <= s.len() + 1
            &&& (ts.len() == 0 || ts.last() == Token::Eof)
        },
{
    lemma_tokenize_spans(s);
    lemma_lex_from_len(s, 0, 1, Token::Eol);
}

/// The tokens of a source come with spans that fit them.
pub proof fn lemma_tokenize_spans(s: Seq<u8>)
    requires
        s.len() <= usize::MAX,
    ensures
        spec_tokenize(s) matches Ok((ts, sps)) ==> spans_ok(s, ts, sps),
{
    lemma_lex_from_spans(s, 0, 1, Token::Eol);
    if let Ok((ts, sps)) = lex_from(s, 0, 1, Token::Eol) {
        if ts.len() > 0 {
            let end = sps.last().end;
            assert(span_ok(s, ts.last(), sps.last()));
            let ts2 = ts.push(Token::Eof);
            let sps2 = sps.push(end..end);
            assert forall|k: int| 0 <= k < ts2.len() implies span_ok(
                s,
                #[trigger] ts2[k],
                sps2[k],
            ) by {
                if k < ts.len() {
                    assert(ts2[k] == ts[k]);
                    assert(sps2[k] == sps[k]);
                }
            }
        }
    }
}

/// Word bytes are ASCII.
pub proof fn lemma_word_ascii(s: Seq<u8>, a: int, b: int)
    requires
        0 <= a <= b <= s.len(),
        forall|j: int| a <= j < b ==> is_word(#[trigger] s[j]),
    ensures
        is_ascii(s.subrange(a, b)),
{
    assert forall|j: int| 0 <= j < b - a implies #[trigger] s.subrange(a, b)[j] < 128 by {
        assert(is_word(s[a + j]));
    }
}


/// Whether `b` is a blank.
pub fn blank_byte(b: u8) -> (r: bool)
    ensures
        r == is_blank(b),
{
    b == 32 || b == 9 || b == 12
}

/// Whether `b` is a letter.
pub fn alpha_byte(b: u8) -> (r: bool)
    ensures
        r == is_alpha(b),
{
    (b >= 65 && b <= 90) || (b >= 97 && b <= 122)
}

/// Whether `b` is a decimal digit.
pub fn digit_byte(b: u8) -> (r: bool)
    ensures
        r == is_digit(b),
{
    b >= 48 && b <= 57
}

/// Whether `b` is a word byte.
pub fn word_byte(b: u8) -> (r: bool)
    ensures
        r == is_word(b),
{
    alpha_byte(b) || digit_byte(b) || b == 95
}

/// Whether `b` is a hexadecimal digit.
pub fn hex_byte(b: u8) -> (r: bool)
    ensures
        r == is_hex_digit(b),
{
    digit_byte(b) || (b >= 65 && b <= 70) || (b >= 97 && b <= 102)
}

/// The end of the run of word bytes from `i`.
pub fn exec_word_end(s: &[u8], i: usize) -> (r: usize)
    requires
        i <= s@.len(),
    ensures
        r == word_end(s@, i as int),
{
    let mut j = i;
    while j < s.len() && word_byte(s[j])
        invariant
            i <= j <= s@.len(),
            word_end(s@, i as int) == word_end(s@, j as int),
        decreases s@.len() - j,
    {
        j = j + 1;
    }
    j
}

/// The end of the run of blanks from `i`.
pub fn exec_blank_end(s: &[u8], i: usize) -> (r: usize)
    requires
        i <= s@.len(),
    ensures
        r == blank_end(s@, i as int),
{
    let mut j = i;
    while j < s.len() && blank_byte(s[j])
        invariant
            i <= j <= s@.len(),
            blank_end(s@, i as int) == blank_end(s@, j as int),
        decreases s@.len() - j,
    {
        j = j + 1;
    }
    j
}

/// The position of the next newline from `i`, or the end.
pub fn exec_line_end(s: &[u8], i: usize) -> (r: usize)
    requires
        i <= s@.len(),
    ensures
        r == line_end(s@, i as int),
{
    let mut j = i;
    while j < s.len() && s[j] != 10
        invariant
            i <= j <= s@.len(),
            line_end(s@, i as int) == line_end(s@, j as int),
        decreases s@.len() - j,
    {
        j = j + 1;
    }
    j
}

/// The end of a string whose body starts at `j0`.
pub fn exec_string_end(s: &[u8], j0: usize) -> (r: Option<usize>)
    requires
        j0 <= s@.len(),
    ensures
        r matches Some(e) ==> string_end(s@, j0 as int) == Some(e as int),
        r is None ==> string_end(s@, j0 as int) is None,
{
    let mut j = j0;
    while j < s.len()
        invariant
            j0 <= j <= s@.len(),
            string_end(s@, j0 as int) == string_end(s@, j as int),
        decreases s@.len() - j,
    {
        if s[j] == 34 {
            return Some(j + 1);
        } else if s[j] == 92 {
            if j + 1 < s.len() && s[j + 1] != 10 {
                j = j + 2;
            } else {
                return None;
            }
        } else {
            j = j + 1;
        }
    }
    None
}

/// The kind of the integer literal whose first digit is at `d`.
pub fn exec_int_kind(s: &[u8], d: usize) -> (r: u8)
    requires
        d < s@.len(),
    ensures
        r == int_kind(s@, d as int),
{
    if s.len() - d > 2 && s[d] == 48 && s[d + 1] == 120 && hex_byte(s[d + 2]) {
        1
    } else if s.len() - d > 2 && s[d] == 48 && s[d + 1] == 98 && (s[d + 2] == 48 || s[d + 2]
        == 49) {
        2
    } else {
        0
    }
}

/// What starts at `i` and where it ends.
pub fn scan(s: &[u8], i: usize) -> (r: (Piece, usize))
    requires
        i < s@.len(),
    ensures
        r.0 == spec_piece(s@, i as int).0,
        r.1 == spec_piece(s@, i as int).1,
{
    let c = s[i];
    if blank_byte(c) {
        (Piece::Skip, exec_blank_end(s, i))
    } else if c == 10 {
        (Piece::Sym(Token::Eol), i + 1)
    } else if c == 59 || c == 35 || (c == 47 && i + 1 < s.len() && s[i + 1] == 47) {
        (Piece::Skip, exec_line_end(s, i))
    } else if c == 34 {
        match exec_string_end(s, i + 1) {
            Some(e) => (Piece::Str, e),
            None => (Piece::NoMatch, i + 1),
        }
    } else if c == 46 {
        if s.len() - i > 2 && alpha_byte(s[i + 1]) && word_byte(s[i + 2]) {
            (Piece::Directive, exec_word_end(s, i + 2))
        } else {
            (Piece::NoMatch, i + 1)
        }
    } else if alpha_byte(c) || c == 95 {
        let e = exec_word_end(s, i + 1);
        proof {
            lemma_runs(s@, i + 1);
        }
        if e - i < 2 {
            (Piece::NoMatch, i + 1)
        } else if alpha_byte(c) && e < s.len() && s[e] == 58 {
            (Piece::Label, e + 1)
        } else {
            (Piece::Ident, e)
        }
    } else if digit_byte(c) {
        (Piece::Int(exec_int_kind(s, i)), exec_word_end(s, i))
    } else if c == 45 {
        if i + 1 < s.len() && digit_byte(s[i + 1]) {
            (Piece::Int(exec_int_kind(s, i + 1)), exec_word_end(s, i + 1))
        } else {
            (Piece::Sym(Token::Negative), i + 1)
        }
    } else if c == 43 {
        (Piece::Sym(Token::Positive), i + 1)
    } else if c == 41 {
        (Piece::Sym(Token::ParenR), i + 1)
    } else if c == 40 {
        (Piece::Sym(Token::ParenL), i + 1)
    } else if c == 39 {
        (Piece::Sym(Token::QuoteSingle), i + 1)
    } else if c == 44 {
        (Piece::Sym(Token::Comma), i + 1)
    } else if c == 58 {
        (Piece::Sym(Token::Colon), i + 1)
    } else {
        (Piece::NoMatch, i + 1)
    }
}

/// The position of the first byte of `t` from `p` on that is not a digit of kind `k`.
pub fn exec_first_bad(k: u8, t: &[u8], p: usize) -> (r: Option<usize>)
    requires
        p <= t@.len(),
    ensures
        r matches Some(q) ==> first_bad(k, t@, p as int) == Some(q as int),
        r is None ==> first_bad(k, t@, p as int) is None,
{
    let mut j = p;
    while j < t.len()
        invariant
            p <= j <= t@.len(),
            first_bad(k, t@, p as int) == first_bad(k, t@, j as int),
        decreases t@.len() - j,
    {
        let bad = if k == 0 {
            !digit_byte(t[j])
        } else if k == 1 {
            !hex_byte(t[j])
        } else {
            !(t[j] == 48 || t[j] == 49)
        };
        if bad {
            return Some(j);
        }
        j = j + 1;
    }
    None
}

/// The token of an integer literal of kind `k`.
pub fn exec_int_token(k: u8) -> (r: Token)
    ensures
        r == int_token(k),
{
    if k == 0 {
        Token::LiteralDecimal
    } else if k == 1 {
        Token::LiteralHex
    } else {
        Token::LiteralBinary
    }
}


/// The bytes that may follow a source to comment out the rest of its last line: a comment
/// marker (`;`, `#` or `//`) and then no newline and no double quote. `//` may not follow a
/// source that ends with `/`, which it would join.
pub open spec fn is_trailing_comment(s: Seq<u8>, u: Seq<u8>) -> bool {
    &&& u.len() >= 1
    &&& (u[0] == 59 || u[0] == 35 || (u[0] == 47 && u.len() >= 2 && u[1] == 47 && (s.len() == 0
        || s.last() != 47)))
    &&& forall|j: int| 0 <= j < u.len() ==> #[trigger] u[j] != 10 && u[j] != 34
}

/// A comment adds nothing: a source followed by a comment to the end of its last line
/// tokenizes as the source alone, to the same tokens and spans, or the same error.
pub proof fn lemma_trailing_comment(s: Seq<u8>, u: Seq<u8>)
    requires
        is_trailing_comment(s, u),
    ensures
        spec_tokenize(s + u) == spec_tokenize(s),
{
    lemma_lex_prefix(s, u, 0, 1, Token::Eol);
}

/// Lexing a source followed by a comment, from a position of the source, gives what lexing the
/// source alone gives from there.
proof fn lemma_lex_prefix(s: Seq<u8>, u: Seq<u8>, i: int, row: int, last: Token)
    requires
        is_trailing_comment(s, u),
        0 <= i <= s.len(),
    ensures
        lex_from(s + u, i, row, last) == lex_from(s, i, row, last),
    decreases s.len() - i,
{
    let t = s + u;
    if i == s.len() {
        lemma_line_end_tail(s, u, i);
        if u[0] == 47 {
            assert(t[i + 1] == u[1]);
        }
        assert(spec_piece(t, i) == (Piece::Skip, t.len() as int));
        assert(lex_from(t, t.len() as int, row, last) == Ok::<
            (Seq<Token>, Seq<core::ops::Range<usize>>),
            LexFault,
        >((Seq::empty(), Seq::empty())));
    } else {
        lemma_piece(s, i);
        lemma_piece_prefix(s, u, i);
        let (p, e) = spec_piece(s, i);
        if p == Piece::Skip && spec_piece(t, i).1 != e {
            assert(e == s.len());
            assert(spec_piece(t, i).1 == t.len());
            assert(lex_from(t, t.len() as int, row, last) == Ok::<
                (Seq<Token>, Seq<core::ops::Range<usize>>),
                LexFault,
            >((Seq::empty(), Seq::empty())));
            lemma_lex_prefix(s, u, e, row, last);
        } else if p == Piece::Skip {
            lemma_lex_prefix(s, u, e, row, last);
        } else {
            let row1 = if p == Piece::Sym(Token::Eol) {
                row + 1
            } else {
                row
            };
            lemma_resolve_prefix(s, u, i, p, e, row1, last);
            if let Ok(tok) = spec_resolve(s, i, p, e, row1, last) {
                lemma_lex_prefix(s, u, e, row1 + 1, tok);
            }
        }
    }
}

/// Resolving a piece that lies inside the source does not look past it.
proof fn lemma_resolve_prefix(
    s: Seq<u8>,
    u: Seq<u8>,
    i: int,
    p: Piece,
    e: int,
    row: int,
    last: Token,
)
    requires
        0 <= i < e <= s.len(),
        p == spec_piece(s, i).0,
        e == spec_piece(s, i).1,
    ensures
        spec_resolve(s + u, i, p, e, row, last) == spec_resolve(s, i, p, e, row, last),
{
    lemma_piece(s, i);
    let t = s + u;
    assert(t.subrange(i, e) =~= s.subrange(i, e));
    assert(t.subrange(i + 1, e) =~= s.subrange(i + 1, e));
    assert(t.subrange(i, i + 1) =~= s.subrange(i, i + 1));
    assert(t[i] == s[i]);
    if let Piece::Int(k) = p {
        let d = if s[i] == 45 {
            i + 1
        } else {
            i
        };
        assert(t.subrange(d + spec_head_len(k), e) =~= s.subrange(d + spec_head_len(k), e));
    }
}

/// What starts inside the source is found alike with the comment after it, but that a
/// comment, or blanks, running to the end of the source run on to the end of the comment.
proof fn lemma_piece_prefix(s: Seq<u8>, u: Seq<u8>, i: int)
    requires
        is_trailing_comment(s, u),
        0 <= i < s.len(),
    ensures
        ({
            let (p, e) = spec_piece(s, i);
            let (p2, e2) = spec_piece(s + u, i);
            &&& p2 == p
            &&& (e2 == e || (p == Piece::Skip && e == s.len() && e2 == s.len() + u.len()))
        }),
{
    let t = s + u;
    let n = s.len() as int;
    assert(t[n] == u[0]);
    assert(t[i] == s[i]);
    if i + 1 < n {
        assert(t[i + 1] == s[i + 1]);
    }
    if i + 2 < n {
        assert(t[i + 2] == s[i + 2]);
    }
    if i + 3 < n {
        assert(t[i + 3] == s[i + 3]);
    }
    lemma_word_end_prefix(s, u, i);
    lemma_word_end_prefix(s, u, i + 1);
    if i + 2 <= n {
        lemma_word_end_prefix(s, u, i + 2);
    }
    lemma_blank_end_prefix(s, u, i);
    lemma_line_end_prefix(s, u, i);
    lemma_string_end_prefix(s, u, i + 1);
    lemma_runs(s, i);
    lemma_runs(s, i + 1);
    lemma_int_kind_prefix(s, u, i);
    if i + 1 < n {
        lemma_int_kind_prefix(s, u, i + 1);
    }
    if s[i] == 47 && i + 1 == n {
        assert(s.last() == 47);
    }
    let e1 = word_end(s, i + 1);
    if e1 == n {
        assert(t[e1] == u[0]);
    } else if e1 < n {
        assert(t[e1] == s[e1]);
    }
}

/// The kind of an integer literal starting inside the source does not depend on the comment.
proof fn lemma_int_kind_prefix(s: Seq<u8>, u: Seq<u8>, d: int)
    requires
        is_trailing_comment(s, u),
        0 <= d < s.len(),
    ensures
        int_kind(s + u, d) == int_kind(s, d),
{
    let t = s + u;
    let n = s.len() as int;
    assert(t[n] == u[0]);
    assert(t[d] == s[d]);
    if d + 1 < n {
        assert(t[d + 1] == s[d + 1]);
    }
    if d + 2 < n {
        assert(t[d + 2] == s[d + 2]);
    }
}

/// A run of word bytes inside the source stops where it did: the comment starts with no word
/// byte.
proof fn lemma_word_end_prefix(s: Seq<u8>, u: Seq<u8>, i: int)
    requires
        is_trailing_comment(s, u),
        0 <= i <= s.len(),
    ensures
        word_end(s + u, i) == word_end(s, i),
    decreases s.len() - i,
{
    let t = s + u;
    if i < s.len() {
        assert(t[i] == s[i]);
        lemma_word_end_prefix(s, u, i + 1);
    } else {
        assert(t[i] == u[0]);
    }
}

/// A run of blanks inside the source stops where it did.
proof fn lemma_blank_end_prefix(s: Seq<u8>, u: Seq<u8>, i: int)
    requires
        is_trailing_comment(s, u),
        0 <= i <= s.len(),
    ensures
        blank_end(s + u, i) == blank_end(s, i),
    decreases s.len() - i,
{
    let t = s + u;
    if i < s.len() {
        assert(t[i] == s[i]);
        lemma_blank_end_prefix(s, u, i + 1);
    } else {
        assert(t[i] == u[0]);
    }
}

/// The comment holds no newline: from inside it the line ends with the source.
proof fn lemma_line_end_tail(s: Seq<u8>, u: Seq<u8>, j: int)
    requires
        is_trailing_comment(s, u),
        s.len() <= j <= s.len() + u.len(),
    ensures
        line_end(s + u, j) == s.len() + u.len(),
    decreases s.len() + u.len() - j,
{
    let t = s + u;
    if j < t.len() {
        assert(t[j] == u[j - s.len()]);
        lemma_line_end_tail(s, u, j + 1);
    }
}

/// A line that ends inside the source ends there still; one that runs to the end of the
/// source runs on to the end of the comment.
proof fn lemma_line_end_prefix(s: Seq<u8>, u: Seq<u8>, i: int)
    requires
        is_trailing_comment(s, u),
        0 <= i <= s.len(),
    ensures
        line_end(s, i) < s.len() ==> line_end(s + u, i) == line_end(s, i),
        line_end(s, i) >= s.len() ==> line_end(s + u, i) == s.len() + u.len(),
    decreases s.len() - i,
{
    let t = s + u;
    if i < s.len() {
        assert(t[i] == s[i]);
        lemma_line_end_prefix(s, u, i + 1);
    } else {
        lemma_line_end_tail(s, u, i);
    }
}

/// No string closes inside the comment: it holds no double quote.
proof fn lemma_string_end_tail(s: Seq<u8>, u: Seq<u8>, j: int)
    requires
        is_trailing_comment(s, u),
        s.len() <= j,
    ensures
        string_end(s + u, j) is None,
    decreases s.len() + u.len() - j,
{
    let t = s + u;
    if j < t.len() {
        assert(t[j] == u[j - s.len()]);
        if t[j] == 92 {
            if j + 1 < t.len() && t[j + 1] != 10 {
                lemma_string_end_tail(s, u, j + 2);
            }
        } else {
            lemma_string_end_tail(s, u, j + 1);
        }
    }
}

/// A string whose body starts inside the source ends where it did, or stays unclosed.
proof fn lemma_string_end_prefix(s: Seq<u8>, u: Seq<u8>, j: int)
    requires
        is_trailing_comment(s, u),
        0 <= j,
    ensures
        string_end(s + u, j) == string_end(s, j),
    decreases s.len() - j,
{
    let t = s + u;
    if j >= s.len() {
        lemma_string_end_tail(s, u, j);
    } else {
        assert(t[j] == s[j]);
        if s[j] == 92 {
            if j + 1 < s.len() {
                assert(t[j + 1] == s[j + 1]);
                if s[j + 1] != 10 {
                    lemma_string_end_prefix(s, u, j + 2);
                }
            } else {
                assert(t[j + 1] == u[0]);
                lemma_string_end_tail(s, u, j + 2);
            }
        } else if s[j] != 34 {
            lemma_string_end_prefix(s, u, j + 1);
        }
    }
}

} // verus!
