//! Expressions of constants: `.set name, 1 + 2 - x`, kept in postfix order.
use vstd::prelude::*;

use crate::assembler::helper::{parse_int, spec_parse_int};
use crate::assembler::instruction::kind_base;
use crate::assembler::interner::{spec_intern, Interner, StrId};
use crate::assembler::ir::IRError;
use crate::assembler::lexer::scan::{literal_kind, span_ok, spans_ok};
use crate::assembler::lexer::Lexemes;
use crate::assembler::parser::grammar::RuleToken;
use crate::assembler::parser::{spec_unexpected, unexpected, ParserError, ParserFault};
use crate::assembler::token::helper::spec_head_len;
use crate::assembler::token::{LiteralIntegerType, Token};
use crate::shared::Chunks;

verus! {

/// A value in an expression.
#[derive(Debug, Clone, Copy, PartialEq, Eq, Structural)]
pub enum Variable {
    /// A symbol, by the id of its name
    Symbol(StrId),
    /// A literal without sign
    U32(u32),
    /// A literal with a minus sign
    I32(i32),
}

/// The operators of expressions.
#[derive(Debug, Clone, Copy, PartialEq, Eq, Structural)]
pub enum Op {
    Add,
    Sub,
    Mul,
    Div,
    /// The end of the expression
    Empty,
}

/// An item of an expression: a value, or an operator on two earlier values.
#[derive(Debug, Clone, Copy, PartialEq, Eq, Structural)]
pub enum Expr {
    Var(Variable),
    Operator { op: Op, left: usize, right: usize },
}

/// How strongly an operator binds.
pub open spec fn spec_precedence(op: Op) -> u8 {
    match op {
        Op::Add => 1,
        Op::Sub => 1,
        Op::Mul => 2,
        Op::Div => 2,
        Op::Empty => 0,
    }
}

/// The operator a token stands for: `+` adds, `-` subtracts, anything else ends.
pub open spec fn spec_op_of(t: Token) -> Op {
    match t {
        Token::Negative => Op::Sub,
        Token::Positive => Op::Add,
        _ => Op::Empty,
    }
}

impl Op {
    /// How strongly the operator binds.
    pub fn precedence(&self) -> (r: u8)
        ensures
            r == spec_precedence(*self),
    {
        match *self {
            Op::Add => 1,
            Op::Sub => 1,
            Op::Mul => 2,
            Op::Div => 2,
            Op::Empty => 0,
        }
    }

    /// Whether the operator binds at least as strongly as `other`.
    pub fn ge(&self, other: &Op) -> (r: bool)
        ensures
            r == (spec_precedence(*self) >= spec_precedence(*other)),
    {
        self.precedence() >= other.precedence()
    }

    /// The operator of a token.
    pub fn from_token(value: Token) -> (r: Op)
        ensures
            r == spec_op_of(value),
    {
        match value {
            Token::Negative => Op::Sub,
            Token::Positive => Op::Add,
            _ => Op::Empty,
        }
    }
}

/// The value that the token `t`, written `slice`, stands for: a symbol (its name id still to
/// be set), an `i32` for a literal with a minus sign, a `u32` for one without.
pub open spec fn spec_variable(t: Token, slice: Seq<u8>) -> Result<Variable, IRError> {
    if t.spec_is_symbol() {
        Ok(Variable::Symbol(StrId(0)))
    } else if t.spec_is_literal_integer() {
        let k = literal_kind(t);
        let negative = slice[0] == 45;
        let prefix = spec_head_len(k) + (if negative {
            1int
        } else {
            0int
        });
        let digits = slice.subrange(prefix, slice.len() as int);
        if negative {
            match spec_parse_int(digits, kind_base(k), true, i32::MIN as int, i32::MAX as int) {
                Ok(v) => Ok(Variable::I32(v as i32)),
                Err(e) => Err(IRError::ParseIntError(e)),
            }
        } else {
            match spec_parse_int(digits, kind_base(k), false, 0, u32::MAX as int) {
                Ok(v) => Ok(Variable::U32(v as u32)),
                Err(e) => Err(IRError::ParseIntError(e)),
            }
        }
    } else {
        Err(IRError::UnknownValue)
    }
}

impl Variable {
    /// The value of `token`, written `slice`; see `spec_variable`.
    pub fn new(token: Token, slice: &[u8]) -> (r: Result<Variable, IRError>)
        requires
            token.spec_is_literal_integer() ==> slice@.len() >= 1 && spec_head_len(
                literal_kind(token),
            ) + (if slice@[0] == 45 {
                1int
            } else {
                0int
            }) <= slice@.len(),
        ensures
            r == spec_variable(token, slice@),
    {
        if token.is_symbol() {
            return Ok(Variable::Symbol(StrId::default()));
        }
        if !token.is_literal_integer() {
            return Err(IRError::UnknownValue);
        }
        let first = slice[0];
        let ty = LiteralIntegerType::from_token(token);
        let signed = LiteralIntegerType::is_signed(first);
        let prefix = LiteralIntegerType::prefix_len(first, ty.id());
        let digits = vstd::slice::slice_subrange(slice, prefix, slice.len());
        let base = ty.base();
        if signed {
            match parse_int(digits, base, true, -0x8000_0000, 0x7fff_ffff) {
                Ok(v) => Ok(Variable::I32(v as i32)),
                Err(e) => Err(IRError::ParseIntError(e)),
            }
        } else {
            match parse_int(digits, base, false, 0, 0xffff_ffff) {
                Ok(v) => Ok(Variable::U32(v as u32)),
                Err(e) => Err(IRError::ParseIntError(e)),
            }
        }
    }
}

/// The state of the expression builder: the values, the operators output, the operators
/// waiting, and the names.
pub struct BuildState {
    pub vars: Seq<Expr>,
    pub ops: Seq<Expr>,
    pub stack: Seq<Op>,
    pub strs: Seq<Seq<u8>>,
}

/// Take the waiting operators that bind at least as strongly as `op` off the stack, each as
/// an operator on the last two of the `len` values.
pub open spec fn pop_while(stack: Seq<Op>, ops: Seq<Expr>, op: Op, len: int) -> (Seq<Op>, Seq<Expr>)
    decreases stack.len(),
{
    if stack.len() > 0 && spec_precedence(stack.last()) >= spec_precedence(op) {
        pop_while(
            stack.drop_last(),
            ops.push(Expr::Operator { op: stack.last(), left: (len - 1) as usize, right: (len - 2) as usize }),
            op,
            len,
        )
    } else {
        (stack, ops)
    }
}

/// The check of a chunk: a symbol or literal at `cur`, an operator or line break at `last`.
pub open spec fn spec_check(ts: Seq<Token>, cur: int, last: int) -> Result<(), ParserFault> {
    if cur >= ts.len() {
        Err(spec_unexpected(RuleToken::SymbolOrNumeric, None))
    } else if !ts[cur].spec_is_symbol_or_numeric() {
        Err(spec_unexpected(RuleToken::SymbolOrNumeric, Some(ts[cur])))
    } else if last >= ts.len() {
        Err(spec_unexpected(RuleToken::OperatorOrBreak, None))
    } else if !(ts[last].spec_is_operator() || ts[last].spec_is_break()) {
        Err(spec_unexpected(RuleToken::OperatorOrBreak, Some(ts[last])))
    } else {
        Ok(())
    }
}

/// The text of the token at `k`.
pub open spec fn token_text(src: Seq<u8>, sps: Seq<core::ops::Range<usize>>, k: int) -> Seq<u8> {
    src.subrange(sps[k].start as int, sps[k].end as int)
}

/// Build the expression from the chunks of two tokens from `cur` to `end`: each a value and an
/// operator (or the line break). Operators go to the output once no waiting operator binds
/// less strongly; symbols are interned.
pub open spec fn spec_build_from(
    src: Seq<u8>,
    ts: Seq<Token>,
    sps: Seq<core::ops::Range<usize>>,
    cur: int,
    end: int,
    st: BuildState,
) -> Result<BuildState, ParserFault>
    decreases end - cur,
{
    if cur >= end {
        Ok(st)
    } else {
        let next = if cur + 2 < end {
            cur + 2
        } else {
            end
        };
        let last = next - 1;
        match spec_check(ts, cur, last) {
            Err(f) => Err(f),
            Ok(_) => {
                let text = token_text(src, sps, cur);
                match spec_variable(ts[cur], text) {
                    Err(e) => Err(ParserFault::IRError(e)),
                    Ok(v) => {
                        let strs2 = if v is Symbol {
                            spec_intern(st.strs, text).0
                        } else {
                            st.strs
                        };
                        let var = if v is Symbol {
                            Variable::Symbol(StrId(spec_intern(st.strs, text).1))
                        } else {
                            v
                        };
                        let vars2 = st.vars.push(Expr::Var(var));
                        let op = spec_op_of(ts[last]);
                        let popped = pop_while(st.stack, st.ops, op, vars2.len() as int);
                        spec_build_from(
                            src,
                            ts,
                            sps,
                            next,
                            end,
                            BuildState {
                                vars: vars2,
                                ops: popped.1,
                                stack: popped.0.push(op),
                                strs: strs2,
                            },
                        )
                    },
                }
            },
        }
    }
}

/// An expression: the values, then the operators, in postfix order.
#[derive(Debug)]
pub struct Exprs {
    buffer: Vec<Expr>,
}

impl View for Exprs {
    type V = Seq<Expr>;

    closed spec fn view(&self) -> Seq<Expr> {
        self.buffer@
    }
}

impl Exprs {
    /// An empty expression. The capacity is a hint only.
    pub fn with_capacity(cap: usize) -> (r: Exprs)
        ensures
            r@ == Seq::<Expr>::empty(),
    {
        Exprs { buffer: Vec::with_capacity(cap) }
    }

    /// An empty expression.
    pub fn default() -> (r: Exprs)
        ensures
            r@ == Seq::<Expr>::empty(),
    {
        Exprs { buffer: Vec::new() }
    }

    /// Check a chunk: the token at `cur` must be a symbol or literal, the one at `last` an
    /// operator or a line break.
    fn check(cur: usize, last: usize, lexemes: &Lexemes) -> (r: Result<(), ParserError>)
        requires
            lexemes.wf(),
        ensures
            match spec_check(lexemes@.0, cur as int, last as int) {
                Ok(_) => r is Ok,
                Err(f) => r matches Err(e) && e@ == f,
            },
    {
        match lexemes.get_token(cur) {
            None => {
                return Err(unexpected(RuleToken::SymbolOrNumeric, None));
            },
            Some(t) => {
                if !t.is_symbol_or_numeric() {
                    return Err(unexpected(RuleToken::SymbolOrNumeric, Some(*t)));
                }
            },
        }
        match lexemes.get_token(last) {
            None => Err(unexpected(RuleToken::OperatorOrBreak, None)),
            Some(t) => {
                if !(t.is_operator() || t.is_break()) {
                    Err(unexpected(RuleToken::OperatorOrBreak, Some(*t)))
                } else {
                    Ok(())
                }
            },
        }
    }

    /// Build the expression from the chunks left in `chunked_range`: see `spec_build_from`. On an
    /// error the names may have grown.
    pub fn build(
        &mut self,
        chunked_range: Chunks,
        lexemes: &Lexemes,
        source: &[u8],
        interner: &mut Interner,
    ) -> (r: Result<(), ParserError>)
        requires
            chunked_range.spec_size() == 2,
            chunked_range.spec_range_end() + 2 <= usize::MAX,
            chunked_range.spec_current() <= chunked_range.spec_range_end(),
            lexemes.wf(),
            spans_ok(source@, lexemes@.0, lexemes@.1),
            old(interner).wf(),
        ensures
            final(interner).wf(),
            match spec_build_from(
                source@,
                lexemes@.0,
                lexemes@.1,
                chunked_range.spec_current() as int,
                chunked_range.spec_range_end() as int,
                BuildState {
                    vars: old(self)@,
                    ops: Seq::empty(),
                    stack: Seq::empty(),
                    strs: old(interner)@,
                },
            ) {
                Ok(st) => r is Ok && final(self)@ == st.vars + st.ops && final(interner)@
                    == st.strs,
                Err(f) => r matches Err(e) && e@ == f,
            },
    {
        let mut chunks = chunked_range;
        let mut ops: Vec<Expr> = Vec::new();
        let mut stack: Vec<Op> = Vec::new();
        let ghost end = chunks.spec_range_end() as int;
        let ghost init_cur = chunks.spec_current() as int;
        let ghost base_len = self.buffer@.len();
        let ghost total = spec_build_from(
            source@,
            lexemes@.0,
            lexemes@.1,
            chunks.spec_current() as int,
            end,
            BuildState {
                vars: self.buffer@,
                ops: Seq::empty(),
                stack: Seq::empty(),
                strs: interner@,
            },
        );
        assert(ops@ =~= Seq::<Expr>::empty());
        assert(stack@ =~= Seq::<Op>::empty());
        loop
            invariant
                chunks.spec_size() == 2,
                chunks.spec_range_end() == end,
                init_cur == chunked_range.spec_current(),
                end == chunked_range.spec_range_end(),
                end + 2 <= usize::MAX,
                chunks.spec_current() <= end,
                lexemes.wf(),
                spans_ok(source@, lexemes@.0, lexemes@.1),
                interner.wf(),
                stack@.len() + base_len <= self.buffer@.len(),
                total == spec_build_from(
                    source@,
                    lexemes@.0,
                    lexemes@.1,
                    init_cur,
                    end,
                    BuildState {
                        vars: old(self)@,
                        ops: Seq::empty(),
                        stack: Seq::empty(),
                        strs: old(interner)@,
                    },
                ),
                total == spec_build_from(
                    source@,
                    lexemes@.0,
                    lexemes@.1,
                    chunks.spec_current() as int,
                    end,
                    BuildState { vars: self.buffer@, ops: ops@, stack: stack@, strs: interner@ },
                ),
            ensures
                interner.wf(),
                total == Ok::<BuildState, ParserFault>(
                    BuildState { vars: self.buffer@, ops: ops@, stack: stack@, strs: interner@ },
                ),
            decreases end - chunks.spec_current(),
        {
            let ghost cur = chunks.spec_current() as int;
            let ghost vars0 = self.buffer@;
            let ghost strs0 = interner@;
            let chunk = match chunks.next() {
                Some(c) => c,
                None => {
                    break;
                },
            };
            let var_idx = chunk.start;
            let op_idx = chunk.end - 1;
            let ghost st = BuildState { vars: self.buffer@, ops: ops@, stack: stack@, strs: interner@ };
            assert(chunk.start == cur && cur < end);
            assert(chunk.end == (if cur + 2 < end { cur + 2 } else { end }));
            match Self::check(var_idx, op_idx, lexemes) {
                Err(e) => {
                    assert(spec_check(lexemes@.0, cur, op_idx as int) is Err);
                    assert(spec_build_from(source@, lexemes@.0, lexemes@.1, cur, end, st) == Err::<
                        BuildState,
                        ParserFault,
                    >(e@));
                    return Err(e);
                },
                Ok(_) => {},
            }
            let var = lexemes.get_unchecked(var_idx);
            let span = var.span();
            proof {
                assert(span_ok(source@, lexemes@.0[cur], lexemes@.1[cur]));
            }
            let slice = vstd::slice::slice_subrange(source, span.start, span.end);
            assert(slice@ == token_text(source@, lexemes@.1, cur));
            let mut variable = match Variable::new(*var.token(), slice) {
                Ok(v) => v,
                Err(e) => {
                    assert(spec_build_from(source@, lexemes@.0, lexemes@.1, cur, end, st) == Err::<
                        BuildState,
                        ParserFault,
                    >(ParserFault::IRError(e)));
                    return Err(ParserError::IRError(e));
                },
            };
            if let Variable::Symbol(_) = variable {
                let id = interner.intern(slice);
                variable = Variable::Symbol(id);
            }
            self.buffer.push(Expr::Var(variable));
            let op_token = lexemes.get_unchecked(op_idx);
            let op = Op::from_token(*op_token.token());
            let len = self.buffer.len();
            let ghost stack0 = stack@;
            let ghost ops0 = ops@;
            while stack.len() > 0
                invariant
                    len == self.buffer@.len(),
                    stack@.len() + base_len + 1 <= len,
                    pop_while(stack0, ops0, op, len as int) == pop_while(
                        stack@,
                        ops@,
                        op,
                        len as int,
                    ),
                ensures
                    stack@.len() + base_len + 1 <= len,
                    pop_while(stack0, ops0, op, len as int) == (stack@, ops@),
                decreases stack@.len(),
            {
                let top = stack[stack.len() - 1];
                if !top.ge(&op) {
                    break;
                }
                let ghost before_stack = stack@;
                let ghost before_ops = ops@;
                let popped = stack.pop().unwrap();
                ops.push(Expr::Operator { op: popped, left: len - 1, right: len - 2 });
                assert(pop_while(before_stack, before_ops, op, len as int) == pop_while(
                    stack@,
                    ops@,
                    op,
                    len as int,
                ));
            }
            stack.push(op);
        }
        self.buffer.append(&mut ops);
        Ok(())
    }

    /// Number of items.
    pub fn len(&self) -> (r: usize)
        ensures
            r == self@.len(),
    {
        self.buffer.len()
    }

    /// Add an item.
    pub fn push(&mut self, value: Expr)
        ensures
            final(self)@ == old(self)@.push(value),
    {
        self.buffer.push(value);
    }

    /// Move the items of `value` to the end.
    pub fn append(&mut self, value: &mut Vec<Expr>)
        ensures
            final(self)@ == old(self)@ + old(value)@,
            final(value)@ == Seq::<Expr>::empty(),
    {
        self.buffer.append(value);
    }
}

} // verus!
