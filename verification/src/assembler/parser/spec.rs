//! What the parser does, as functions on the tokens, their spans and the source.
use std::ops::Range;

use vstd::prelude::*;

use crate::assembler::assembly::directive::DirectiveType;
use crate::assembler::assembly::section::{spec_section_type_of, SectionId, SectionTag};
use crate::assembler::exprs::{
    pop_while, spec_build_from, spec_check, spec_op_of, spec_variable, token_text, BuildState, Expr,
    Variable,
};
use crate::assembler::instruction::{spec_operand, Operand};
use crate::assembler::interner::{spec_intern, StrId};
use crate::assembler::ir::{spec_switch, IRView, InstructionId, NodeView};
use crate::assembler::parser::grammar::{
    spec_matches_rule, spec_rule_of_mnemonic, spec_rule_sequence, OperandRuleType, RuleToken,
};
use crate::assembler::parser::{spec_unexpected, ParserFault, RuntimeTodo};
use crate::assembler::symbol_table::{spec_insert_constant, ConstantView};
use crate::assembler::token::{IdentifierType, Token};
use crate::isa::instruction::Mnemonic;

verus! {

/// Where the parser stands: the position of the token it reads, the constants defined so far
/// and the intermediate representation built so far.
pub struct PState {
    pub index: int,
    pub constants: Map<u32, ConstantView>,
    pub ir: IRView,
}

/// What a failed step leaves as it was: the position, the constants, and the nodes, sections
/// and instructions of the representation; only names may have been interned.
pub open spec fn error_keeps(before: PState, after: PState) -> bool {
    &&& after.index == before.index
    &&& after.constants == before.constants
    &&& after.ir.nodes == before.ir.nodes
    &&& after.ir.sections == before.ir.sections
    &&& after.ir.instructions == before.ir.instructions
}

/// The position of the first line break at or after `j`, or the number of tokens.
pub open spec fn break_pos(ts: Seq<Token>, j: int) -> int
    decreases ts.len() - j,
{
    if j < 0 || j >= ts.len() {
        ts.len() as int
    } else if ts[j].spec_is_break() {
        j
    } else {
        break_pos(ts, j + 1)
    }
}

/// Whether the token `t` is what `rule` expects, where the rule is checked on its own.
pub open spec fn spec_accepts(rule: RuleToken, t: Token) -> bool {
    match rule {
        RuleToken::Symbol => t.spec_is_symbol(),
        RuleToken::LiteralString => t == Token::LiteralString,
        RuleToken::SectionDir => t.spec_is_section_dir(),
        RuleToken::InstructionOrDir => (t is Identifier && t->Identifier_0 is Mnemonic) || t
            is Directive || t.spec_is_break(),
        RuleToken::OperatorOrBreak => t.spec_is_operator() || t.spec_is_break(),
        _ => spec_matches_rule(t, rule),
    }
}

/// The token at `k` must be what `rule` expects; the error names what stands there.
pub open spec fn spec_expect(ts: Seq<Token>, k: int, rule: RuleToken) -> Result<(), ParserFault> {
    if k < 0 || k >= ts.len() {
        Err(spec_unexpected(rule, None))
    } else if spec_accepts(rule, ts[k]) {
        Ok(())
    } else {
        Err(spec_unexpected(rule, Some(ts[k])))
    }
}

/// Intern a name in the representation.
pub open spec fn ir_intern(ir: IRView, name: Seq<u8>) -> (IRView, u32) {
    let (strs, id) = spec_intern(ir.strs, name);
    (IRView { strs, ..ir }, id)
}

/// Add a node to the representation.
pub open spec fn ir_push(ir: IRView, n: NodeView) -> IRView {
    IRView { nodes: ir.nodes.push(n), ..ir }
}

/// Switch to the section named `name` of the kind of the directive `d`, with its node.
pub open spec fn ir_add_section(ir: IRView, name: Seq<u8>, d: DirectiveType) -> IRView {
    let (ir1, id) = ir_intern(ir, name);
    let (tags, sid) = spec_switch(
        ir1.sections,
        SectionTag { str_id: StrId(id), ty: spec_section_type_of(d) },
    );
    IRView { sections: tags, nodes: ir1.nodes.push(NodeView::Section(SectionId(sid))), ..ir1 }
}

/// A directive at the parser's position.
pub open spec fn spec_walk_directive(
    src: Seq<u8>,
    ts: Seq<Token>,
    sps: Seq<Range<usize>>,
    d: DirectiveType,
    st: PState,
) -> Result<PState, ParserFault> {
    let idx = st.index;
    match d {
        DirectiveType::Section => match spec_expect(ts, idx + 1, RuleToken::SectionDir) {
            Err(f) => Err(f),
            Ok(_) => Ok(PState { index: idx + 1, ..st }),
        },
        DirectiveType::Text | DirectiveType::Data | DirectiveType::Rodata | DirectiveType::Bss
        | DirectiveType::CustomSection => match spec_expect(ts, idx + 1, RuleToken::Break) {
            Err(f) => Err(f),
            Ok(_) => Ok(
                PState {
                    index: idx + 1,
                    ir: ir_add_section(st.ir, token_text(src, sps, idx), d),
                    ..st
                },
            ),
        },
        DirectiveType::Ascii => match spec_expect(ts, idx + 1, RuleToken::LiteralString) {
            Err(f) => Err(f),
            Ok(_) => match spec_expect(ts, idx + 2, RuleToken::Break) {
                Err(f) => Err(f),
                Ok(_) => Ok(
                    PState {
                        index: idx + 1,
                        ir: ir_push(st.ir, NodeView::String(token_text(src, sps, idx + 1))),
                        ..st
                    },
                ),
            },
        },
        DirectiveType::Global => match spec_expect(ts, idx + 1, RuleToken::Symbol) {
            Err(f) => Err(f),
            Ok(_) => match spec_expect(ts, idx + 2, RuleToken::Break) {
                Err(f) => Err(f),
                Ok(_) => {
                    let (ir1, id) = ir_intern(st.ir, token_text(src, sps, idx + 1));
                    Ok(
                        PState {
                            index: idx + 2,
                            ir: ir_push(ir1, NodeView::Global(StrId(id))),
                            ..st
                        },
                    )
                },
            },
        },
        DirectiveType::SetSymbol | DirectiveType::Equ => spec_walk_constant(src, ts, sps, d, st),
        _ => Err(ParserFault::UnimplementedFeature(RuntimeTodo::Dir(d))),
    }
}

/// `.set name, expression` or `.equ name, expression` at the parser's position: the name is a
/// symbol and a comma follows; the expression is built (its symbols interned), then the name
/// is interned and the constant defined; the parser moves to the line break.
pub open spec fn spec_walk_constant(
    src: Seq<u8>,
    ts: Seq<Token>,
    sps: Seq<Range<usize>>,
    d: DirectiveType,
    st: PState,
) -> Result<PState, ParserFault> {
    let idx = st.index;
    let bp = break_pos(ts, idx + 1);
    let line_end = bp + 1;
    let c0 = idx + 1;
    let c1 = if c0 + 2 < line_end {
        c0 + 2
    } else {
        line_end
    };
    match spec_expect(ts, c0, RuleToken::Symbol) {
        Err(f) => Err(f),
        Ok(_) => match spec_expect(ts, c1 - 1, RuleToken::Comma) {
            Err(f) => Err(f),
            Ok(_) => match spec_build_from(
                src,
                ts,
                sps,
                c1,
                line_end,
                BuildState {
                    vars: Seq::empty(),
                    ops: Seq::empty(),
                    stack: Seq::empty(),
                    strs: st.ir.strs,
                },
            ) {
                Err(f) => Err(f),
                Ok(b) => {
                    let name = token_text(src, sps, c0);
                    let (strs2, id) = spec_intern(b.strs, name);
                    let c = ConstantView {
                        name_id: StrId(id),
                        resolved: false,
                        exprs: b.vars + b.ops,
                    };
                    Ok(
                        PState {
                            index: bp + 1,
                            constants: spec_insert_constant(st.constants, c),
                            ir: IRView { strs: strs2, ..st.ir },
                        },
                    )
                },
            },
        },
    }
}

/// A label at the parser's position: an instruction, a directive or a line break follows;
/// the name is interned and the label added.
pub open spec fn spec_walk_label(src: Seq<u8>, ts: Seq<Token>, sps: Seq<Range<usize>>, st: PState) -> Result<
    PState,
    ParserFault,
> {
    let idx = st.index;
    match spec_expect(ts, idx + 1, RuleToken::InstructionOrDir) {
        Err(f) => Err(f),
        Ok(_) => {
            let (ir1, id) = ir_intern(st.ir, token_text(src, sps, idx));
            Ok(PState { index: idx + 1, ir: ir_push(ir1, NodeView::Label(StrId(id))), ..st })
        },
    }
}

/// The first place `k` from `from` on where the token of the line is not what the rule
/// sequence expects, within both.
pub open spec fn first_mismatch(rules: Seq<RuleToken>, line: Seq<Token>, from: int) -> Option<int>
    decreases rules.len() - from,
{
    if from < 0 || from >= rules.len() || from >= line.len() {
        None
    } else if !spec_matches_rule(line[from], rules[from]) {
        Some(from)
    } else {
        first_mismatch(rules, line, from + 1)
    }
}

/// Read the operands at `pos`, `pos + 2`, ... before `stop` into the places from `k` on;
/// symbols are interned.
pub open spec fn spec_operands(
    src: Seq<u8>,
    ts: Seq<Token>,
    sps: Seq<Range<usize>>,
    ty: OperandRuleType,
    pos: int,
    stop: int,
    k: int,
    ops: Seq<Operand>,
    strs: Seq<Seq<u8>>,
) -> Result<(Seq<Operand>, Seq<Seq<u8>>), ParserFault>
    decreases stop + 1 - pos,
{
    if pos >= stop || k >= 3 || k < 0 {
        Ok((ops, strs))
    } else {
        let text = token_text(src, sps, pos);
        match spec_operand(ts[pos], ty, text) {
            Err(e) => Err(ParserFault::ValueError(e)),
            Ok(o) => {
                let strs2 = if o is Symbol {
                    spec_intern(strs, text).0
                } else {
                    strs
                };
                let o2 = if o is Symbol {
                    Operand::Symbol(StrId(spec_intern(strs, text).1))
                } else {
                    o
                };
                spec_operands(src, ts, sps, ty, pos + 2, stop, k + 1, ops.update(k, o2), strs2)
            },
        }
    }
}

/// An instruction at the parser's position: the line must hold what the pattern of the
/// mnemonic expects and then end; the operands are read, the instruction added, and the
/// parser moves to the line break.
pub open spec fn spec_walk_instruction(
    src: Seq<u8>,
    ts: Seq<Token>,
    sps: Seq<Range<usize>>,
    m: Mnemonic,
    st: PState,
) -> Result<PState, ParserFault> {
    let idx = st.index;
    let bp = break_pos(ts, idx + 1);
    let line = ts.subrange(idx + 1, bp + 1);
    let ty = spec_rule_of_mnemonic(m);
    let rules = spec_rule_sequence(ty);
    match first_mismatch(rules, line, 0) {
        Some(k) => Err(
            ParserFault::UnexpectedToken {
                expected: rules[k],
                found: Some(token_text(src, sps, idx + 1 + k)),
            },
        ),
        None => if rules.len() > line.len() {
            Err(ParserFault::UnexpectedToken { expected: rules[line.len() as int], found: None })
        } else if rules.len() < line.len() && !line[rules.len() as int].spec_is_break() {
            Err(
                ParserFault::UnexpectedToken {
                    expected: RuleToken::Break,
                    found: Some(token_text(src, sps, idx + 1 + rules.len())),
                },
            )
        } else {
            match spec_operands(
                src,
                ts,
                sps,
                ty,
                idx + 1,
                bp,
                0,
                seq![Operand::Empty, Operand::Empty, Operand::Empty],
                st.ir.strs,
            ) {
                Err(f) => Err(f),
                Ok((ops, strs)) => {
                    let ir1 = IRView { strs, ..st.ir };
                    let ir2 = IRView {
                        instructions: ir1.instructions.push((m, ops)),
                        nodes: ir1.nodes.push(
                            NodeView::Instruction(InstructionId(ir1.instructions.len() as usize)),
                        ),
                        ..ir1
                    };
                    Ok(PState { index: bp + 1, ir: ir2, ..st })
                },
            }
        },
    }
}

/// One step of the parser at its position.
pub open spec fn spec_walk(src: Seq<u8>, ts: Seq<Token>, sps: Seq<Range<usize>>, st: PState) -> Result<
    PState,
    ParserFault,
> {
    let t = ts[st.index];
    match t {
        Token::Directive(d) => spec_walk_directive(src, ts, sps, d, st),
        Token::Label => spec_walk_label(src, ts, sps, st),
        Token::Identifier(IdentifierType::Mnemonic(m)) => spec_walk_instruction(src, ts, sps, m, st),
        Token::Eol | Token::Eof => Ok(PState { index: st.index + 1, ..st }),
        _ => Err(ParserFault::SyntaxError),
    }
}

/// The parser's steps from its position to the end of the tokens.
pub open spec fn spec_parse_from(src: Seq<u8>, ts: Seq<Token>, sps: Seq<Range<usize>>, st: PState) -> Result<
    PState,
    ParserFault,
>
    decreases ts.len() - st.index,
{
    if st.index < 0 || st.index >= ts.len() {
        Ok(st)
    } else {
        match spec_walk(src, ts, sps, st) {
            Err(f) => Err(f),
            Ok(st2) => if st2.index <= st.index || st2.index > ts.len() {
                Ok(st2)
            } else {
                spec_parse_from(src, ts, sps, st2)
            },
        }
    }
}

/// An empty representation.
pub open spec fn empty_ir() -> IRView {
    IRView {
        nodes: Seq::empty(),
        strs: Seq::empty(),
        sections: Seq::empty(),
        instructions: Seq::empty(),
    }
}

/// Every step of the parser moves it forward.
pub proof fn lemma_walk_advances(src: Seq<u8>, ts: Seq<Token>, sps: Seq<Range<usize>>, st: PState)
    requires
        0 <= st.index < ts.len(),
    ensures
        spec_walk(src, ts, sps, st) matches Ok(st2) ==> st2.index > st.index,
{
    lemma_break_pos(ts, st.index + 1);
}

/// A node refers only to names, sections and instructions that the representation holds.
pub open spec fn node_ref_ok(ir: IRView, n: NodeView) -> bool {
    match n {
        NodeView::Label(id) => id.0 < ir.strs.len(),
        NodeView::Global(id) => id.0 < ir.strs.len(),
        NodeView::Section(sid) => sid.0 < ir.sections.len(),
        NodeView::Instruction(iid) => iid.0 < ir.instructions.len(),
        _ => true,
    }
}

/// Every node of the representation refers to what it holds.
pub open spec fn refs_ok(ir: IRView) -> bool {
    forall|k: int| 0 <= k < ir.nodes.len() ==> node_ref_ok(ir, #[trigger] ir.nodes[k])
}

/// Interning only adds names, and the id it gives is that of a name held.
proof fn lemma_intern_grows(strs: Seq<Seq<u8>>, name: Seq<u8>)
    requires
        strs.len() < u32::MAX,
    ensures
        spec_intern(strs, name).0.len() >= strs.len(),
        spec_intern(strs, name).1 < spec_intern(strs, name).0.len(),
{
    crate::assembler::interner::lemma_position_of(strs, name);
}

/// Switching sections only adds sections, and the id it gives is that of a section held.
proof fn lemma_switch_grows(tags: Seq<SectionTag>, tag: SectionTag)
    requires
        tags.len() < 255,
    ensures
        spec_switch(tags, tag).0.len() >= tags.len(),
        spec_switch(tags, tag).1 < spec_switch(tags, tag).0.len(),
{
    crate::assembler::interner::lemma_position_of(tags, tag);
}

/// Building an expression only adds names.
proof fn lemma_build_grows(
    src: Seq<u8>,
    ts: Seq<Token>,
    sps: Seq<Range<usize>>,
    cur: int,
    end: int,
    st: BuildState,
)
    requires
        st.strs.len() + (end - cur) < u32::MAX,
    ensures
        spec_build_from(src, ts, sps, cur, end, st) matches Ok(b) ==> b.strs.len() >= st.strs.len()
            && b.strs.len() <= st.strs.len() + (if end > cur { end - cur } else { 0 }),
    decreases end - cur,
{
    if cur < end {
        let next = if cur + 2 < end {
            cur + 2
        } else {
            end
        };
        let text = token_text(src, sps, cur);
        lemma_intern_grows(st.strs, text);
        crate::assembler::interner::lemma_position_of(st.strs, text);
        if let Ok(_) = spec_check(ts, cur, next - 1) {
            if let Ok(v) = spec_variable(ts[cur], text) {
                let strs2 = if v is Symbol {
                    spec_intern(st.strs, text).0
                } else {
                    st.strs
                };
                let var = if v is Symbol {
                    Variable::Symbol(StrId(spec_intern(st.strs, text).1))
                } else {
                    v
                };
                let vars2 = st.vars.push(Expr::Var(var));
                let op = spec_op_of(ts[next - 1]);
                let popped = pop_while(st.stack, st.ops, op, vars2.len() as int);
                lemma_build_grows(
                    src,
                    ts,
                    sps,
                    next,
                    end,
                    BuildState { vars: vars2, ops: popped.1, stack: popped.0.push(op), strs: strs2 },
                );
            }
        }
    }
}

/// Reading operands only adds names, at most one per operand.
proof fn lemma_operands_grows(
    src: Seq<u8>,
    ts: Seq<Token>,
    sps: Seq<Range<usize>>,
    ty: OperandRuleType,
    pos: int,
    stop: int,
    k: int,
    ops: Seq<Operand>,
    strs: Seq<Seq<u8>>,
)
    requires
        strs.len() + 3 - k < u32::MAX,
        0 <= k <= 3,
    ensures
        spec_operands(src, ts, sps, ty, pos, stop, k, ops, strs) matches Ok((o, s2)) ==> s2.len()
            >= strs.len() && s2.len() <= strs.len() + (3 - k),
    decreases stop + 1 - pos,
{
    if pos < stop && k < 3 {
        let text = token_text(src, sps, pos);
        lemma_intern_grows(strs, text);
        if let Ok(o) = spec_operand(ts[pos], ty, text) {
            let strs2 = if o is Symbol {
                spec_intern(strs, text).0
            } else {
                strs
            };
            let o2 = if o is Symbol {
                Operand::Symbol(StrId(spec_intern(strs, text).1))
            } else {
                o
            };
            crate::assembler::interner::lemma_position_of(strs, text);
            lemma_operands_grows(src, ts, sps, ty, pos + 2, stop, k + 1, ops.update(k, o2), strs2);
        }
    }
}

/// Every step of the parser keeps the nodes referring to what the representation holds,
/// while the names and sections stay below the widths of their ids.
pub proof fn lemma_walk_keeps_refs(src: Seq<u8>, ts: Seq<Token>, sps: Seq<Range<usize>>, st: PState)
    requires
        0 <= st.index < ts.len(),
        refs_ok(st.ir),
        st.ir.strs.len() + ts.len() + 8 < u32::MAX,
        st.ir.sections.len() < 255,
    ensures
        spec_walk(src, ts, sps, st) matches Ok(st2) ==> refs_ok(st2.ir),
{
    let ir = st.ir;
    let idx = st.index;
    lemma_break_pos(ts, idx + 1);
    if let Ok(st2) = spec_walk(src, ts, sps, st) {
        let ir2 = st2.ir;
        assert(ir2.nodes.len() >= ir.nodes.len());
        match ts[idx] {
            Token::Directive(d) => {
                lemma_intern_grows(ir.strs, token_text(src, sps, idx));
                lemma_intern_grows(ir.strs, token_text(src, sps, idx + 1));
                let (ir1, id) = ir_intern(ir, token_text(src, sps, idx));
                lemma_switch_grows(
                    ir1.sections,
                    SectionTag { str_id: StrId(id), ty: spec_section_type_of(d) },
                );
                if d == DirectiveType::SetSymbol || d == DirectiveType::Equ {
                    let bp = break_pos(ts, idx + 1);
                    let c0 = idx + 1;
                    let c1 = if c0 + 2 < bp + 1 {
                        c0 + 2
                    } else {
                        bp + 1
                    };
                    let b0 = BuildState {
                        vars: Seq::empty(),
                        ops: Seq::empty(),
                        stack: Seq::empty(),
                        strs: ir.strs,
                    };
                    lemma_build_grows(src, ts, sps, c1, bp + 1, b0);
                    if let Ok(b) = spec_build_from(src, ts, sps, c1, bp + 1, b0) {
                        lemma_intern_grows(b.strs, token_text(src, sps, c0));
                    }
                }
            },
            Token::Label => {
                lemma_intern_grows(ir.strs, token_text(src, sps, idx));
            },
            Token::Identifier(IdentifierType::Mnemonic(m)) => {
                let bp = break_pos(ts, idx + 1);
                lemma_operands_grows(
                    src,
                    ts,
                    sps,
                    spec_rule_of_mnemonic(m),
                    idx + 1,
                    bp,
                    0,
                    seq![Operand::Empty, Operand::Empty, Operand::Empty],
                    ir.strs,
                );
            },
            _ => {},
        }
        assert forall|k: int| 0 <= k < ir2.nodes.len() implies node_ref_ok(
            ir2,
            #[trigger] ir2.nodes[k],
        ) by {
            if k < ir.nodes.len() {
                assert(ir2.nodes[k] == ir.nodes[k]);
                assert(node_ref_ok(ir, ir.nodes[k]));
            }
        }
    }
}

/// `break_pos` finds the first break at or after `j`.
pub proof fn lemma_break_pos(ts: Seq<Token>, j: int)
    requires
        0 <= j,
    ensures
        j <= break_pos(ts, j) || (j > ts.len() && break_pos(ts, j) == ts.len()),
        break_pos(ts, j) <= ts.len(),
        break_pos(ts, j) < ts.len() ==> ts[break_pos(ts, j)].spec_is_break(),
        forall|k: int| j <= k < break_pos(ts, j) ==> !(#[trigger] ts[k]).spec_is_break(),
    decreases ts.len() - j,
{
    if j < ts.len() && !ts[j].spec_is_break() {
        lemma_break_pos(ts, j + 1);
    }
}

} // verus!
