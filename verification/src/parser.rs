//! The parser: one AST node per physical source line, with per-line
//! error recovery.
//!
//! Alternatives are tried in a fixed order — segment directive, label,
//! variable declaration, anonymous data declaration, `END`, plain
//! instruction — and a line matching none of them becomes
//! `LineNode::Error`, so one malformed line never stops the rest of the
//! file from parsing.

use vstd::prelude::*;
use crate::ast::{LineEntry, LineEntryView, LineNode, LineNodeView, Operand, OperandView, Program,
    Statement, StatementView, spec_program_view};
use crate::chars::{spec_contains, spec_dec_chars, spec_find_char, spec_trim, spec_upper};
use crate::constant::{Type, TypeView, spec_all_digits, spec_digits_u64};
use crate::lexer::{spec_bin_shaped, spec_hex_shaped, spec_tokens_view};
use crate::span::{Span, spec_line_count, spec_line_of, spec_line_span};
use crate::token::{PunctuationType, Token, TokenView};

verus! {

/// The token parts of a spanned token sequence.
pub open spec fn spec_parts(ts: Seq<(TokenView, Span)>) -> Seq<TokenView> {
    ts.map_values(|t: (TokenView, Span)| t.0)
}

/// View of an optional operand, for contracts.
pub open spec fn spec_op_opt(r: Option<Operand>) -> Option<OperandView> {
    match r {
        Some(op) => Some(op@),
        None => None,
    }
}

/// The operand denoted by a bracketed symbol token `[ ... ]`: a memory
/// reference when the content is a register, optionally plus a decimal
/// displacement; otherwise the bracket text itself as a label reference.
pub open spec fn spec_bracket_operand(s: Seq<char>) -> OperandView {
    let inner = s.subrange(1, s.len() - 1);
    let plus = spec_find_char(inner, 0, '+');
    if plus < inner.len() {
        let base = spec_upper(spec_trim(inner.take(plus)));
        let off = spec_trim(inner.skip(plus + 1));
        if crate::register::spec_is_valid_register(base) && off.len() > 0 && spec_all_digits(off) {
            OperandView::Memory { base: base, offset: Some(spec_digits_u64(off, 10)) }
        } else {
            OperandView::Label(s)
        }
    } else {
        let base = spec_upper(spec_trim(inner));
        if crate::register::spec_is_valid_register(base) {
            OperandView::Memory { base: base, offset: None }
        } else {
            OperandView::Label(s)
        }
    }
}

/// The operand denoted by a single token, if any.
pub open spec fn spec_operand_from(t: TokenView) -> Option<OperandView> {
    match t {
        TokenView::Register(r) => Some(OperandView::Register(r)),
        TokenView::Constant(c) => match c {
            TypeView::NumberDecimal(v) => Some(OperandView::Immediate(v, spec_dec_chars(v))),
            TypeView::NumberHex(v, raw) => Some(OperandView::Immediate(v, raw)),
            TypeView::NumberBinary(v, raw) => Some(OperandView::Immediate(v, raw)),
            TypeView::Text(s) => Some(OperandView::StringLiteral(s)),
            TypeView::Char(ch) => Some(
                OperandView::Immediate(ch as u64, seq!['\''] + seq![ch] + seq!['\'']),
            ),
        },
        TokenView::Symbol(s) => {
            if s.len() >= 2 && s[0] == '[' && s.last() == ']' {
                Some(spec_bracket_operand(s))
            } else {
                Some(OperandView::Label(s))
            }
        },
        _ => None,
    }
}

/// The operand written inside a `DUP(...)` argument (trimmed): a numeric
/// literal, a quoted string, or a bare label. A hex spelling is accepted
/// here even without its leading zero, so that the validator can re-flag
/// it (defense in depth against literals hidden inside `DUP`).
pub open spec fn spec_dup_inner(c: Seq<char>) -> OperandView {
    if c.len() > 0 && spec_all_digits(c) {
        OperandView::Immediate(spec_digits_u64(c, 10), c)
    } else if spec_hex_shaped(c) {
        OperandView::Immediate(spec_digits_u64(c.drop_last(), 16), c)
    } else if spec_bin_shaped(c) && (c.len() - 1 == 8 || c.len() - 1 == 16) {
        OperandView::Immediate(spec_digits_u64(c.drop_last(), 2), c)
    } else if c.len() >= 2 && (c[0] == '"' && c.last() == '"' || c[0] == '\'' && c.last() == '\'') {
        OperandView::StringLiteral(c.subrange(1, c.len() - 1))
    } else {
        OperandView::Label(c)
    }
}

/// Is the pseudoinstruction text a lexed `dup(...)` construct?
pub open spec fn spec_is_dup_text(p: Seq<char>) -> bool {
    p.len() >= 5 && p.take(4) == "dup("@ && p.last() == ')'
}

/// The value position of a variable or data declaration: either a single
/// operand, or `count DUP(inner)`.
pub open spec fn spec_value_operand(ts: Seq<TokenView>) -> Option<OperandView> {
    if ts.len() == 1 {
        spec_operand_from(ts[0])
    } else if ts.len() == 2 && ts[0] is Constant && ts[0]->Constant_0 is NumberDecimal && ts[1]
        is Pseudoinstruction && spec_is_dup_text(ts[1]->Pseudoinstruction_0) {
        let count = ts[0]->Constant_0->NumberDecimal_0;
        let p = ts[1]->Pseudoinstruction_0;
        let inner = spec_trim(p.subrange(4, p.len() - 1));
        Some(OperandView::Dup(count, Box::new(spec_dup_inner(inner))))
    } else {
        None
    }
}

/// A comma-separated operand list, one token per operand.
pub open spec fn spec_operand_list(ts: Seq<TokenView>) -> Option<Seq<OperandView>>
    decreases ts.len(),
{
    if ts.len() == 0 {
        Some(Seq::empty())
    } else {
        match spec_operand_from(ts[0]) {
            None => None,
            Some(op) => {
                if ts.len() == 1 {
                    Some(seq![op])
                } else if ts[1] is Punctuation && ts[1]->Punctuation_0 == PunctuationType::Comma {
                    match spec_operand_list(ts.skip(2)) {
                        None => None,
                        Some(rest) => Some(seq![op] + rest),
                    }
                } else {
                    None
                }
            },
        }
    }
}

/// Parse the tokens of one physical line into its node. The grammar
/// alternatives are tried in order; a line matching none becomes an
/// `Error` node. A standalone directive other than a segment marker,
/// `ENDS` or `END` parses to `Unknown`: it is carried through without
/// a diagnostic rather than treated as a segment. A named declaration
/// accepts any directive keyword; `EQU` yields a `Constant` statement,
/// every other directive a `Variable`.
pub open spec fn spec_parse_line(ts: Seq<TokenView>) -> LineNodeView {
    if ts.len() == 0 {
        LineNodeView::Empty
    } else if ts.len() == 1 && ts[0] is Pseudoinstruction {
        let p = ts[0]->Pseudoinstruction_0;
        if spec_upper(p) == "ENDS"@ {
            LineNodeView::Statement(StatementView::SegmentEnd)
        } else if spec_upper(p) == "END"@ {
            LineNodeView::Statement(StatementView::End { label: None })
        } else if spec_contains(spec_upper(p), "SEGMENT"@) || spec_upper(p) == ".DATA"@
            || spec_upper(p) == ".CODE"@ || spec_upper(p) == ".STACK"@ {
            LineNodeView::Statement(StatementView::Segment { name: p })
        } else {
            LineNodeView::Statement(StatementView::Unknown)
        }
    } else if ts.len() == 2 && ts[0] is Pseudoinstruction && spec_upper(
        ts[0]->Pseudoinstruction_0,
    ) == "END"@ && ts[1] is Symbol {
        LineNodeView::Statement(StatementView::End { label: Some(ts[1]->Symbol_0) })
    } else if ts.len() == 2 && ts[0] is Symbol && ts[1] is Punctuation && ts[1]->Punctuation_0
        == PunctuationType::Colon {
        LineNodeView::Statement(StatementView::Label(ts[0]->Symbol_0))
    } else if ts.len() >= 3 && ts[0] is Symbol && ts[1] is Pseudoinstruction
        && spec_value_operand(ts.skip(2)) is Some {
        let name = ts[0]->Symbol_0;
        let d = ts[1]->Pseudoinstruction_0;
        let v = spec_value_operand(ts.skip(2))->Some_0;
        if d == "EQU"@ {
            LineNodeView::Statement(StatementView::Constant { name: name, value: v })
        } else {
            LineNodeView::Statement(StatementView::Variable { name: name, directive: d, value: v })
        }
    } else if ts.len() >= 2 && ts[0] is Pseudoinstruction && spec_value_operand(ts.skip(1))
        is Some {
        LineNodeView::Statement(
            StatementView::Data {
                directive: ts[0]->Pseudoinstruction_0,
                value: spec_value_operand(ts.skip(1))->Some_0,
            },
        )
    } else if ts[0] is Instruction && spec_operand_list(ts.skip(1)) is Some {
        LineNodeView::Statement(
            StatementView::Instruction {
                mnemonic: ts[0]->Instruction_1,
                operands: spec_operand_list(ts.skip(1))->Some_0,
            },
        )
    } else {
        LineNodeView::Error("Syntax Error"@)
    }
}

/// The tokens whose spans start on physical line `ln`.
pub open spec fn spec_toks_on_line(ts: Seq<(TokenView, Span)>, src: Seq<char>, ln: nat) -> Seq<
    (TokenView, Span),
>
    decreases ts.len(),
{
    if ts.len() == 0 {
        Seq::empty()
    } else {
        spec_toks_on_line(ts.drop_last(), src, ln) + (if spec_line_of(src, ts.last().1.start as int)
            == ln {
            seq![ts.last()]
        } else {
            Seq::empty()
        })
    }
}

/// The parse of a whole token stream: one entry per physical line.
pub open spec fn spec_parse(src: Seq<char>, ts: Seq<(TokenView, Span)>) -> Seq<LineEntryView> {
    Seq::new(
        spec_line_count(src),
        |ix: int|
            LineEntryView {
                node: spec_parse_line(spec_parts(spec_toks_on_line(ts, src, (ix + 1) as nat))),
                span: spec_line_span(src, (ix + 1) as nat),
            },
    )
}

fn bracket_operand(s: &Vec<char>) -> (r: Operand)
    requires
        s@.len() >= 2,
        s@[0] == '[',
        s@.last() == ']',
    ensures
        r@ == spec_bracket_operand(s@),
{
    let inner = crate::chars::slice_chars(s, 1, s.len() - 1);
    let plus = crate::chars::find_char(&inner, 0, '+');
    if plus < inner.len() {
        let before = crate::chars::slice_chars(&inner, 0, plus);
        let after = crate::chars::slice_chars(&inner, plus + 1, inner.len());
        proof {
            assert(before@ =~= inner@.take(plus as int));
            assert(after@ =~= inner@.skip(plus + 1));
        }
        let base_trimmed = crate::chars::trim_chars(&before);
        let base = crate::chars::upper_chars(&base_trimmed);
        let off = crate::chars::trim_chars(&after);
        let off_ok = off.len() > 0 && crate::constant::all_digits(&off, 0, off.len());
        proof {
            assert(off@.subrange(0, off@.len() as int) =~= off@);
        }
        if crate::register::is_valid_chars(&base) && off_ok {
            let val = crate::constant::digits_value(&off, 0, off.len(), 10);
            proof {
                assert(off@.subrange(0, off@.len() as int) =~= off@);
            }
            Operand::Memory { base: base, offset: Some(val) }
        } else {
            Operand::Label(crate::chars::copy_chars(s))
        }
    } else {
        let base_trimmed = crate::chars::trim_chars(&inner);
        let base = crate::chars::upper_chars(&base_trimmed);
        if crate::register::is_valid_chars(&base) {
            Operand::Memory { base: base, offset: None }
        } else {
            Operand::Label(crate::chars::copy_chars(s))
        }
    }
}

fn operand_from(t: &Token) -> (r: Option<Operand>)
    ensures
        spec_op_opt(r) == spec_operand_from(t@),
{
    match t {
        Token::Register(name) => Some(Operand::Register(crate::chars::copy_chars(name))),
        Token::Constant(c) => match c {
            Type::NumberDecimal(v) => Some(Operand::Immediate(*v, crate::chars::dec_chars(*v))),
            Type::NumberHex(v, raw) => Some(Operand::Immediate(*v, crate::chars::copy_chars(raw))),
            Type::NumberBinary(v, raw) => Some(
                Operand::Immediate(*v, crate::chars::copy_chars(raw)),
            ),
            Type::Text(s) => Some(Operand::StringLiteral(crate::chars::copy_chars(s))),
            Type::Char(ch) => {
                let mut raw: Vec<char> = Vec::new();
                raw.push('\'');
                raw.push(*ch);
                raw.push('\'');
                proof {
                    assert(raw@ =~= seq!['\''] + seq![*ch] + seq!['\'']);
                }
                Some(Operand::Immediate(*ch as u64, raw))
            },
        },
        Token::Symbol(s) => {
            if s.len() >= 2 && s[0] == '[' && s[s.len() - 1] == ']' {
                proof {
                    assert(s@.last() == s@[s@.len() - 1]);
                }
                Some(bracket_operand(s))
            } else {
                proof {
                    if s@.len() >= 1 {
                        assert(s@.last() == s@[s@.len() - 1]);
                    }
                }
                Some(Operand::Label(crate::chars::copy_chars(s)))
            }
        },
        _ => None,
    }
}

fn dup_inner(c: &Vec<char>) -> (r: Operand)
    ensures
        r@ == spec_dup_inner(c@),
{
    let n = c.len();
    let digits_ok = n > 0 && crate::constant::all_digits(c, 0, n);
    proof {
        assert(c@.subrange(0, c@.len() as int) =~= c@);
    }
    if digits_ok {
        let val = crate::constant::digits_value(c, 0, n, 10);
        return Operand::Immediate(val, crate::chars::copy_chars(c));
    }
    let hexish = n >= 2 && {
        let last = c[n - 1];
        (last == 'h' || last == 'H') && crate::constant::all_hex(c, 0, n - 1)
    };
    proof {
        if c@.len() >= 1 {
            assert(c@.last() == c@[c@.len() - 1]);
        }
        if c@.len() >= 2 {
            assert(c@.subrange(0, c@.len() - 1) =~= c@.drop_last());
        }
    }
    if hexish {
        let val = crate::constant::digits_value(c, 0, n - 1, 16);
        return Operand::Immediate(val, crate::chars::copy_chars(c));
    }
    let binish = n >= 2 && {
        let last = c[n - 1];
        (last == 'b' || last == 'B') && crate::constant::all_bin(c, 0, n - 1)
    };
    if binish && (n - 1 == 8 || n - 1 == 16) {
        let val = crate::constant::digits_value(c, 0, n - 1, 2);
        return Operand::Immediate(val, crate::chars::copy_chars(c));
    }
    if n >= 2 && (c[0] == '"' && c[n - 1] == '"' || c[0] == '\'' && c[n - 1] == '\'') {
        return Operand::StringLiteral(crate::chars::slice_chars(c, 1, n - 1));
    }
    Operand::Label(crate::chars::copy_chars(c))
}

/// The token parts of an exec token-span vector.
pub open spec fn spec_line_parts(v: Seq<(Token, Span)>) -> Seq<TokenView> {
    v.map_values(|ts: (Token, Span)| ts.0@)
}

fn value_operand(line: &Vec<(Token, Span)>, from: usize) -> (r: Option<Operand>)
    requires
        from <= line@.len(),
    ensures
        spec_op_opt(r) == spec_value_operand(spec_line_parts(line@).skip(from as int)),
{
    let ghost ts = spec_line_parts(line@).skip(from as int);
    let n = line.len() - from;
    proof {
        assert(ts.len() == n);
        assert forall|k: int| 0 <= k < n implies ts[k] == line@[from + k].0@ by {
            assert(spec_line_parts(line@)[from + k] == line@[from + k].0@);
        }
    }
    if n == 1 {
        operand_from(&line[from].0)
    } else if n == 2 {
        let count_opt: Option<u64> = match &line[from].0 {
            Token::Constant(Type::NumberDecimal(v)) => Some(*v),
            _ => None,
        };
        if let Some(count) = count_opt {
            match &line[from + 1].0 {
                Token::Pseudoinstruction(p) => {
                    let is_dup = p.len() >= 5 && {
                        let head = crate::chars::slice_chars(p, 0, 4);
                        crate::chars::chars_eq_str(&head, "dup(") && p[p.len() - 1] == ')'
                    };
                    proof {
                        if p@.len() >= 5 {
                            assert(p@.subrange(0, 4) =~= p@.take(4));
                            assert(p@.last() == p@[p@.len() - 1]);
                        }
                    }
                    if is_dup {
                        let content = crate::chars::slice_chars(p, 4, p.len() - 1);
                        let trimmed = crate::chars::trim_chars(&content);
                        let inner = dup_inner(&trimmed);
                        Some(Operand::Dup(count, Box::new(inner)))
                    } else {
                        None
                    }
                },
                _ => None,
            }
        } else {
            None
        }
    } else {
        None
    }
}

fn operand_list(line: &Vec<(Token, Span)>, from: usize) -> (r: Option<Vec<Operand>>)
    requires
        from <= line@.len(),
    ensures
        ({
            let s = spec_operand_list(spec_line_parts(line@).skip(from as int));
            match r {
                Some(ops) => s == Some(ops@.map_values(|op: Operand| op@)),
                None => s is None,
            }
        }),
    decreases line@.len() - from,
{
    let ghost ts = spec_line_parts(line@).skip(from as int);
    proof {
        assert forall|k: int| 0 <= k < ts.len() implies ts[k] == line@[from + k].0@ by {
            assert(spec_line_parts(line@)[from + k] == line@[from + k].0@);
        }
    }
    if from == line.len() {
        let ops: Vec<Operand> = Vec::new();
        proof {
            assert(ops@.map_values(|op: Operand| op@) =~= Seq::<OperandView>::empty());
        }
        return Some(ops);
    }
    let first = operand_from(&line[from].0);
    match first {
        None => None,
        Some(op) => {
            if from + 1 == line.len() {
                let mut ops: Vec<Operand> = Vec::new();
                ops.push(op);
                proof {
                    assert(ops@.map_values(|o: Operand| o@) =~= seq![
                        spec_operand_from(ts[0])->Some_0,
                    ]);
                }
                return Some(ops);
            }
            let comma = match &line[from + 1].0 {
                Token::Punctuation(PunctuationType::Comma) => true,
                _ => false,
            };
            if comma {
                proof {
                    assert(ts.skip(2) =~= spec_line_parts(line@).skip(from + 2));
                }
                match operand_list(line, from + 2) {
                    None => None,
                    Some(mut rest) => {
                        rest.insert(0, op);
                        proof {
                            assert(rest@.map_values(|o: Operand| o@) =~= seq![
                                spec_operand_from(ts[0])->Some_0,
                            ] + spec_operand_list(ts.skip(2))->Some_0);
                        }
                        Some(rest)
                    },
                }
            } else {
                None
            }
        },
    }
}

/// Parse the tokens of one physical line.
pub fn parse_line(line: &Vec<(Token, Span)>) -> (r: LineNode)
    ensures
        r@ == spec_parse_line(spec_line_parts(line@)),
{
    let ghost ts = spec_line_parts(line@);
    let n = line.len();
    proof {
        assert(ts.len() == n);
        assert forall|k: int| 0 <= k < n implies ts[k] == line@[k].0@ by {
            assert(spec_line_parts(line@)[k] == line@[k].0@);
        }
    }
    if n == 0 {
        return LineNode::Empty;
    }
    // Single directive token: segment markers, ENDS, END, or some other
    // standalone directive.
    if n == 1 {
        if let Token::Pseudoinstruction(p) = &line[0].0 {
            let up = crate::chars::upper_chars(p);
            if crate::chars::chars_eq_str(&up, "ENDS") {
                return LineNode::Statement(Statement::SegmentEnd);
            }
            if crate::chars::chars_eq_str(&up, "END") {
                return LineNode::Statement(Statement::End { label: None });
            }
            let seg_pat = crate::chars::chars_of("SEGMENT");
            if crate::chars::contains_chars(&up, &seg_pat) || crate::chars::chars_eq_str(
                &up,
                ".DATA",
            ) || crate::chars::chars_eq_str(&up, ".CODE") || crate::chars::chars_eq_str(
                &up,
                ".STACK",
            ) {
                return LineNode::Statement(
                    Statement::Segment { name: crate::chars::copy_chars(p) },
                );
            }
            return LineNode::Statement(Statement::Unknown);
        }
    }
    // END with a label.
    if n == 2 {
        let is_end = match &line[0].0 {
            Token::Pseudoinstruction(p) => {
                let up = crate::chars::upper_chars(p);
                crate::chars::chars_eq_str(&up, "END")
            },
            _ => false,
        };
        if is_end {
            if let Token::Symbol(s) = &line[1].0 {
                return LineNode::Statement(
                    Statement::End { label: Some(crate::chars::copy_chars(s)) },
                );
            }
        }
    }
    // A label definition `name:`.
    if n == 2 {
        if let Token::Symbol(s) = &line[0].0 {
            let is_colon = match &line[1].0 {
                Token::Punctuation(PunctuationType::Colon) => true,
                _ => false,
            };
            if is_colon {
                return LineNode::Statement(Statement::Label(crate::chars::copy_chars(s)));
            }
        }
    }
    // A named declaration `name directive value`.
    if n >= 3 {
        if let Token::Symbol(name) = &line[0].0 {
            if let Token::Pseudoinstruction(d) = &line[1].0 {
                if let Some(v) = value_operand(line, 2) {
                    if crate::chars::chars_eq_str(d, "EQU") {
                        return LineNode::Statement(
                            Statement::Constant { name: crate::chars::copy_chars(name), value: v },
                        );
                    }
                    return LineNode::Statement(
                        Statement::Variable {
                            name: crate::chars::copy_chars(name),
                            directive: crate::chars::copy_chars(d),
                            value: v,
                        },
                    );
                }
            }
        }
    }
    // An anonymous data declaration `directive value`.
    if n >= 2 {
        if let Token::Pseudoinstruction(d) = &line[0].0 {
            if let Some(v) = value_operand(line, 1) {
                return LineNode::Statement(
                    Statement::Data { directive: crate::chars::copy_chars(d), value: v },
                );
            }
        }
    }
    // An instruction with its comma-separated operands.
    if let Token::Instruction(_, m) = &line[0].0 {
        if let Some(ops) = operand_list(line, 1) {
            return LineNode::Statement(
                Statement::Instruction { mnemonic: crate::chars::copy_chars(m), operands: ops },
            );
        }
    }
    LineNode::Error(crate::chars::chars_of("Syntax Error"))
}

/// The tokens whose spans start on line `ln`, as fresh copies.
pub fn toks_on_line(tokens: &Vec<(Token, Span)>, src: &Vec<char>, ln: usize) -> (r: Vec<
    (Token, Span),
>)
    requires
        src@.len() < usize::MAX,
    ensures
        spec_tokens_view(r@) == spec_toks_on_line(spec_tokens_view(tokens@), src@, ln as nat),
{
    let ghost full = spec_tokens_view(tokens@);
    let mut out: Vec<(Token, Span)> = Vec::new();
    let mut j: usize = 0;
    while j < tokens.len()
        invariant
            j <= tokens@.len(),
            src@.len() < usize::MAX,
            full == spec_tokens_view(tokens@),
            spec_tokens_view(out@) == spec_toks_on_line(full.take(j as int), src@, ln as nat),
        decreases tokens.len() - j,
    {
        proof {
            assert(full.take(j + 1).drop_last() =~= full.take(j as int));
            assert(full.take(j + 1).last() == full[j as int]);
            assert(full[j as int] == (tokens@[j as int].0@, tokens@[j as int].1));
        }
        let start = tokens[j].1.start;
        if crate::span::line_of(src, start) == ln {
            let copy = (tokens[j].0.duplicate(), tokens[j].1);
            proof {
                assert(spec_tokens_view(out@.push((tokens@[j as int].0, tokens@[j as int].1)))
                    =~= spec_tokens_view(out@) + seq![full[j as int]]);
            }
            out.push(copy);
            proof {
                assert(spec_tokens_view(out@) =~= spec_toks_on_line(
                    full.take(j + 1),
                    src@,
                    ln as nat,
                ));
            }
        } else {
            proof {
                assert(spec_tokens_view(out@) =~= spec_toks_on_line(
                    full.take(j + 1),
                    src@,
                    ln as nat,
                ));
            }
        }
        j += 1;
    }
    proof {
        assert(full.take(tokens@.len() as int) =~= full);
    }
    out
}

/// Parse a token stream into a program: one `LineEntry` per physical
/// line of the source, in order.
pub fn parse(src: &Vec<char>, tokens: &Vec<(Token, Span)>) -> (r: Program)
    requires
        src@.len() < usize::MAX,
    ensures
        spec_program_view(r@) == spec_parse(src@, spec_tokens_view(tokens@)),
{
    let ghost expected = spec_parse(src@, spec_tokens_view(tokens@));
    let n = crate::span::line_count(src);
    let mut prog: Program = Vec::new();
    let mut ix: usize = 0;
    while ix < n
        invariant
            ix <= n,
            n == spec_line_count(src@),
            src@.len() < usize::MAX,
            expected == spec_parse(src@, spec_tokens_view(tokens@)),
            prog@.len() == ix,
            forall|k: int| 0 <= k < ix ==> spec_program_view(prog@)[k] == expected[k],
        decreases n - ix,
    {
        let ln = ix + 1;
        let group = toks_on_line(tokens, src, ln);
        let node = parse_line(&group);
        let sp = crate::span::line_span(src, ln);
        let entry = LineEntry { node, span: sp };
        proof {
            assert(spec_parts(spec_toks_on_line(spec_tokens_view(tokens@), src@, ln as nat))
                =~= spec_line_parts(group@)) by {
                let a = spec_parts(spec_tokens_view(group@));
                let b = spec_line_parts(group@);
                assert(a.len() == b.len());
                assert forall|k: int| 0 <= k < a.len() implies a[k] == b[k] by {
                    assert(spec_tokens_view(group@)[k] == (group@[k].0@, group@[k].1));
                    assert(spec_parts(spec_tokens_view(group@))[k] == spec_tokens_view(group@)[k].0);
                    assert(spec_line_parts(group@)[k] == group@[k].0@);
                }
            }
            assert(entry@ == expected[ix as int]);
            assert(spec_program_view(prog@.push(entry)) =~= spec_program_view(prog@) + seq![
                entry@,
            ]);
        }
        prog.push(entry);
        ix += 1;
    }
    proof {
        assert(spec_program_view(prog@) =~= expected);
    }
    prog
}

} // verus!
