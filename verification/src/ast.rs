//! The line-oriented abstract syntax tree.

use vstd::prelude::*;
use crate::span::Span;

verus! {

/// An instruction or declaration operand.
#[derive(Debug, PartialEq)]
pub enum Operand {
    Register(Vec<char>),
    Immediate(u64, Vec<char>),
    Memory { base: Vec<char>, offset: Option<u64> },
    Label(Vec<char>),
    StringLiteral(Vec<char>),
    Dup(u64, Box<Operand>),
}

/// Mathematical model of an operand.
pub enum OperandView {
    Register(Seq<char>),
    Immediate(u64, Seq<char>),
    Memory { base: Seq<char>, offset: Option<u64> },
    Label(Seq<char>),
    StringLiteral(Seq<char>),
    Dup(u64, Box<OperandView>),
}

pub open spec fn spec_operand_view(op: &Operand) -> OperandView
    decreases op,
{
    match op {
        Operand::Register(r) => OperandView::Register(r@),
        Operand::Immediate(v, raw) => OperandView::Immediate(*v, raw@),
        Operand::Memory { base, offset } => OperandView::Memory { base: base@, offset: *offset },
        Operand::Label(s) => OperandView::Label(s@),
        Operand::StringLiteral(s) => OperandView::StringLiteral(s@),
        Operand::Dup(n, inner) => OperandView::Dup(*n, Box::new(spec_operand_view(inner))),
    }
}

impl View for Operand {
    type V = OperandView;

    open spec fn view(&self) -> OperandView {
        spec_operand_view(self)
    }
}

/// One parsed statement.
#[derive(Debug, PartialEq)]
pub enum Statement {
    Instruction { mnemonic: Vec<char>, operands: Vec<Operand> },
    Label(Vec<char>),
    Segment { name: Vec<char> },
    SegmentEnd,
    End { label: Option<Vec<char>> },
    Variable { name: Vec<char>, directive: Vec<char>, value: Operand },
    Constant { name: Vec<char>, value: Operand },
    Data { directive: Vec<char>, value: Operand },
    Unknown,
}

/// Mathematical model of a statement.
pub enum StatementView {
    Instruction { mnemonic: Seq<char>, operands: Seq<OperandView> },
    Label(Seq<char>),
    Segment { name: Seq<char> },
    SegmentEnd,
    End { label: Option<Seq<char>> },
    Variable { name: Seq<char>, directive: Seq<char>, value: OperandView },
    Constant { name: Seq<char>, value: OperandView },
    Data { directive: Seq<char>, value: OperandView },
    Unknown,
}

impl View for Statement {
    type V = StatementView;

    open spec fn view(&self) -> StatementView {
        match self {
            Statement::Instruction { mnemonic, operands } => StatementView::Instruction {
                mnemonic: mnemonic@,
                operands: operands@.map_values(|op: Operand| op@),
            },
            Statement::Label(s) => StatementView::Label(s@),
            Statement::Segment { name } => StatementView::Segment { name: name@ },
            Statement::SegmentEnd => StatementView::SegmentEnd,
            Statement::End { label } => StatementView::End {
                label: match label {
                    Some(l) => Some(l@),
                    None => None,
                },
            },
            Statement::Variable { name, directive, value } => StatementView::Variable {
                name: name@,
                directive: directive@,
                value: value@,
            },
            Statement::Constant { name, value } => StatementView::Constant {
                name: name@,
                value: value@,
            },
            Statement::Data { directive, value } => StatementView::Data {
                directive: directive@,
                value: value@,
            },
            Statement::Unknown => StatementView::Unknown,
        }
    }
}

/// What one physical source line parsed to.
#[derive(Debug, PartialEq)]
pub enum LineNode {
    Statement(Statement),
    Empty,
    Error(Vec<char>),
}

/// Mathematical model of a line node.
pub enum LineNodeView {
    Statement(StatementView),
    Empty,
    Error(Seq<char>),
}

impl View for LineNode {
    type V = LineNodeView;

    open spec fn view(&self) -> LineNodeView {
        match self {
            LineNode::Statement(s) => LineNodeView::Statement(s@),
            LineNode::Empty => LineNodeView::Empty,
            LineNode::Error(m) => LineNodeView::Error(m@),
        }
    }
}

/// One program line: its node and the span of the physical line.
#[derive(Debug, PartialEq)]
pub struct LineEntry {
    pub node: LineNode,
    pub span: Span,
}

/// Mathematical model of a program line.
pub struct LineEntryView {
    pub node: LineNodeView,
    pub span: Span,
}

impl View for LineEntry {
    type V = LineEntryView;

    open spec fn view(&self) -> LineEntryView {
        LineEntryView { node: self.node@, span: self.span }
    }
}

/// A parsed program: one entry per physical source line, in order.
pub type Program = Vec<LineEntry>;

/// View of a program, for contracts.
pub open spec fn spec_program_view(p: Seq<LineEntry>) -> Seq<LineEntryView> {
    p.map_values(|e: LineEntry| e@)
}

} // verus!
