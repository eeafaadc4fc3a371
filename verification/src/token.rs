//! Tokens produced by the lexer.

use vstd::prelude::*;
use crate::constant::{Type, TypeView};
use crate::instruction::InstructionType;

verus! {

/// A punctuation token.
#[derive(Clone, Copy, PartialEq, Eq, Structural, Debug)]
pub enum PunctuationType {
    Comma,
    Colon,
    LBracket,
    RBracket,
    LParen,
    RParen,
    Plus,
    Minus,
    Dot,
}

/// A classified token. Canonical text is upper-cased except for symbol
/// names and the raw spelling preserved inside literals.
#[derive(Debug, Clone, PartialEq)]
pub enum Token {
    Instruction(InstructionType, Vec<char>),
    Pseudoinstruction(Vec<char>),
    Register(Vec<char>),
    Constant(Type),
    Symbol(Vec<char>),
    Punctuation(PunctuationType),
    Error(Vec<char>),
}

/// Mathematical model of a token.
pub enum TokenView {
    Instruction(InstructionType, Seq<char>),
    Pseudoinstruction(Seq<char>),
    Register(Seq<char>),
    Constant(TypeView),
    Symbol(Seq<char>),
    Punctuation(PunctuationType),
    Error(Seq<char>),
}

impl View for Token {
    type V = TokenView;

    open spec fn view(&self) -> TokenView {
        match self {
            Token::Instruction(t, s) => TokenView::Instruction(*t, s@),
            Token::Pseudoinstruction(s) => TokenView::Pseudoinstruction(s@),
            Token::Register(s) => TokenView::Register(s@),
            Token::Constant(c) => TokenView::Constant(c@),
            Token::Symbol(s) => TokenView::Symbol(s@),
            Token::Punctuation(p) => TokenView::Punctuation(*p),
            Token::Error(s) => TokenView::Error(s@),
        }
    }
}

pub open spec fn spec_category(t: TokenView) -> Seq<char> {
    match t {
        TokenView::Instruction(_, _) => "Instruction"@,
        TokenView::Pseudoinstruction(_) => "Directive"@,
        TokenView::Register(_) => "Register"@,
        TokenView::Constant(_) => "Constant"@,
        TokenView::Symbol(_) => "Symbol"@,
        TokenView::Punctuation(_) => "Punctuation"@,
        TokenView::Error(_) => "Error"@,
    }
}

pub open spec fn spec_punctuation_description(p: PunctuationType) -> Seq<char> {
    match p {
        PunctuationType::Comma => "Separator"@,
        PunctuationType::Colon => "Definer"@,
        PunctuationType::LBracket => "Memory"@,
        PunctuationType::RBracket => "Memory"@,
        PunctuationType::LParen => "Grouping"@,
        PunctuationType::RParen => "Grouping"@,
        PunctuationType::Plus => "Operator"@,
        PunctuationType::Minus => "Operator"@,
        PunctuationType::Dot => "Access"@,
    }
}

pub open spec fn spec_description(t: TokenView) -> Seq<char> {
    match t {
        TokenView::Instruction(it, _) => crate::instruction::spec_instruction_type_description(it),
        TokenView::Pseudoinstruction(_) => "Directive"@,
        TokenView::Register(_) => "CPU Register"@,
        TokenView::Constant(c) => match c {
            TypeView::Text(_) => "String"@,
            TypeView::NumberDecimal(_) => "Decimal"@,
            TypeView::NumberHex(_, _) => "Hexadecimal"@,
            TypeView::NumberBinary(_, _) => "Binary"@,
            TypeView::Char(_) => "Char"@,
        },
        TokenView::Symbol(_) => "Identifier"@,
        TokenView::Punctuation(p) => spec_punctuation_description(p),
        TokenView::Error(e) => e,
    }
}

impl Token {
    /// The token's category name, for display.
    pub fn category(&self) -> (r: &'static str)
        ensures
            r@ == spec_category(self@),
    {
        match self {
            Token::Instruction(_, _) => "Instruction",
            Token::Pseudoinstruction(_) => "Directive",
            Token::Register(_) => "Register",
            Token::Constant(_) => "Constant",
            Token::Symbol(_) => "Symbol",
            Token::Punctuation(_) => "Punctuation",
            Token::Error(_) => "Error",
        }
    }

    /// A structural copy of the token.
    pub fn duplicate(&self) -> (r: Token)
        ensures
            r@ == self@,
    {
        match self {
            Token::Instruction(t, s) => Token::Instruction(*t, crate::chars::copy_chars(s)),
            Token::Pseudoinstruction(s) => Token::Pseudoinstruction(crate::chars::copy_chars(s)),
            Token::Register(s) => Token::Register(crate::chars::copy_chars(s)),
            Token::Constant(c) => Token::Constant(
                match c {
                    Type::Text(s) => Type::Text(crate::chars::copy_chars(s)),
                    Type::NumberDecimal(v) => Type::NumberDecimal(*v),
                    Type::NumberHex(v, raw) => Type::NumberHex(*v, crate::chars::copy_chars(raw)),
                    Type::NumberBinary(v, raw) => Type::NumberBinary(
                        *v,
                        crate::chars::copy_chars(raw),
                    ),
                    Type::Char(ch) => Type::Char(*ch),
                },
            ),
            Token::Symbol(s) => Token::Symbol(crate::chars::copy_chars(s)),
            Token::Punctuation(p) => Token::Punctuation(*p),
            Token::Error(s) => Token::Error(crate::chars::copy_chars(s)),
        }
    }

    /// A more detailed description; for an error token, its message.
    pub fn description(&self) -> (r: Vec<char>)
        ensures
            r@ == spec_description(self@),
    {
        match self {
            Token::Instruction(it, _) => crate::chars::chars_of(it.description()),
            Token::Pseudoinstruction(_) => crate::chars::chars_of("Directive"),
            Token::Register(_) => crate::chars::chars_of("CPU Register"),
            Token::Constant(c) => match c {
                Type::Text(_) => crate::chars::chars_of("String"),
                Type::NumberDecimal(_) => crate::chars::chars_of("Decimal"),
                Type::NumberHex(_, _) => crate::chars::chars_of("Hexadecimal"),
                Type::NumberBinary(_, _) => crate::chars::chars_of("Binary"),
                Type::Char(_) => crate::chars::chars_of("Char"),
            },
            Token::Symbol(_) => crate::chars::chars_of("Identifier"),
            Token::Punctuation(p) => match p {
                PunctuationType::Comma => crate::chars::chars_of("Separator"),
                PunctuationType::Colon => crate::chars::chars_of("Definer"),
                PunctuationType::LBracket => crate::chars::chars_of("Memory"),
                PunctuationType::RBracket => crate::chars::chars_of("Memory"),
                PunctuationType::LParen => crate::chars::chars_of("Grouping"),
                PunctuationType::RParen => crate::chars::chars_of("Grouping"),
                PunctuationType::Plus => crate::chars::chars_of("Operator"),
                PunctuationType::Minus => crate::chars::chars_of("Operator"),
                PunctuationType::Dot => crate::chars::chars_of("Access"),
            },
            Token::Error(e) => crate::chars::copy_chars(e),
        }
    }
}

} // verus!
