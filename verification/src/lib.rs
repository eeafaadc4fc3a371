//! A verified front-end for a teaching subset of 8086 assembly.
//!
//! The pipeline has four stages, each a pure function of its input:
//! a lexer that turns source text into spanned tokens, a per-line
//! error-recovering parser, a two-pass semantic validator, and a
//! two-pass encoder that resolves addresses and emits machine code.

pub mod analysis;
pub mod ast;
pub mod chars;
pub mod constant;
pub mod diagnostics;
pub mod encoder;
pub mod instruction;
pub mod lexer;
pub mod parser;
pub mod pseudoinstruction;
pub mod register;
pub mod span;
pub mod token;
pub mod validator;
