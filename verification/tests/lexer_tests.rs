use glyph::constant::Type;
use glyph::instruction::{classify_instruction, InstructionType};
use glyph::lexer::{lexer, tokenize, AssemblyLexer};
use glyph::pseudoinstruction::is_reserved;
use glyph::register::is_valid;
use glyph::span::calculate_line;
use glyph::token::{PunctuationType, Token};

fn chars(s: &str) -> Vec<char> {
    s.chars().collect()
}

fn text_of(v: &Vec<char>) -> String {
    v.iter().collect()
}

#[test]
fn hex_literal_with_leading_zero_parses() {
    let toks = tokenize("0FFh");
    assert_eq!(toks.len(), 1);
    match &toks[0].0 {
        Token::Constant(Type::NumberHex(v, raw)) => {
            assert_eq!(*v, 255);
            assert_eq!(text_of(raw), "0FFh");
        }
        other => panic!("expected hex constant, got {:?}", other),
    }
    assert_eq!(toks[0].1.start, 0);
    assert_eq!(toks[0].1.end, 4);
}

#[test]
fn hex_literal_without_leading_zero_is_error() {
    let toks = tokenize("FFh");
    assert_eq!(toks.len(), 1);
    match &toks[0].0 {
        Token::Error(msg) => {
            assert!(text_of(msg).contains("missing leading zero"));
        }
        other => panic!("expected error token, got {:?}", other),
    }
}

#[test]
fn binary_literal_of_three_digits_is_error() {
    let toks = tokenize("101b");
    assert_eq!(toks.len(), 1);
    match &toks[0].0 {
        Token::Error(msg) => {
            assert_eq!(text_of(msg), "101b (Invalid length: 3, expected 8 or 16)");
        }
        other => panic!("expected error token, got {:?}", other),
    }
    assert_eq!(toks[0].1.start, 0);
    assert_eq!(toks[0].1.end, 4);
}

#[test]
fn binary_literal_of_eight_digits_parses() {
    let toks = tokenize("00001010b");
    assert_eq!(toks.len(), 1);
    match &toks[0].0 {
        Token::Constant(Type::NumberBinary(v, raw)) => {
            assert_eq!(*v, 10);
            assert_eq!(text_of(raw), "00001010b");
        }
        other => panic!("expected binary constant, got {:?}", other),
    }
}

#[test]
fn decimal_literal_parses() {
    let toks = tokenize("42");
    assert_eq!(toks.len(), 1);
    assert_eq!(toks[0].0, Token::Constant(Type::NumberDecimal(42)));
}

#[test]
fn compound_segment_directive_is_one_token() {
    let toks = tokenize(".data segment");
    assert_eq!(toks.len(), 1);
    assert_eq!(toks[0].0, Token::Pseudoinstruction(chars(".DATA SEGMENT")));
}

#[test]
fn compound_byte_ptr_is_one_token() {
    let toks = tokenize("byte ptr");
    assert_eq!(toks.len(), 1);
    assert_eq!(toks[0].0, Token::Pseudoinstruction(chars("BYTE PTR")));
}

#[test]
fn dup_construct_is_one_token() {
    let toks = tokenize("x DW 10 dup(0)");
    assert_eq!(toks.len(), 4);
    assert_eq!(toks[0].0, Token::Symbol(chars("x")));
    assert_eq!(toks[1].0, Token::Pseudoinstruction(chars("DW")));
    assert_eq!(toks[2].0, Token::Constant(Type::NumberDecimal(10)));
    assert_eq!(toks[3].0, Token::Pseudoinstruction(chars("dup(0)")));
}

#[test]
fn bracketed_memory_reference_is_one_symbol() {
    let toks = tokenize("[BX]");
    assert_eq!(toks.len(), 1);
    assert_eq!(toks[0].0, Token::Symbol(chars("[BX]")));
}

#[test]
fn unclosed_bracket_falls_back_to_punctuation() {
    let toks = tokenize("[BX");
    assert_eq!(toks[0].0, Token::Punctuation(PunctuationType::LBracket));
    assert_eq!(toks[1].0, Token::Register(chars("BX")));
}

#[test]
fn comments_are_stripped() {
    let toks = tokenize("NOP ; this is a comment");
    assert_eq!(toks.len(), 1);
    assert_eq!(
        toks[0].0,
        Token::Instruction(InstructionType::ProcessorControl, chars("NOP"))
    );
}

#[test]
fn unterminated_string_is_error_token() {
    // The error token's payload is the partial content collected so
    // far, opening quote included.
    let toks = tokenize("\"hello");
    assert_eq!(toks.len(), 1);
    assert_eq!(toks[0].0, Token::Error(chars("\"hello")));
}

#[test]
fn unterminated_string_does_not_swallow_the_next_line() {
    let toks = tokenize("msg DB \"hello\nMOV AX, BX");
    assert_eq!(toks.len(), 7);
    assert_eq!(toks[2].0, Token::Error(chars("\"hello")));
    assert_eq!(
        toks[3].0,
        Token::Instruction(InstructionType::DataTransfer, chars("MOV"))
    );
    assert_eq!(toks[4].0, Token::Register(chars("AX")));
    assert_eq!(toks[5].0, Token::Punctuation(PunctuationType::Comma));
    assert_eq!(toks[6].0, Token::Register(chars("BX")));
}

#[test]
fn closed_string_parses() {
    let toks = tokenize("\"hi\"");
    assert_eq!(toks.len(), 1);
    assert_eq!(toks[0].0, Token::Constant(Type::Text(chars("hi"))));
}

#[test]
fn single_quoted_char_parses() {
    let toks = tokenize("'a'");
    assert_eq!(toks.len(), 1);
    assert_eq!(toks[0].0, Token::Constant(Type::Char('a')));
}

#[test]
fn instruction_line_tokenizes() {
    let toks = tokenize("mov ax, 5");
    assert_eq!(toks.len(), 4);
    assert_eq!(
        toks[0].0,
        Token::Instruction(InstructionType::DataTransfer, chars("MOV"))
    );
    assert_eq!(toks[1].0, Token::Register(chars("AX")));
    assert_eq!(toks[2].0, Token::Punctuation(PunctuationType::Comma));
    assert_eq!(toks[3].0, Token::Constant(Type::NumberDecimal(5)));
}

#[test]
fn label_with_colon_tokenizes() {
    let toks = tokenize("start:");
    assert_eq!(toks.len(), 2);
    assert_eq!(toks[0].0, Token::Symbol(chars("start")));
    assert_eq!(toks[1].0, Token::Punctuation(PunctuationType::Colon));
}

#[test]
fn assembly_lexer_next_token_walks_the_source() {
    let mut lx = lexer("mov ax");
    let first = lx.next_token().expect("first token");
    assert_eq!(
        first.0,
        Token::Instruction(InstructionType::DataTransfer, chars("MOV"))
    );
    assert_eq!(first.1.start, 0);
    assert_eq!(first.1.end, 3);
    let second = lx.next_token().expect("second token");
    assert_eq!(second.0, Token::Register(chars("AX")));
    assert!(lx.next_token().is_none());
}

#[test]
fn assembly_lexer_peek_char_sees_ahead() {
    let lx = AssemblyLexer::new("ab");
    assert_eq!(lx.peek_char(0), Some('a'));
    assert_eq!(lx.peek_char(1), Some('b'));
    assert_eq!(lx.peek_char(2), None);
}

#[test]
fn token_category_names() {
    let toks = tokenize("mov ax, 5");
    assert_eq!(toks[0].0.category(), "Instruction");
    assert_eq!(toks[1].0.category(), "Register");
    assert_eq!(toks[2].0.category(), "Punctuation");
    assert_eq!(toks[3].0.category(), "Constant");
}

#[test]
fn token_description_names() {
    let toks = tokenize("mov 5 0FFh");
    assert_eq!(text_of(&toks[0].0.description()), "Data Transfer");
    assert_eq!(text_of(&toks[1].0.description()), "Decimal");
    assert_eq!(text_of(&toks[2].0.description()), "Hexadecimal");
}

#[test]
fn register_table_is_exact_and_case_sensitive() {
    assert!(is_valid("AX"));
    assert!(is_valid("BH"));
    assert!(!is_valid("ax"));
    assert!(!is_valid("EAX"));
    assert!(!is_valid("FOO"));
}

#[test]
fn reserved_directive_table() {
    assert!(is_reserved("DB"));
    assert!(is_reserved("SEGMENT"));
    assert!(is_reserved(".DATA"));
    assert!(is_reserved("END"));
    assert!(!is_reserved("MOV"));
    assert!(!is_reserved(".STACKS"));
}

#[test]
fn classify_instruction_table() {
    assert_eq!(classify_instruction("MOV"), Some(InstructionType::DataTransfer));
    assert_eq!(classify_instruction("ADD"), Some(InstructionType::Arithmetic));
    assert_eq!(classify_instruction("JMP"), Some(InstructionType::ControlTransfer));
    assert_eq!(classify_instruction("JNZ"), Some(InstructionType::ConditionalJump));
    assert_eq!(classify_instruction("INT"), Some(InstructionType::Interrupt));
    assert_eq!(classify_instruction("HLT"), Some(InstructionType::ProcessorControl));
    assert_eq!(classify_instruction("FOO"), None);
}

#[test]
fn calculate_line_counts_newlines_before_offset() {
    assert_eq!(calculate_line("ab\ncd", 0), 1);
    assert_eq!(calculate_line("ab\ncd", 2), 1);
    assert_eq!(calculate_line("ab\ncd", 3), 2);
    assert_eq!(calculate_line("ab\ncd", 4), 2);
}
