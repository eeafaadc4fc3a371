use glyph::analysis::analyze;
use glyph::ast::{LineNode, Operand, Statement};
use glyph::lexer::tokenize;
use glyph::parser::parse_line;

fn chars(s: &str) -> Vec<char> {
    s.chars().collect()
}

fn text_of(v: &Vec<char>) -> String {
    v.iter().collect()
}

fn parse_one(line: &str) -> LineNode {
    parse_line(&tokenize(line))
}

#[test]
fn empty_line_parses_to_empty() {
    assert_eq!(parse_one(""), LineNode::Empty);
    assert_eq!(parse_one("   ; just a comment"), LineNode::Empty);
}

#[test]
fn segment_markers_parse() {
    assert_eq!(
        parse_one(".data segment"),
        LineNode::Statement(Statement::Segment { name: chars(".DATA SEGMENT") })
    );
    assert_eq!(parse_one("ends"), LineNode::Statement(Statement::SegmentEnd));
    assert_eq!(
        parse_one(".CODE"),
        LineNode::Statement(Statement::Segment { name: chars(".CODE") })
    );
}

#[test]
fn end_with_and_without_label() {
    assert_eq!(parse_one("END"), LineNode::Statement(Statement::End { label: None }));
    assert_eq!(
        parse_one("END start"),
        LineNode::Statement(Statement::End { label: Some(chars("start")) })
    );
}

#[test]
fn label_definition_parses() {
    assert_eq!(
        parse_one("start:"),
        LineNode::Statement(Statement::Label(chars("start")))
    );
}

#[test]
fn variable_declaration_parses() {
    match parse_one("x DB 5") {
        LineNode::Statement(Statement::Variable { name, directive, value }) => {
            assert_eq!(text_of(&name), "x");
            assert_eq!(text_of(&directive), "DB");
            assert_eq!(value, Operand::Immediate(5, chars("5")));
        }
        other => panic!("expected variable, got {:?}", other),
    }
}

#[test]
fn equ_declaration_parses_to_constant() {
    match parse_one("limit EQU 100") {
        LineNode::Statement(Statement::Constant { name, value }) => {
            assert_eq!(text_of(&name), "limit");
            assert_eq!(value, Operand::Immediate(100, chars("100")));
        }
        other => panic!("expected constant, got {:?}", other),
    }
}

#[test]
fn dup_value_parses_with_inner_operand() {
    match parse_one("buf DW 32 DUP(0)") {
        LineNode::Statement(Statement::Variable { value, .. }) => match value {
            Operand::Dup(count, inner) => {
                assert_eq!(count, 32);
                assert_eq!(*inner, Operand::Immediate(0, chars("0")));
            }
            other => panic!("expected dup, got {:?}", other),
        },
        other => panic!("expected variable, got {:?}", other),
    }
}

#[test]
fn dup_with_unknown_inner_parses_as_label() {
    match parse_one("buf DW 32 DUP(?)") {
        LineNode::Statement(Statement::Variable { value, .. }) => match value {
            Operand::Dup(count, inner) => {
                assert_eq!(count, 32);
                assert_eq!(*inner, Operand::Label(chars("?")));
            }
            other => panic!("expected dup, got {:?}", other),
        },
        other => panic!("expected variable, got {:?}", other),
    }
}

#[test]
fn anonymous_data_declaration_parses() {
    match parse_one("DW 128") {
        LineNode::Statement(Statement::Data { directive, value }) => {
            assert_eq!(text_of(&directive), "DW");
            assert_eq!(value, Operand::Immediate(128, chars("128")));
        }
        other => panic!("expected data, got {:?}", other),
    }
}

#[test]
fn instruction_with_operand_list_parses() {
    match parse_one("MOV AX, 5") {
        LineNode::Statement(Statement::Instruction { mnemonic, operands }) => {
            assert_eq!(text_of(&mnemonic), "MOV");
            assert_eq!(operands.len(), 2);
            assert_eq!(operands[0], Operand::Register(chars("AX")));
            assert_eq!(operands[1], Operand::Immediate(5, chars("5")));
        }
        other => panic!("expected instruction, got {:?}", other),
    }
}

#[test]
fn memory_operand_with_displacement_parses() {
    match parse_one("MOV AX, [BX+4]") {
        LineNode::Statement(Statement::Instruction { operands, .. }) => {
            assert_eq!(
                operands[1],
                Operand::Memory { base: chars("BX"), offset: Some(4) }
            );
        }
        other => panic!("expected instruction, got {:?}", other),
    }
}

#[test]
fn bracketed_variable_reference_parses_as_label() {
    match parse_one("MOV AX, [foo]") {
        LineNode::Statement(Statement::Instruction { operands, .. }) => {
            assert_eq!(operands[1], Operand::Label(chars("[foo]")));
        }
        other => panic!("expected instruction, got {:?}", other),
    }
}

#[test]
fn char_literal_operand_is_an_immediate() {
    match parse_one("MOV AL, 'a'") {
        LineNode::Statement(Statement::Instruction { operands, .. }) => {
            assert_eq!(operands[1], Operand::Immediate(97, chars("'a'")));
        }
        other => panic!("expected instruction, got {:?}", other),
    }
}

#[test]
fn lone_known_directive_parses_to_unknown_statement() {
    assert_eq!(parse_one("ORG"), LineNode::Statement(Statement::Unknown));
}

#[test]
fn named_declaration_accepts_any_directive() {
    match parse_one("x ORG 5") {
        LineNode::Statement(Statement::Variable { name, directive, value }) => {
            assert_eq!(text_of(&name), "x");
            assert_eq!(text_of(&directive), "ORG");
            assert_eq!(value, Operand::Immediate(5, chars("5")));
        }
        other => panic!("expected variable, got {:?}", other),
    }
}

#[test]
fn unparsable_line_recovers_with_error_node() {
    assert_eq!(parse_one("MOV DB :"), LineNode::Error(chars("Syntax Error")));
    assert_eq!(parse_one(".stacks segment"), LineNode::Error(chars("Syntax Error")));
}

#[test]
fn program_has_one_node_per_line() {
    let r = analyze(".DATA SEGMENT\n\nx DB 1\nENDS");
    let prog = r.program.as_ref().expect("program");
    assert_eq!(prog.len(), 4);
    assert!(matches!(prog[0].node, LineNode::Statement(Statement::Segment { .. })));
    assert!(matches!(prog[1].node, LineNode::Empty));
    assert!(matches!(prog[2].node, LineNode::Statement(Statement::Variable { .. })));
    assert!(matches!(prog[3].node, LineNode::Statement(Statement::SegmentEnd)));
}

#[test]
fn one_bad_line_does_not_stop_the_rest() {
    let r = analyze(".CODE SEGMENT\n???\nNOP\nENDS");
    let prog = r.program.as_ref().expect("program");
    assert!(matches!(prog[1].node, LineNode::Error(_)));
    assert!(matches!(prog[2].node, LineNode::Statement(Statement::Instruction { .. })));
    assert!(!r.line_analysis[1].is_correct);
    assert!(r.line_analysis[2].is_correct);
}

#[test]
fn decimal_too_large_for_64_bits_parses_as_zero() {
    match parse_one("x DW 99999999999999999999999999") {
        LineNode::Statement(Statement::Variable { value, .. }) => match value {
            Operand::Immediate(v, _) => assert_eq!(v, 0),
            other => panic!("expected immediate, got {:?}", other),
        },
        other => panic!("expected variable, got {:?}", other),
    }
}

#[test]
fn directive_with_argument_parses_as_anonymous_declaration() {
    match parse_one("ORG 100h") {
        LineNode::Statement(Statement::Data { directive, value }) => {
            assert_eq!(text_of(&directive), "ORG");
            assert_eq!(value, Operand::Immediate(256, chars("100h")));
        }
        other => panic!("expected data, got {:?}", other),
    }
    let r = analyze("ORG 100h");
    assert_eq!(r.line_analysis.len(), 1);
    assert!(r.line_analysis[0].is_correct);
}
