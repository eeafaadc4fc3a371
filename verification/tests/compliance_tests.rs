//! End-to-end acceptance scenarios: whole programs through `analyze`,
//! checking which ones pass cleanly and which diagnostic each failing
//! one produces.

use glyph::analysis::{analyze, AnalysisResult};

fn text_of(v: &Vec<char>) -> String {
    v.iter().collect()
}

fn assert_clean(source: &str) {
    let r = analyze(source);
    let msgs: Vec<String> = r.errors.iter().map(|e| text_of(&e.message)).collect();
    assert!(r.success, "expected no errors for {:?}, got {:?}", source, msgs);
}

fn assert_flagged(source: &str, needle: &str) {
    let r = analyze(source);
    assert!(!r.success, "expected errors for {:?}", source);
    let msgs: Vec<String> = r.errors.iter().map(|e| text_of(&e.message)).collect();
    assert!(
        msgs.iter().any(|m| m.contains(needle)),
        "expected a message containing {:?} for {:?}, got {:?}",
        needle,
        source,
        msgs
    );
}

#[test]
fn clean_code_segment_with_hex_immediates() {
    assert_clean(".CODE SEGMENT\nMOV AX, 0FFh\nENDS");
    assert_clean(".CODE SEGMENT\nMOV AX, 21h\nENDS");
}

#[test]
fn clean_data_segment_with_dup_reservation() {
    assert_clean(".DATA SEGMENT\nvar1 DW 100 DUP(0)\nENDS");
}

#[test]
fn clean_label_and_end_with_entry_point() {
    assert_clean(".CODE SEGMENT\nstart:\nEND start");
}

#[test]
fn clean_full_program() {
    assert_clean(
        ".STACK SEGMENT\nDW 64 DUP(0)\nENDS\n.DATA SEGMENT\nmsg DB \"hola\"\ncount DW 5\nENDS\n.CODE SEGMENT\nstart:\nMOV AX, count\nINC AX\nJMP start\nENDS\nEND start",
    );
}

#[test]
fn misspelled_segment_is_flagged() {
    assert_flagged(".stacks segment", "Declaración de segmento inválida");
}

#[test]
fn malformed_hex_immediate_is_flagged() {
    assert_flagged(".CODE SEGMENT\nMOV AX, 0FF\nENDS", "unrecognized numeric literal");
}

#[test]
fn unterminated_string_is_flagged() {
    assert_flagged("msg DB \"hello", "Faltan comillas de cierre");
}

#[test]
fn unbalanced_bracket_is_flagged() {
    assert_flagged("MOV AX, [BX", "Corchetes desbalanceados");
}

#[test]
fn hex_variable_without_leading_zero_is_flagged() {
    assert_flagged(".DATA SEGMENT\nvar2 DB FFh\nENDS", "falta 0 inicial");
}

#[test]
fn instruction_inside_data_segment_is_flagged() {
    assert_flagged(".DATA SEGMENT\nMOV AX, 0\nENDS", "fuera de segmento");
}

#[test]
fn line_analysis_attributes_errors_to_their_lines() {
    let r: AnalysisResult = analyze(".DATA SEGMENT\nvar2 DB FFh\nok DB 1\nENDS");
    assert_eq!(r.line_analysis.len(), 4);
    assert!(r.line_analysis[0].is_correct);
    assert!(!r.line_analysis[1].is_correct);
    assert!(r.line_analysis[2].is_correct);
    assert!(r.line_analysis[3].is_correct);
    let msg = r.line_analysis[1].error_message.as_ref().expect("message");
    assert!(text_of(msg).contains("missing leading zero") || text_of(msg).contains("falta 0 inicial"));
}
