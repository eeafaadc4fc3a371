use glyph::analysis::{analyze, AnalysisResult};
use glyph::diagnostics::diagnose_syntax_error;
use glyph::validator::{Analyzer, CurrentSegment, DataType, Stage, SymbolType};

fn text_of(v: &Vec<char>) -> String {
    v.iter().collect()
}

fn messages(r: &AnalysisResult) -> Vec<String> {
    r.errors.iter().map(|e| text_of(&e.message)).collect()
}

fn has_message_containing(r: &AnalysisResult, needle: &str) -> bool {
    messages(r).iter().any(|m| m.contains(needle))
}

#[test]
fn line_analysis_length_matches_line_count() {
    assert_eq!(analyze("").line_analysis.len(), 0);
    assert_eq!(analyze("\n").line_analysis.len(), 1);
    assert_eq!(analyze("a\nb").line_analysis.len(), 2);
    assert_eq!(analyze("a\n").line_analysis.len(), 1);
    assert_eq!(analyze(".CODE SEGMENT\nNOP\nENDS").line_analysis.len(), 3);
}

#[test]
fn empty_input_reports_no_tokens() {
    let r = analyze("");
    assert!(r.success);
    assert!(r.tokens.is_none());
    assert!(r.program.is_none());
    assert!(r.errors.is_empty());
    assert!(r.symbol_table.is_empty());
}

#[test]
fn whitespace_only_input_keeps_line_breakdown() {
    let r = analyze("   \n  ");
    assert!(r.success);
    assert!(r.tokens.is_none());
    assert_eq!(r.line_analysis.len(), 2);
    assert_eq!(text_of(&r.line_analysis[0].instruction), "   ");
    assert_eq!(text_of(&r.line_analysis[1].instruction), "  ");
}

#[test]
fn crlf_line_breaks_are_not_part_of_the_line_text() {
    let r = analyze(".CODE SEGMENT\r\nNOP\r\nENDS");
    assert!(r.success, "errors: {:?}", messages(&r));
    assert_eq!(r.line_analysis.len(), 3);
    assert_eq!(text_of(&r.line_analysis[0].instruction), ".CODE SEGMENT");
    assert_eq!(text_of(&r.line_analysis[1].instruction), "NOP");
    assert_eq!(text_of(&r.line_analysis[2].instruction), "ENDS");
}

#[test]
fn analyze_is_idempotent() {
    let src = ".DATA SEGMENT\nvar1 DW 100 DUP(0)\nENDS\n.CODE SEGMENT\nMOV AX, 5\nNOP\nENDS";
    let r1 = analyze(src);
    let r2 = analyze(src);
    assert_eq!(r1, r2);
}

#[test]
fn hex_without_leading_zero_is_diagnosed() {
    let r = analyze(".CODE SEGMENT\nMOV AX, FFh\nENDS");
    assert!(!r.success);
    assert!(has_message_containing(&r, "missing leading zero"));
    assert!(!r.line_analysis[1].is_correct);
}

#[test]
fn hex_with_leading_zero_is_accepted() {
    let r = analyze(".DATA SEGMENT\nx DB 0FFh\nENDS");
    assert!(r.success, "errors: {:?}", messages(&r));
    let bytes = r.line_analysis[1].machine_code.as_ref().expect("bytes");
    assert_eq!(*bytes, vec![0xFF]);
}

#[test]
fn short_binary_literal_is_diagnosed() {
    let r = analyze(".DATA SEGMENT\nx DB 101b\nENDS");
    assert!(!r.success);
    assert!(has_message_containing(&r, "Invalid length: 3"));
}

#[test]
fn eight_digit_binary_literal_is_accepted() {
    let r = analyze(".DATA SEGMENT\nx DB 00001010b\nENDS");
    assert!(r.success, "errors: {:?}", messages(&r));
    let bytes = r.line_analysis[1].machine_code.as_ref().expect("bytes");
    assert_eq!(*bytes, vec![10]);
}

#[test]
fn unterminated_string_is_diagnosed_and_analysis_continues() {
    let r = analyze(".DATA SEGMENT\nmsg DB \"hello\nENDS");
    assert!(!r.success);
    assert!(has_message_containing(&r, "Faltan comillas de cierre"));
    assert_eq!(r.line_analysis.len(), 3);
    assert!(!r.line_analysis[1].is_correct);
    assert!(r.line_analysis[2].is_correct);
}

#[test]
fn unbalanced_bracket_is_diagnosed() {
    let r = analyze(".CODE SEGMENT\nMOV AX, [BX\nENDS");
    assert!(!r.success);
    assert!(has_message_containing(&r, "Corchetes desbalanceados"));
}

#[test]
fn dup_sizing_and_segment_reset() {
    let r = analyze(".DATA SEGMENT\nvar1 DW 100 DUP(0)\nENDS\n.CODE SEGMENT\nNOP\nENDS");
    assert!(r.success, "errors: {:?}", messages(&r));
    let var1 = r
        .symbol_table
        .iter()
        .find(|s| text_of(&s.name) == "var1")
        .expect("var1 in symbol table");
    assert_eq!(var1.offset, Some(0));
    assert_eq!(var1.type_, SymbolType::Variable);
    assert_eq!(var1.data_type, DataType::Word);
    assert_eq!(text_of(&var1.segment), "DATA");
    // A DUP reservation still gets an (empty) encoding entry.
    assert_eq!(r.line_analysis[1].machine_code, Some(vec![]));
    // The ENDS line keeps the counter it reached (100 words = 200 bytes).
    assert_eq!(r.line_analysis[2].address, Some(200));
    // The next segment resets the counter, so its first statement is at 0.
    assert_eq!(r.line_analysis[4].address, Some(0));
}

#[test]
fn backward_jump_is_accepted() {
    let r = analyze(".CODE SEGMENT\netiq:\nJMP etiq\nENDS");
    assert!(r.success, "errors: {:?}", messages(&r));
}

#[test]
fn forward_jump_is_rejected() {
    let r = analyze(".CODE SEGMENT\nJMP later\nlater:\nENDS");
    assert!(!r.success);
    assert!(has_message_containing(&r, "Etiqueta no definida (o definida posteriormente): 'later'"));
}

#[test]
fn misspelled_segment_keyword_is_diagnosed() {
    let r = analyze(".stacks segment");
    assert!(!r.success);
    assert!(has_message_containing(&r, "Declaración de segmento inválida"));
}

#[test]
fn instruction_outside_code_segment_is_diagnosed() {
    let r = analyze("MOV AX, BX");
    assert!(!r.success);
    assert!(has_message_containing(&r, "Instrucción fuera de segmento válido"));
}

#[test]
fn only_dw_is_allowed_in_stack_segment() {
    let r = analyze(".STACK SEGMENT\nDB 5\nENDS");
    assert!(!r.success);
    assert!(has_message_containing(&r, "Se esperaba directiva DW"));
    let ok = analyze(".STACK SEGMENT\nDW 100 DUP(0)\nENDS");
    assert!(ok.success, "errors: {:?}", messages(&ok));
}

#[test]
fn label_in_data_segment_is_diagnosed() {
    let r = analyze(".DATA SEGMENT\nfoo:\nENDS");
    assert!(!r.success);
    assert!(has_message_containing(&r, "not allowed in a data segment"));
}

#[test]
fn db_text_without_quotes_is_diagnosed() {
    let r = analyze(".DATA SEGMENT\nmsg DB hello\nENDS");
    assert!(!r.success);
    assert!(has_message_containing(&r, "without quotes"));
}

#[test]
fn duplicate_symbol_is_diagnosed() {
    let r = analyze(".DATA SEGMENT\nx DB 1\nx DB 2\nENDS");
    assert!(!r.success);
    assert!(has_message_containing(&r, "Símbolo duplicado 'x'"));
}

#[test]
fn unknown_operand_symbol_is_diagnosed() {
    let r = analyze(".CODE SEGMENT\nMOV AX, foo\nENDS");
    assert!(!r.success);
    assert!(has_message_containing(&r, "Unidentified element"));
}

#[test]
fn mnemonic_outside_teaching_subset_is_diagnosed() {
    let r = analyze(".CODE SEGMENT\nHLT\nENDS");
    assert!(!r.success);
    assert!(has_message_containing(&r, "Not a valid instruction"));
}

#[test]
fn hex_hidden_inside_dup_is_reflagged() {
    let r = analyze(".DATA SEGMENT\nx DW 2 DUP(FFh)\nENDS");
    assert!(!r.success);
    assert!(has_message_containing(&r, "Constante Hex inválida 'FFh' (falta 0 inicial)"));
}

#[test]
fn machine_code_for_supported_instructions() {
    let r = analyze(".CODE SEGMENT\nMOV AX, 5\nMOV AX, BX\nINC AX\nINT 21h\nRET\nNOP\nENDS");
    assert!(r.success, "errors: {:?}", messages(&r));
    let code = |ix: usize| r.line_analysis[ix].machine_code.as_ref().expect("bytes").clone();
    assert_eq!(code(1), vec![0xB8, 0x05, 0x00]);
    assert_eq!(code(2), vec![0x89, 0xD8]);
    assert_eq!(code(3), vec![0x40]);
    assert_eq!(code(4), vec![0xCD, 0x21]);
    assert_eq!(code(5), vec![0xC3]);
    assert_eq!(code(6), vec![0x90]);
    assert!(r.line_analysis[0].machine_code.is_none());
}

#[test]
fn addresses_advance_by_size_estimates() {
    let r = analyze(".CODE SEGMENT\nMOV AX, 5\nMOV AX, BX\nNOP\nENDS");
    assert!(r.success, "errors: {:?}", messages(&r));
    // The segment line itself sits at the fixed base address.
    assert_eq!(r.line_analysis[0].address, Some(0x0250));
    assert_eq!(r.line_analysis[1].address, Some(0));
    assert_eq!(r.line_analysis[2].address, Some(3));
    assert_eq!(r.line_analysis[3].address, Some(5));
    assert_eq!(r.line_analysis[4].address, Some(6));
}

#[test]
fn db_string_sizes_by_byte_length() {
    let r = analyze(".DATA SEGMENT\nmsg DB \"hi\"\nnext DB 1\nENDS");
    assert!(r.success, "errors: {:?}", messages(&r));
    let msg = r.symbol_table.iter().find(|s| text_of(&s.name) == "msg").unwrap();
    let next = r.symbol_table.iter().find(|s| text_of(&s.name) == "next").unwrap();
    assert_eq!(msg.offset, Some(0));
    assert_eq!(next.offset, Some(2));
    let bytes = r.line_analysis[1].machine_code.as_ref().expect("bytes");
    assert_eq!(*bytes, vec![0x68, 0x69]);
}

#[test]
fn symbol_table_is_sorted_by_name() {
    let r = analyze(".DATA SEGMENT\nzeta DB 1\nalpha DB 2\nmid DB 3\nENDS");
    assert!(r.success, "errors: {:?}", messages(&r));
    let names: Vec<String> = r.symbol_table.iter().map(|s| text_of(&s.name)).collect();
    assert_eq!(names, vec!["alpha", "mid", "zeta"]);
}

#[test]
fn equ_defines_a_constant_symbol() {
    let r = analyze("limit EQU 100");
    assert!(r.success, "errors: {:?}", messages(&r));
    let sym = &r.symbol_table[0];
    assert_eq!(text_of(&sym.name), "limit");
    assert_eq!(sym.type_, SymbolType::Constant);
    assert_eq!(sym.data_type, DataType::Untyped);
    assert_eq!(sym.offset, None);
}

#[test]
fn lex_parse_and_semantic_stages_are_tagged() {
    let r = analyze(".CODE SEGMENT\nMOV AX, FFh\nHLT\nENDS");
    assert!(r.errors.iter().any(|e| e.stage == Stage::Lex));
    assert!(r.errors.iter().any(|e| e.stage == Stage::Parse));
    assert!(r.errors.iter().any(|e| e.stage == Stage::Semantic));
    assert!(r.errors.iter().all(|e| !e.fatal));
    let tagged: Vec<String> = r.errors.iter().map(|e| text_of(&e.tagged_message())).collect();
    assert!(tagged.iter().any(|m| m.starts_with("[LEX] ")));
    assert!(tagged.iter().any(|m| m.starts_with("[PAR] ")));
    assert!(tagged.iter().any(|m| m.starts_with("[SEM] ")));
}

#[test]
fn error_lines_carry_the_first_error_message() {
    let r = analyze("garbage !!");
    assert!(!r.success);
    assert_eq!(r.line_analysis.len(), 1);
    assert!(!r.line_analysis[0].is_correct);
    assert!(r.line_analysis[0].error_message.is_some());
}

#[test]
fn diagnose_reports_segment_problems_first() {
    let d = |line: &str| -> String { diagnose_syntax_error(line).iter().collect() };
    assert_eq!(d("data segment"), "Declaración de segmento inválida");
    assert_eq!(d("MOV AX, FFh"), "Constante Hex inválida 'FFh' (falta 0 inicial)");
    // The heuristic demands the leading digit 0 itself.
    assert_eq!(d("MOV AX, 21h x"), "Constante Hex inválida '21h' (falta 0 inicial)");
    assert_eq!(d("MOV AX, [BX"), "Corchetes desbalanceados");
    assert_eq!(d("msg DB \"oops"), "Faltan comillas de cierre");
    assert_eq!(d("?? ??"), "Sintaxis inválida o token faltante");
}

#[test]
fn analyzer_state_machine_classifies_segments() {
    let a = Analyzer::new();
    assert_eq!(a.current_segment, CurrentSegment::NoSegment);
    assert_eq!(a.location_counter, 0);
    assert_eq!(
        Analyzer::classify_segment(&".STACK SEGMENT".chars().collect()),
        CurrentSegment::Stack
    );
    assert_eq!(
        Analyzer::classify_segment(&".data segment".chars().collect()),
        CurrentSegment::Data
    );
    assert_eq!(
        Analyzer::classify_segment(&".CODE SEGMENT".chars().collect()),
        CurrentSegment::Code
    );
    assert_eq!(
        Analyzer::classify_segment(&"other".chars().collect()),
        CurrentSegment::NoSegment
    );
}

#[test]
fn mov_memory_operand_parses_and_counts_displacement() {
    let r = analyze(".CODE SEGMENT\nMOV AX, [BX]\nNOP\nENDS");
    assert!(r.success, "errors: {:?}", messages(&r));
    // MOV with a memory operand is estimated at 2 + 2 bytes.
    assert_eq!(r.line_analysis[1].address, Some(0));
    assert_eq!(r.line_analysis[2].address, Some(4));
    // Memory-form MOV is outside the supported encoding subset.
    assert!(r.line_analysis[1].machine_code.is_none());
}
