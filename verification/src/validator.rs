//! The semantic validator: two passes over the program.
//!
//! Pass one builds the symbol table, scoped by the active segment; pass
//! two replays the same segment state machine and checks placement
//! rules, the allowed-instruction list, jump targets and literal rules,
//! emitting line-attributed diagnostics. No diagnostic is ever
//! discarded, and validation never aborts.

use vstd::prelude::*;
use crate::ast::{LineEntryView, LineNode, LineNodeView, Operand, OperandView, Program,
    Statement, StatementView, spec_program_view};
use crate::chars::{spec_contains, spec_is_digit, spec_upper};
use crate::lexer::spec_hex_shaped;

verus! {

/// Kind of a symbol.
#[derive(Clone, Copy, PartialEq, Eq, Structural, Debug)]
pub enum SymbolType {
    Variable,
    Label,
    Constant,
}

/// Width of a variable's data, from its directive.
#[derive(Clone, Copy, PartialEq, Eq, Structural, Debug)]
pub enum DataType {
    Byte,
    Word,
    Dword,
    Untyped,
}

/// The pipeline stage a diagnostic came from.
#[derive(Clone, Copy, PartialEq, Eq, Structural, Debug)]
pub enum Stage {
    Lex,
    Parse,
    Semantic,
}

/// The segment a statement stands in.
#[derive(Clone, Copy, PartialEq, Eq, Structural, Debug)]
pub enum CurrentSegment {
    NoSegment,
    Data,
    Stack,
    Code,
}

/// One symbol-table entry. The offset starts unset and is filled
/// exactly once, during encoder pass one.
#[derive(Debug, PartialEq)]
pub struct SymbolRecord {
    pub name: Vec<char>,
    pub type_: SymbolType,
    pub data_type: DataType,
    pub offset: Option<u64>,
    pub segment: Vec<char>,
    pub line: usize,
}

/// Mathematical model of a symbol-table entry.
pub struct SymbolRecordView {
    pub name: Seq<char>,
    pub type_: SymbolType,
    pub data_type: DataType,
    pub offset: Option<u64>,
    pub segment: Seq<char>,
    pub line: usize,
}

impl View for SymbolRecord {
    type V = SymbolRecordView;

    open spec fn view(&self) -> SymbolRecordView {
        SymbolRecordView {
            name: self.name@,
            type_: self.type_,
            data_type: self.data_type,
            offset: self.offset,
            segment: self.segment@,
            line: self.line,
        }
    }
}

/// One collected diagnostic. Diagnostics are never fatal: the pipeline
/// always continues.
#[derive(Debug, PartialEq)]
pub struct CompilerError {
    pub stage: Stage,
    pub message: Vec<char>,
    pub line: usize,
    pub fatal: bool,
}

/// Mathematical model of a diagnostic.
pub struct CompilerErrorView {
    pub stage: Stage,
    pub message: Seq<char>,
    pub line: usize,
    pub fatal: bool,
}

impl View for CompilerError {
    type V = CompilerErrorView;

    open spec fn view(&self) -> CompilerErrorView {
        CompilerErrorView {
            stage: self.stage,
            message: self.message@,
            line: self.line,
            fatal: self.fatal,
        }
    }
}

/// The short tag of a stage, as it prefixes rendered diagnostics.
pub open spec fn spec_stage_tag(s: Stage) -> Seq<char> {
    match s {
        Stage::Lex => "[LEX] "@,
        Stage::Parse => "[PAR] "@,
        Stage::Semantic => "[SEM] "@,
    }
}

impl CompilerError {
    /// The diagnostic as display text, prefixed with its stage tag.
    pub fn tagged_message(&self) -> (r: Vec<char>)
        ensures
            r@ == spec_stage_tag(self.stage) + self.message@,
    {
        let mut out = match self.stage {
            Stage::Lex => crate::chars::chars_of("[LEX] "),
            Stage::Parse => crate::chars::chars_of("[PAR] "),
            Stage::Semantic => crate::chars::chars_of("[SEM] "),
        };
        crate::chars::append_chars(&mut out, &self.message);
        out
    }
}

/// View of a symbol-record vector, for contracts.
pub open spec fn spec_syms_view(v: Seq<SymbolRecord>) -> Seq<SymbolRecordView> {
    v.map_values(|s: SymbolRecord| s@)
}

/// View of a diagnostic vector, for contracts.
pub open spec fn spec_errs_view(v: Seq<CompilerError>) -> Seq<CompilerErrorView> {
    v.map_values(|e: CompilerError| e@)
}

/// The segment-classification and location-counter state machine,
/// replayed by validator pass one, validator pass two and encoder pass
/// one.
#[derive(Clone, Copy, PartialEq, Eq, Structural, Debug)]
pub struct Analyzer {
    pub current_segment: CurrentSegment,
    pub location_counter: u64,
}

/// Classify a segment name by substring match against STACK, DATA and
/// CODE, case-insensitively.
pub open spec fn spec_classify_segment(name: Seq<char>) -> CurrentSegment {
    let up = spec_upper(name);
    if spec_contains(up, "STACK"@) {
        CurrentSegment::Stack
    } else if spec_contains(up, "DATA"@) {
        CurrentSegment::Data
    } else if spec_contains(up, "CODE"@) {
        CurrentSegment::Code
    } else {
        CurrentSegment::NoSegment
    }
}

/// How a line moves the segment state machine: entering a segment
/// classifies its name and resets the location counter; `ENDS` leaves
/// the segment; everything else leaves the state unchanged.
pub open spec fn spec_transition(a: Analyzer, node: LineNodeView) -> Analyzer {
    match node {
        LineNodeView::Statement(stmt) => match stmt {
            StatementView::Segment { name } => Analyzer {
                current_segment: spec_classify_segment(name),
                location_counter: 0,
            },
            StatementView::SegmentEnd => Analyzer {
                current_segment: CurrentSegment::NoSegment,
                ..a
            },
            _ => a,
        },
        _ => a,
    }
}

impl Analyzer {
    /// A fresh state machine: outside any segment, counter at zero.
    pub fn new() -> (r: Analyzer)
        ensures
            r == (Analyzer { current_segment: CurrentSegment::NoSegment, location_counter: 0 }),
    {
        Analyzer { current_segment: CurrentSegment::NoSegment, location_counter: 0 }
    }

    /// Classify a segment name as the state machine does.
    pub fn classify_segment(name: &Vec<char>) -> (r: CurrentSegment)
        ensures
            r == spec_classify_segment(name@),
    {
        let up = crate::chars::upper_chars(name);
        let stack_pat = crate::chars::chars_of("STACK");
        let data_pat = crate::chars::chars_of("DATA");
        let code_pat = crate::chars::chars_of("CODE");
        if crate::chars::contains_chars(&up, &stack_pat) {
            CurrentSegment::Stack
        } else if crate::chars::contains_chars(&up, &data_pat) {
            CurrentSegment::Data
        } else if crate::chars::contains_chars(&up, &code_pat) {
            CurrentSegment::Code
        } else {
            CurrentSegment::NoSegment
        }
    }

    /// Step the state machine over one line.
    pub fn transition(&mut self, node: &LineNode)
        ensures
            *final(self) == spec_transition(*old(self), node@),
    {
        match node {
            LineNode::Statement(stmt) => match stmt {
                Statement::Segment { name } => {
                    self.current_segment = Analyzer::classify_segment(name);
                    self.location_counter = 0;
                },
                Statement::SegmentEnd => {
                    self.current_segment = CurrentSegment::NoSegment;
                },
                _ => {},
            },
            _ => {},
        }
    }
}

/// First record with the given name, front to back.
pub open spec fn spec_find_sym(syms: Seq<SymbolRecordView>, name: Seq<char>) -> Option<
    SymbolRecordView,
>
    decreases syms.len(),
{
    if syms.len() == 0 {
        None
    } else if syms[0].name == name {
        Some(syms[0])
    } else {
        spec_find_sym(syms.skip(1), name)
    }
}

/// Index of the first record with the given name, if any.
pub fn find_sym(syms: &Vec<SymbolRecord>, name: &Vec<char>) -> (r: Option<usize>)
    ensures
        match r {
            Some(ix) => ix < syms@.len() && syms@[ix as int]@.name == name@ && (forall|k: int|
                0 <= k < ix ==> (#[trigger] syms@[k]@).name != name@) && spec_find_sym(
                spec_syms_view(syms@),
                name@,
            ) == Some(syms@[ix as int]@),
            None => spec_find_sym(spec_syms_view(syms@), name@) is None,
        },
{
    let r = find_sym_from(syms, name, 0);
    proof {
        assert(spec_syms_view(syms@).skip(0) =~= spec_syms_view(syms@));
    }
    r
}

fn find_sym_from(syms: &Vec<SymbolRecord>, name: &Vec<char>, i: usize) -> (r: Option<usize>)
    requires
        i <= syms@.len(),
    ensures
        match r {
            Some(ix) => i <= ix < syms@.len() && syms@[ix as int]@.name == name@ && (forall|k: int|
                i <= k < ix ==> (#[trigger] syms@[k]@).name != name@) && spec_find_sym(
                spec_syms_view(syms@).skip(i as int),
                name@,
            ) == Some(syms@[ix as int]@),
            None => spec_find_sym(spec_syms_view(syms@).skip(i as int), name@) is None,
        },
    decreases syms@.len() - i,
{
    let ghost tail = spec_syms_view(syms@).skip(i as int);
    if i == syms.len() {
        return None;
    }
    proof {
        assert(tail[0] == spec_syms_view(syms@)[i as int]);
        assert(spec_syms_view(syms@)[i as int] == syms@[i as int]@);
    }
    if crate::chars::chars_eq(&syms[i].name, name) {
        Some(i)
    } else {
        let r = find_sym_from(syms, name, i + 1);
        proof {
            assert(tail.skip(1) =~= spec_syms_view(syms@).skip(i + 1));
        }
        r
    }
}

/// The data type named by a declaration directive.
pub open spec fn spec_data_type_of(directive: Seq<char>) -> DataType {
    if directive == "DB"@ {
        DataType::Byte
    } else if directive == "DW"@ {
        DataType::Word
    } else if directive == "DD"@ {
        DataType::Dword
    } else {
        DataType::Untyped
    }
}

pub fn data_type_of(directive: &Vec<char>) -> (r: DataType)
    ensures
        r == spec_data_type_of(directive@),
{
    if crate::chars::chars_eq_str(directive, "DB") {
        DataType::Byte
    } else if crate::chars::chars_eq_str(directive, "DW") {
        DataType::Word
    } else if crate::chars::chars_eq_str(directive, "DD") {
        DataType::Dword
    } else {
        DataType::Untyped
    }
}

/// Name of a segment state, as recorded in symbol entries.
pub open spec fn spec_segment_name(seg: CurrentSegment) -> Seq<char> {
    match seg {
        CurrentSegment::Data => "DATA"@,
        CurrentSegment::Stack => "STACK"@,
        CurrentSegment::Code => "CODE"@,
        CurrentSegment::NoSegment => "NONE"@,
    }
}

pub fn segment_name(seg: CurrentSegment) -> (r: Vec<char>)
    ensures
        r@ == spec_segment_name(seg),
{
    match seg {
        CurrentSegment::Data => crate::chars::chars_of("DATA"),
        CurrentSegment::Stack => crate::chars::chars_of("STACK"),
        CurrentSegment::Code => crate::chars::chars_of("CODE"),
        CurrentSegment::NoSegment => crate::chars::chars_of("NONE"),
    }
}

/// State of validator pass one.
pub struct V1State {
    pub an: Analyzer,
    pub syms: Seq<SymbolRecordView>,
    pub errs: Seq<CompilerErrorView>,
}

pub open spec fn spec_semantic_err(msg: Seq<char>, line: nat) -> CompilerErrorView {
    CompilerErrorView { stage: Stage::Semantic, message: msg, line: line as usize, fatal: false }
}

/// Message for a duplicate variable or constant name.
pub open spec fn spec_dup_symbol_msg(name: Seq<char>) -> Seq<char> {
    "Error: Símbolo duplicado '"@ + name + "'"@
}

/// Message for a duplicate label name.
pub open spec fn spec_dup_label_msg(name: Seq<char>) -> Seq<char> {
    "Etiqueta duplicada: "@ + name
}

/// Message for a jump to a name that is not yet (or not at all) a label.
pub open spec fn spec_undefined_label_msg(name: Seq<char>) -> Seq<char> {
    "Etiqueta no definida (o definida posteriormente): '"@ + name + "'"@
}

/// Message for a jump whose target symbol is not a label.
pub open spec fn spec_not_jump_label_msg(name: Seq<char>) -> Seq<char> {
    "'"@ + name + "' no es una etiqueta válida para salto"@
}

/// Message for a hex spelling that lacks its leading zero.
pub open spec fn spec_bad_hex_msg(raw: Seq<char>) -> Seq<char> {
    "Constante Hex inválida '"@ + raw + "' (falta 0 inicial)"@
}

/// Pass one, one line: track the segment machine; a `Variable` inside
/// the data segment, a `Label` inside the code segment and a `Constant`
/// anywhere insert a symbol (a duplicate name is a diagnostic instead);
/// offsets are left unset.
pub open spec fn spec_v1_step(st: V1State, node: LineNodeView, line: nat) -> V1State {
    let an2 = spec_transition(st.an, node);
    match node {
        LineNodeView::Statement(stmt) => match stmt {
            StatementView::Variable { name, directive, value } => {
                if st.an.current_segment == CurrentSegment::Data {
                    if spec_find_sym(st.syms, name) is Some {
                        V1State {
                            an: an2,
                            syms: st.syms,
                            errs: st.errs.push(
                                spec_semantic_err(spec_dup_symbol_msg(name), line),
                            ),
                        }
                    } else {
                        V1State {
                            an: an2,
                            syms: st.syms.push(
                                SymbolRecordView {
                                    name: name,
                                    type_: SymbolType::Variable,
                                    data_type: spec_data_type_of(directive),
                                    offset: None,
                                    segment: "DATA"@,
                                    line: line as usize,
                                },
                            ),
                            errs: st.errs,
                        }
                    }
                } else {
                    V1State { an: an2, syms: st.syms, errs: st.errs }
                }
            },
            StatementView::Constant { name, value } => {
                if spec_find_sym(st.syms, name) is Some {
                    V1State {
                        an: an2,
                        syms: st.syms,
                        errs: st.errs.push(spec_semantic_err(spec_dup_symbol_msg(name), line)),
                    }
                } else {
                    V1State {
                        an: an2,
                        syms: st.syms.push(
                            SymbolRecordView {
                                name: name,
                                type_: SymbolType::Constant,
                                data_type: DataType::Untyped,
                                offset: None,
                                segment: spec_segment_name(st.an.current_segment),
                                line: line as usize,
                            },
                        ),
                        errs: st.errs,
                    }
                }
            },
            StatementView::Label(name) => {
                if st.an.current_segment == CurrentSegment::Code {
                    if spec_find_sym(st.syms, name) is Some {
                        V1State {
                            an: an2,
                            syms: st.syms,
                            errs: st.errs.push(
                                spec_semantic_err(spec_dup_label_msg(name), line),
                            ),
                        }
                    } else {
                        V1State {
                            an: an2,
                            syms: st.syms.push(
                                SymbolRecordView {
                                    name: name,
                                    type_: SymbolType::Label,
                                    data_type: DataType::Untyped,
                                    offset: None,
                                    segment: "CODE"@,
                                    line: line as usize,
                                },
                            ),
                            errs: st.errs,
                        }
                    }
                } else {
                    V1State { an: an2, syms: st.syms, errs: st.errs }
                }
            },
            _ => V1State { an: an2, syms: st.syms, errs: st.errs },
        },
        _ => V1State { an: an2, syms: st.syms, errs: st.errs },
    }
}

/// Pass one over the first `i` lines.
pub open spec fn spec_v1_run(prog: Seq<LineEntryView>, i: int) -> V1State
    decreases i,
{
    if i <= 0 {
        V1State { an: Analyzer { current_segment: CurrentSegment::NoSegment, location_counter: 0 },
            syms: Seq::empty(), errs: Seq::empty() }
    } else {
        spec_v1_step(spec_v1_run(prog, i - 1), prog[i - 1].node, i as nat)
    }
}

/// Is the upper-case mnemonic in the deliberately restricted teaching
/// subset that the validator accepts?
pub open spec fn spec_is_allowed_instruction(m: Seq<char>) -> bool {
    m == "MOV"@ || m == "ADD"@ || m == "SUB"@ || m == "CMP"@ || m == "AND"@ || m == "OR"@ || m
        == "XOR"@ || m == "TEST"@ || m == "INC"@ || m == "DEC"@ || m == "MUL"@ || m == "DIV"@ || m
        == "NOT"@ || m == "NEG"@ || m == "PUSH"@ || m == "POP"@ || m == "JMP"@ || m == "JE"@ || m
        == "JNE"@ || m == "JZ"@ || m == "JNZ"@ || m == "JG"@ || m == "JL"@ || m == "JA"@ || m
        == "JB"@ || m == "LOOP"@ || m == "RET"@ || m == "IRET"@ || m == "NOP"@ || m == "CLC"@ || m
        == "STC"@ || m == "INT"@
}

pub fn is_allowed_instruction(m: &Vec<char>) -> (r: bool)
    ensures
        r == spec_is_allowed_instruction(m@),
{
    crate::chars::chars_eq_str(m, "MOV") || crate::chars::chars_eq_str(m, "ADD")
        || crate::chars::chars_eq_str(m, "SUB") || crate::chars::chars_eq_str(m, "CMP")
        || crate::chars::chars_eq_str(m, "AND") || crate::chars::chars_eq_str(m, "OR")
        || crate::chars::chars_eq_str(m, "XOR") || crate::chars::chars_eq_str(m, "TEST")
        || crate::chars::chars_eq_str(m, "INC") || crate::chars::chars_eq_str(m, "DEC")
        || crate::chars::chars_eq_str(m, "MUL") || crate::chars::chars_eq_str(m, "DIV")
        || crate::chars::chars_eq_str(m, "NOT") || crate::chars::chars_eq_str(m, "NEG")
        || crate::chars::chars_eq_str(m, "PUSH") || crate::chars::chars_eq_str(m, "POP")
        || crate::chars::chars_eq_str(m, "JMP") || crate::chars::chars_eq_str(m, "JE")
        || crate::chars::chars_eq_str(m, "JNE") || crate::chars::chars_eq_str(m, "JZ")
        || crate::chars::chars_eq_str(m, "JNZ") || crate::chars::chars_eq_str(m, "JG")
        || crate::chars::chars_eq_str(m, "JL") || crate::chars::chars_eq_str(m, "JA")
        || crate::chars::chars_eq_str(m, "JB") || crate::chars::chars_eq_str(m, "LOOP")
        || crate::chars::chars_eq_str(m, "RET") || crate::chars::chars_eq_str(m, "IRET")
        || crate::chars::chars_eq_str(m, "NOP") || crate::chars::chars_eq_str(m, "CLC")
        || crate::chars::chars_eq_str(m, "STC") || crate::chars::chars_eq_str(m, "INT")
}

/// Is the upper-case mnemonic a jump or branch?
pub open spec fn spec_is_jump(m: Seq<char>) -> bool {
    m == "JMP"@ || m == "JE"@ || m == "JNE"@ || m == "JZ"@ || m == "JNZ"@ || m == "JG"@ || m
        == "JL"@ || m == "JA"@ || m == "JB"@ || m == "LOOP"@
}

pub fn is_jump(m: &Vec<char>) -> (r: bool)
    ensures
        r == spec_is_jump(m@),
{
    crate::chars::chars_eq_str(m, "JMP") || crate::chars::chars_eq_str(m, "JE")
        || crate::chars::chars_eq_str(m, "JNE") || crate::chars::chars_eq_str(m, "JZ")
        || crate::chars::chars_eq_str(m, "JNZ") || crate::chars::chars_eq_str(m, "JG")
        || crate::chars::chars_eq_str(m, "JL") || crate::chars::chars_eq_str(m, "JA")
        || crate::chars::chars_eq_str(m, "JB") || crate::chars::chars_eq_str(m, "LOOP")
}

/// The raw hex spelling carried by the value that lacks its leading
/// decimal digit (possibly inside a `DUP` wrapper), if any.
pub open spec fn spec_value_bad_hex(v: OperandView) -> Option<Seq<char>>
    decreases v,
{
    match v {
        OperandView::Immediate(_, raw) => {
            if spec_hex_shaped(raw) && raw.len() > 0 && !spec_is_digit(raw[0]) {
                Some(raw)
            } else {
                None
            }
        },
        OperandView::Dup(_, inner) => spec_value_bad_hex(*inner),
        _ => None,
    }
}

pub fn value_bad_hex(v: &Operand) -> (r: Option<Vec<char>>)
    ensures
        crate::diagnostics::spec_chars_opt(r) == spec_value_bad_hex(v@),
    decreases v,
{
    match v {
        Operand::Immediate(_, raw) => {
            let n = raw.len();
            let bad = if n >= 2 {
                let last = raw[n - 1];
                if last == 'h' || last == 'H' {
                    let hex_ok = crate::constant::all_hex(raw, 0, n - 1);
                    proof {
                        assert(raw@.subrange(0, raw@.len() - 1) =~= raw@.drop_last());
                        assert(raw@.last() == raw@[raw@.len() - 1]);
                    }
                    hex_ok && !crate::chars::is_digit(raw[0])
                } else {
                    false
                }
            } else {
                false
            };
            if bad {
                Some(crate::chars::copy_chars(raw))
            } else {
                None
            }
        },
        Operand::Dup(_, inner) => value_bad_hex(inner),
        _ => None,
    }
}

/// The diagnostics that pass two emits for the operands of a non-jump
/// instruction: each bare symbol operand that is not in the symbol
/// table is an unidentified element.
pub open spec fn spec_check_operands(
    ops: Seq<OperandView>,
    syms: Seq<SymbolRecordView>,
    line: nat,
) -> Seq<CompilerErrorView>
    decreases ops.len(),
{
    if ops.len() == 0 {
        Seq::empty()
    } else {
        (match ops[0] {
            OperandView::Label(name) => {
                if spec_find_sym(syms, name) is None {
                    seq![spec_semantic_err("Unidentified element"@, line)]
                } else {
                    Seq::empty()
                }
            },
            _ => Seq::empty(),
        }) + spec_check_operands(ops.skip(1), syms, line)
    }
}

/// The diagnostics that pass two emits for one line.
pub open spec fn spec_v2_errs(
    seg: CurrentSegment,
    syms: Seq<SymbolRecordView>,
    node: LineNodeView,
    line: nat,
) -> Seq<CompilerErrorView> {
    match node {
        LineNodeView::Statement(stmt) => match stmt {
            StatementView::Variable { name, directive, value } => spec_data_decl_errs(
                seg,
                directive,
                value,
                line,
            ),
            StatementView::Data { directive, value } => spec_data_decl_errs(
                seg,
                directive,
                value,
                line,
            ),
            StatementView::Constant { name, value } => {
                if spec_value_bad_hex(value) is Some {
                    seq![spec_semantic_err(spec_bad_hex_msg(spec_value_bad_hex(value)->Some_0), line)]
                } else {
                    Seq::empty()
                }
            },
            StatementView::Instruction { mnemonic, operands } => {
                if seg != CurrentSegment::Code {
                    seq![
                        spec_semantic_err(
                            "Instrucción fuera de segmento válido (Falta .CODE SEGMENT)"@,
                            line,
                        ),
                    ]
                } else if !spec_is_allowed_instruction(mnemonic) {
                    seq![spec_semantic_err("Not a valid instruction"@, line)]
                } else if spec_is_jump(mnemonic) {
                    spec_jump_errs(operands, syms, line)
                } else {
                    spec_check_operands(operands, syms, line)
                }
            },
            StatementView::Label(name) => {
                if seg == CurrentSegment::Data {
                    seq![spec_semantic_err("Code labels are not allowed in a data segment"@, line)]
                } else {
                    Seq::empty()
                }
            },
            _ => Seq::empty(),
        },
        _ => Seq::empty(),
    }
}

/// Placement and literal rules for a variable or data declaration.
pub open spec fn spec_data_decl_errs(
    seg: CurrentSegment,
    directive: Seq<char>,
    value: OperandView,
    line: nat,
) -> Seq<CompilerErrorView> {
    (if seg == CurrentSegment::Code {
        seq![spec_semantic_err("Data declaration not allowed in the code segment"@, line)]
    } else if seg == CurrentSegment::Stack && directive != "DW"@ {
        seq![spec_semantic_err("Segmento de pila: Se esperaba directiva DW"@, line)]
    } else {
        Seq::empty()
    }) + (if seg == CurrentSegment::Data && directive == "DB"@ && value is Label {
        seq![spec_semantic_err("Text value without quotes"@, line)]
    } else {
        Seq::empty()
    }) + (if spec_value_bad_hex(value) is Some {
        seq![spec_semantic_err(spec_bad_hex_msg(spec_value_bad_hex(value)->Some_0), line)]
    } else {
        Seq::empty()
    })
}

/// Rules for a jump: its target must be a label symbol defined on an
/// earlier line (forward references are rejected by design).
pub open spec fn spec_jump_errs(
    ops: Seq<OperandView>,
    syms: Seq<SymbolRecordView>,
    line: nat,
) -> Seq<CompilerErrorView> {
    if ops.len() == 0 {
        seq![spec_semantic_err("Falta la etiqueta de destino"@, line)]
    } else {
        match ops[0] {
            OperandView::Label(name) => match spec_find_sym(syms, name) {
                None => seq![spec_semantic_err(spec_undefined_label_msg(name), line)],
                Some(rec) => {
                    if rec.type_ != SymbolType::Label {
                        seq![spec_semantic_err(spec_not_jump_label_msg(name), line)]
                    } else if rec.line >= line {
                        seq![spec_semantic_err(spec_undefined_label_msg(name), line)]
                    } else {
                        Seq::empty()
                    }
                },
            },
            _ => seq![
                spec_semantic_err("El operando del salto debe ser un símbolo (etiqueta)"@, line),
            ],
        }
    }
}

/// Pass two over the first `i` lines: the segment state and the
/// diagnostics so far.
pub open spec fn spec_v2_run(prog: Seq<LineEntryView>, syms: Seq<SymbolRecordView>, i: int) -> (
    Analyzer,
    Seq<CompilerErrorView>,
)
    decreases i,
{
    if i <= 0 {
        (Analyzer { current_segment: CurrentSegment::NoSegment, location_counter: 0 }, Seq::empty())
    } else {
        let prev = spec_v2_run(prog, syms, i - 1);
        (
            spec_transition(prev.0, prog[i - 1].node),
            prev.1 + spec_v2_errs(prev.0.current_segment, syms, prog[i - 1].node, i as nat),
        )
    }
}

/// The whole validator: pass-one diagnostics then pass-two diagnostics,
/// and the symbol table (offsets still unset).
pub open spec fn spec_validate(prog: Seq<LineEntryView>) -> (
    Seq<CompilerErrorView>,
    Seq<SymbolRecordView>,
) {
    let v1 = spec_v1_run(prog, prog.len() as int);
    let v2 = spec_v2_run(prog, v1.syms, prog.len() as int);
    (v1.errs + v2.1, v1.syms)
}

fn push_semantic_err_chars(errs: &mut Vec<CompilerError>, msg: Vec<char>, line: usize)
    ensures
        spec_errs_view(final(errs)@) == spec_errs_view(old(errs)@).push(
            spec_semantic_err(msg@, line as nat),
        ),
{
    let e = CompilerError { stage: Stage::Semantic, message: msg, line, fatal: false };
    proof {
        assert(spec_errs_view(errs@.push(e)) =~= spec_errs_view(errs@).push(e@));
    }
    errs.push(e);
}

/// A message of the shape `prefix + name + suffix`.
fn compose_msg(prefix: &str, name: &Vec<char>, suffix: &str) -> (r: Vec<char>)
    ensures
        r@ == prefix@ + name@ + suffix@,
{
    let mut out = crate::chars::chars_of(prefix);
    crate::chars::append_chars(&mut out, name);
    crate::chars::append_str(&mut out, suffix);
    out
}

/// A message of the shape `prefix + name`.
fn prefix_msg(prefix: &str, name: &Vec<char>) -> (r: Vec<char>)
    ensures
        r@ == prefix@ + name@,
{
    let mut out = crate::chars::chars_of(prefix);
    crate::chars::append_chars(&mut out, name);
    out
}

fn push_semantic_err(errs: &mut Vec<CompilerError>, msg: &str, line: usize)
    ensures
        spec_errs_view(final(errs)@) == spec_errs_view(old(errs)@).push(
            spec_semantic_err(msg@, line as nat),
        ),
{
    let e = CompilerError {
        stage: Stage::Semantic,
        message: crate::chars::chars_of(msg),
        line,
        fatal: false,
    };
    proof {
        assert(spec_errs_view(errs@.push(e)) =~= spec_errs_view(errs@).push(e@));
    }
    errs.push(e);
}

/// Validator pass one: collect symbols, scoped by the active segment.
fn pass_one_collect(prog: &Program) -> (r: (Vec<CompilerError>, Vec<SymbolRecord>))
    ensures
        spec_errs_view(r.0@) == spec_v1_run(spec_program_view(prog@), prog@.len() as int).errs,
        spec_syms_view(r.1@) == spec_v1_run(spec_program_view(prog@), prog@.len() as int).syms,
{
    let ghost pv = spec_program_view(prog@);
    let mut an = Analyzer::new();
    let mut syms: Vec<SymbolRecord> = Vec::new();
    let mut errs: Vec<CompilerError> = Vec::new();
    let mut i: usize = 0;
    while i < prog.len()
        invariant
            i <= prog@.len(),
            pv == spec_program_view(prog@),
            pv.len() == prog@.len(),
            an == spec_v1_run(pv, i as int).an,
            spec_syms_view(syms@) == spec_v1_run(pv, i as int).syms,
            spec_errs_view(errs@) == spec_v1_run(pv, i as int).errs,
        decreases prog.len() - i,
    {
        let ghost st = spec_v1_run(pv, i as int);
        let ghost node = pv[i as int].node;
        let entry = &prog[i];
        let line = i + 1;
        proof {
            assert(pv[i as int] == prog@[i as int]@);
            assert(node == entry.node@);
            assert(spec_v1_run(pv, i + 1) == spec_v1_step(st, node, (i + 1) as nat));
        }
        match &entry.node {
            LineNode::Statement(stmt) => match stmt {
                Statement::Variable { name, directive, value } => {
                    if an.current_segment == CurrentSegment::Data {
                        if find_sym(&syms, name).is_some() {
                            push_semantic_err_chars(
                                &mut errs,
                                compose_msg("Error: Símbolo duplicado '", name, "'"),
                                line,
                            );
                        } else {
                            let rec = SymbolRecord {
                                name: crate::chars::copy_chars(name),
                                type_: SymbolType::Variable,
                                data_type: data_type_of(directive),
                                offset: None,
                                segment: crate::chars::chars_of("DATA"),
                                line,
                            };
                            proof {
                                assert(spec_syms_view(syms@.push(rec)) =~= spec_syms_view(
                                    syms@,
                                ).push(rec@));
                            }
                            syms.push(rec);
                        }
                    }
                },
                Statement::Constant { name, value } => {
                    if find_sym(&syms, name).is_some() {
                        push_semantic_err_chars(
                            &mut errs,
                            compose_msg("Error: Símbolo duplicado '", name, "'"),
                            line,
                        );
                    } else {
                        let rec = SymbolRecord {
                            name: crate::chars::copy_chars(name),
                            type_: SymbolType::Constant,
                            data_type: DataType::Untyped,
                            offset: None,
                            segment: segment_name(an.current_segment),
                            line,
                        };
                        proof {
                            assert(spec_syms_view(syms@.push(rec)) =~= spec_syms_view(syms@).push(
                                rec@,
                            ));
                        }
                        syms.push(rec);
                    }
                },
                Statement::Label(name) => {
                    if an.current_segment == CurrentSegment::Code {
                        if find_sym(&syms, name).is_some() {
                            push_semantic_err_chars(
                                &mut errs,
                                prefix_msg("Etiqueta duplicada: ", name),
                                line,
                            );
                        } else {
                            let rec = SymbolRecord {
                                name: crate::chars::copy_chars(name),
                                type_: SymbolType::Label,
                                data_type: DataType::Untyped,
                                offset: None,
                                segment: crate::chars::chars_of("CODE"),
                                line,
                            };
                            proof {
                                assert(spec_syms_view(syms@.push(rec)) =~= spec_syms_view(
                                    syms@,
                                ).push(rec@));
                            }
                            syms.push(rec);
                        }
                    }
                },
                _ => {},
            },
            _ => {},
        }
        an.transition(&entry.node);
        i += 1;
    }
    (errs, syms)
}

/// Validator pass two: replay the segment machine and check every rule.
fn pass_two_check(prog: &Program, syms: &Vec<SymbolRecord>) -> (r: Vec<CompilerError>)
    ensures
        spec_errs_view(r@) == spec_v2_run(
            spec_program_view(prog@),
            spec_syms_view(syms@),
            prog@.len() as int,
        ).1,
{
    let ghost pv = spec_program_view(prog@);
    let ghost sv = spec_syms_view(syms@);
    let mut an = Analyzer::new();
    let mut errs: Vec<CompilerError> = Vec::new();
    let mut i: usize = 0;
    while i < prog.len()
        invariant
            i <= prog@.len(),
            pv == spec_program_view(prog@),
            sv == spec_syms_view(syms@),
            pv.len() == prog@.len(),
            an == spec_v2_run(pv, sv, i as int).0,
            spec_errs_view(errs@) == spec_v2_run(pv, sv, i as int).1,
        decreases prog.len() - i,
    {
        let ghost node = pv[i as int].node;
        let entry = &prog[i];
        let line = i + 1;
        proof {
            assert(pv[i as int] == prog@[i as int]@);
            assert(node == entry.node@);
            assert(spec_v2_run(pv, sv, i + 1).0 == spec_transition(
                spec_v2_run(pv, sv, i as int).0,
                node,
            ));
            assert(spec_v2_run(pv, sv, i + 1).1 == spec_v2_run(pv, sv, i as int).1 + spec_v2_errs(
                spec_v2_run(pv, sv, i as int).0.current_segment,
                sv,
                node,
                (i + 1) as nat,
            ));
        }
        let seg = an.current_segment;
        match &entry.node {
            LineNode::Statement(stmt) => match stmt {
                Statement::Variable { name, directive, value } => {
                    check_data_decl(&mut errs, seg, directive, value, line);
                },
                Statement::Data { directive, value } => {
                    check_data_decl(&mut errs, seg, directive, value, line);
                },
                Statement::Constant { name, value } => {
                    if let Some(raw) = value_bad_hex(value) {
                        push_semantic_err_chars(
                            &mut errs,
                            compose_msg("Constante Hex inválida '", &raw, "' (falta 0 inicial)"),
                            line,
                        );
                    }
                    proof {
                        assert(spec_errs_view(errs@) =~= spec_v2_run(pv, sv, i as int).1
                            + spec_v2_errs(seg, sv, node, (i + 1) as nat));
                    }
                },
                Statement::Instruction { mnemonic, operands } => {
                    if !matches!(seg, CurrentSegment::Code) {
                        push_semantic_err(
                            &mut errs,
                            "Instrucción fuera de segmento válido (Falta .CODE SEGMENT)",
                            line,
                        );
                    } else if !is_allowed_instruction(mnemonic) {
                        push_semantic_err(&mut errs, "Not a valid instruction", line);
                    } else if is_jump(mnemonic) {
                        check_jump(&mut errs, operands, syms, line);
                    } else {
                        proof {
                            assert(operands@.map_values(|op: Operand| op@).skip(0)
                                =~= operands@.map_values(|op: Operand| op@));
                        }
                        check_operands(&mut errs, operands, 0, syms, line);
                    }
                    proof {
                        assert(spec_errs_view(errs@) =~= spec_v2_run(pv, sv, i as int).1
                            + spec_v2_errs(seg, sv, node, (i + 1) as nat));
                    }
                },
                Statement::Label(name) => {
                    if matches!(seg, CurrentSegment::Data) {
                        push_semantic_err(
                            &mut errs,
                            "Code labels are not allowed in a data segment",
                            line,
                        );
                    }
                    proof {
                        assert(spec_errs_view(errs@) =~= spec_v2_run(pv, sv, i as int).1
                            + spec_v2_errs(seg, sv, node, (i + 1) as nat));
                    }
                },
                _ => {
                    proof {
                        assert(spec_errs_view(errs@) =~= spec_v2_run(pv, sv, i as int).1
                            + spec_v2_errs(seg, sv, node, (i + 1) as nat));
                    }
                },
            },
            _ => {
                proof {
                    assert(spec_errs_view(errs@) =~= spec_v2_run(pv, sv, i as int).1 + spec_v2_errs(
                        seg,
                        sv,
                        node,
                        (i + 1) as nat,
                    ));
                }
            },
        }
        an.transition(&entry.node);
        i += 1;
    }
    errs
}

fn check_data_decl(
    errs: &mut Vec<CompilerError>,
    seg: CurrentSegment,
    directive: &Vec<char>,
    value: &Operand,
    line: usize,
)
    ensures
        spec_errs_view(final(errs)@) == spec_errs_view(old(errs)@) + spec_data_decl_errs(
            seg,
            directive@,
            value@,
            line as nat,
        ),
{
    let ghost base = spec_errs_view(errs@);
    if matches!(seg, CurrentSegment::Code) {
        push_semantic_err(errs, "Data declaration not allowed in the code segment", line);
    } else if matches!(seg, CurrentSegment::Stack) && !crate::chars::chars_eq_str(directive, "DW") {
        push_semantic_err(errs, "Segmento de pila: Se esperaba directiva DW", line);
    }
    if matches!(seg, CurrentSegment::Data) && crate::chars::chars_eq_str(directive, "DB")
        && matches!(value, Operand::Label(_)) {
        push_semantic_err(errs, "Text value without quotes", line);
    }
    if let Some(raw) = value_bad_hex(value) {
        push_semantic_err_chars(
            errs,
            compose_msg("Constante Hex inválida '", &raw, "' (falta 0 inicial)"),
            line,
        );
    }
    proof {
        assert(spec_errs_view(errs@) =~= base + spec_data_decl_errs(
            seg,
            directive@,
            value@,
            line as nat,
        ));
    }
}

fn check_jump(
    errs: &mut Vec<CompilerError>,
    ops: &Vec<Operand>,
    syms: &Vec<SymbolRecord>,
    line: usize,
)
    ensures
        spec_errs_view(final(errs)@) == spec_errs_view(old(errs)@) + spec_jump_errs(
            ops@.map_values(|op: Operand| op@),
            spec_syms_view(syms@),
            line as nat,
        ),
{
    let ghost base = spec_errs_view(errs@);
    let ghost opsv = ops@.map_values(|op: Operand| op@);
    if ops.len() == 0 {
        push_semantic_err(errs, "Falta la etiqueta de destino", line);
    } else {
        proof {
            assert(opsv[0] == ops@[0]@);
        }
        match &ops[0] {
            Operand::Label(name) => match find_sym(syms, name) {
                None => push_semantic_err_chars(
                    errs,
                    compose_msg(
                        "Etiqueta no definida (o definida posteriormente): '",
                        name,
                        "'",
                    ),
                    line,
                ),
                Some(ix) => {
                    let rec = &syms[ix];
                    if !matches!(rec.type_, SymbolType::Label) {
                        push_semantic_err_chars(
                            errs,
                            compose_msg("'", name, "' no es una etiqueta válida para salto"),
                            line,
                        );
                    } else if rec.line >= line {
                        push_semantic_err_chars(
                            errs,
                            compose_msg(
                                "Etiqueta no definida (o definida posteriormente): '",
                                name,
                                "'",
                            ),
                            line,
                        );
                    }
                },
            },
            _ => push_semantic_err(
                errs,
                "El operando del salto debe ser un símbolo (etiqueta)",
                line,
            ),
        }
    }
    proof {
        assert(spec_errs_view(errs@) =~= base + spec_jump_errs(
            opsv,
            spec_syms_view(syms@),
            line as nat,
        ));
    }
}

fn check_operands(
    errs: &mut Vec<CompilerError>,
    ops: &Vec<Operand>,
    from: usize,
    syms: &Vec<SymbolRecord>,
    line: usize,
)
    requires
        from <= ops@.len(),
    ensures
        spec_errs_view(final(errs)@) == spec_errs_view(old(errs)@) + spec_check_operands(
            ops@.map_values(|op: Operand| op@).skip(from as int),
            spec_syms_view(syms@),
            line as nat,
        ),
    decreases ops@.len() - from,
{
    let ghost opsv = ops@.map_values(|op: Operand| op@).skip(from as int);
    let ghost base = spec_errs_view(errs@);
    if from == ops.len() {
        proof {
            assert(spec_errs_view(errs@) =~= base + spec_check_operands(
                opsv,
                spec_syms_view(syms@),
                line as nat,
            ));
        }
        return;
    }
    proof {
        assert(opsv[0] == ops@[from as int]@);
    }
    match &ops[from] {
        Operand::Label(name) => {
            if find_sym(syms, name).is_none() {
                push_semantic_err(errs, "Unidentified element", line);
            }
        },
        _ => {},
    }
    proof {
        assert(ops@.map_values(|op: Operand| op@).skip(from + 1) =~= opsv.skip(1));
    }
    check_operands(errs, ops, from + 1, syms, line);
    proof {
        assert(spec_errs_view(errs@) =~= base + spec_check_operands(
            opsv,
            spec_syms_view(syms@),
            line as nat,
        ));
    }
}

/// Validate a parsed program: the ordered semantic diagnostics (pass one
/// first, then pass two) and the symbol table, offsets still unset.
pub fn validate(prog: &Program) -> (r: (Vec<CompilerError>, Vec<SymbolRecord>))
    ensures
        spec_errs_view(r.0@) == spec_validate(spec_program_view(prog@)).0,
        spec_syms_view(r.1@) == spec_validate(spec_program_view(prog@)).1,
{
    let (mut errs, syms) = pass_one_collect(prog);
    let mut errs2 = pass_two_check(prog, &syms);
    let ghost e1 = spec_errs_view(errs@);
    let ghost e2 = spec_errs_view(errs2@);
    let mut k: usize = 0;
    while k < errs2.len()
        invariant
            k <= errs2@.len(),
            e2 == spec_errs_view(errs2@),
            spec_errs_view(errs@) == e1 + e2.take(k as int),
        decreases errs2.len() - k,
    {
        let e = CompilerError {
            stage: errs2[k].stage,
            message: crate::chars::copy_chars(&errs2[k].message),
            line: errs2[k].line,
            fatal: errs2[k].fatal,
        };
        proof {
            assert(e@ == e2[k as int]);
            assert(spec_errs_view(errs@.push(e)) =~= spec_errs_view(errs@).push(e@));
            assert(e1 + e2.take(k + 1) =~= (e1 + e2.take(k as int)).push(e2[k as int]));
        }
        errs.push(e);
        k += 1;
    }
    proof {
        assert(e2.take(errs2@.len() as int) =~= e2);
    }
    (errs, syms)
}

} // verus!
