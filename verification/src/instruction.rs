//! The instruction mnemonic table and its categories.

use vstd::prelude::*;

verus! {

/// Category of a CPU instruction mnemonic.
#[derive(Clone, Copy, PartialEq, Eq, Structural, Debug)]
pub enum InstructionType {
    DataTransfer,
    Arithmetic,
    Logic,
    ControlTransfer,
    FlagControl,
    ConditionalJump,
    Interrupt,
    StringManipulation,
    ProcessorControl,
    Unknown,
}

impl InstructionType {
    /// Short English description of the category.
    pub fn description(&self) -> (r: &'static str)
        ensures
            r@ == spec_instruction_type_description(*self),
    {
        match self {
            InstructionType::DataTransfer => "Data Transfer",
            InstructionType::Arithmetic => "Arithmetic",
            InstructionType::Logic => "Logic",
            InstructionType::ControlTransfer => "Control Transfer",
            InstructionType::FlagControl => "Flag Control",
            InstructionType::ConditionalJump => "Conditional Jump",
            InstructionType::Interrupt => "Interrupt",
            InstructionType::StringManipulation => "String Manipulation",
            InstructionType::ProcessorControl => "Processor Control",
            InstructionType::Unknown => "Instruction",
        }
    }
}

pub open spec fn spec_instruction_type_description(t: InstructionType) -> Seq<char> {
    match t {
        InstructionType::DataTransfer => "Data Transfer"@,
        InstructionType::Arithmetic => "Arithmetic"@,
        InstructionType::Logic => "Logic"@,
        InstructionType::ControlTransfer => "Control Transfer"@,
        InstructionType::FlagControl => "Flag Control"@,
        InstructionType::ConditionalJump => "Conditional Jump"@,
        InstructionType::Interrupt => "Interrupt"@,
        InstructionType::StringManipulation => "String Manipulation"@,
        InstructionType::ProcessorControl => "Processor Control"@,
        InstructionType::Unknown => "Instruction"@,
    }
}

/// Category of an upper-case mnemonic, or `None` for a word that is not
/// a recognized instruction.
pub open spec fn spec_classify_instruction(s: Seq<char>) -> Option<InstructionType> {
    if s == "MOV"@ || s == "PUSH"@ || s == "POP"@ || s == "XCHG"@ || s == "LES"@ || s == "LDS"@ {
        Some(InstructionType::DataTransfer)
    } else if s == "ADD"@ || s == "SUB"@ || s == "INC"@ || s == "DEC"@ || s == "MUL"@ || s
        == "DIV"@ || s == "IMUL"@ || s == "IDIV"@ || s == "ADC"@ || s == "CMP"@ || s == "NEG"@ || s
        == "AAA"@ || s == "AAD"@ {
        Some(InstructionType::Arithmetic)
    } else if s == "AND"@ || s == "OR"@ || s == "XOR"@ || s == "NOT"@ || s == "TEST"@ {
        Some(InstructionType::Logic)
    } else if s == "STC"@ || s == "CLC"@ || s == "CMC"@ || s == "CLD"@ || s == "STD"@ {
        Some(InstructionType::FlagControl)
    } else if s == "JE"@ || s == "JNE"@ || s == "JZ"@ || s == "JNZ"@ || s == "JG"@ || s == "JL"@
        || s == "JGE"@ || s == "JLE"@ || s == "JA"@ || s == "JB"@ || s == "JAE"@ || s == "JC"@ || s
        == "JNB"@ || s == "JNG"@ || s == "JNO"@ {
        Some(InstructionType::ConditionalJump)
    } else if s == "JMP"@ || s == "CALL"@ || s == "RET"@ || s == "LOOP"@ || s == "IRET"@ {
        Some(InstructionType::ControlTransfer)
    } else if s == "INT"@ || s == "INTO"@ {
        Some(InstructionType::Interrupt)
    } else if s == "SCASW"@ {
        Some(InstructionType::StringManipulation)
    } else if s == "HLT"@ || s == "NOP"@ {
        Some(InstructionType::ProcessorControl)
    } else {
        None
    }
}

/// Category of an upper-case mnemonic held as characters.
pub fn classify_instruction_chars(v: &Vec<char>) -> (r: Option<InstructionType>)
    ensures
        r == spec_classify_instruction(v@),
{
    if crate::chars::chars_eq_str(v, "MOV") || crate::chars::chars_eq_str(v, "PUSH")
        || crate::chars::chars_eq_str(v, "POP") || crate::chars::chars_eq_str(v, "XCHG")
        || crate::chars::chars_eq_str(v, "LES") || crate::chars::chars_eq_str(v, "LDS") {
        Some(InstructionType::DataTransfer)
    } else if crate::chars::chars_eq_str(v, "ADD") || crate::chars::chars_eq_str(v, "SUB")
        || crate::chars::chars_eq_str(v, "INC") || crate::chars::chars_eq_str(v, "DEC")
        || crate::chars::chars_eq_str(v, "MUL") || crate::chars::chars_eq_str(v, "DIV")
        || crate::chars::chars_eq_str(v, "IMUL") || crate::chars::chars_eq_str(v, "IDIV")
        || crate::chars::chars_eq_str(v, "ADC") || crate::chars::chars_eq_str(v, "CMP")
        || crate::chars::chars_eq_str(v, "NEG") || crate::chars::chars_eq_str(v, "AAA")
        || crate::chars::chars_eq_str(v, "AAD") {
        Some(InstructionType::Arithmetic)
    } else if crate::chars::chars_eq_str(v, "AND") || crate::chars::chars_eq_str(v, "OR")
        || crate::chars::chars_eq_str(v, "XOR") || crate::chars::chars_eq_str(v, "NOT")
        || crate::chars::chars_eq_str(v, "TEST") {
        Some(InstructionType::Logic)
    } else if crate::chars::chars_eq_str(v, "STC") || crate::chars::chars_eq_str(v, "CLC")
        || crate::chars::chars_eq_str(v, "CMC") || crate::chars::chars_eq_str(v, "CLD")
        || crate::chars::chars_eq_str(v, "STD") {
        Some(InstructionType::FlagControl)
    } else if crate::chars::chars_eq_str(v, "JE") || crate::chars::chars_eq_str(v, "JNE")
        || crate::chars::chars_eq_str(v, "JZ") || crate::chars::chars_eq_str(v, "JNZ")
        || crate::chars::chars_eq_str(v, "JG") || crate::chars::chars_eq_str(v, "JL")
        || crate::chars::chars_eq_str(v, "JGE") || crate::chars::chars_eq_str(v, "JLE")
        || crate::chars::chars_eq_str(v, "JA") || crate::chars::chars_eq_str(v, "JB")
        || crate::chars::chars_eq_str(v, "JAE") || crate::chars::chars_eq_str(v, "JC")
        || crate::chars::chars_eq_str(v, "JNB") || crate::chars::chars_eq_str(v, "JNG")
        || crate::chars::chars_eq_str(v, "JNO") {
        Some(InstructionType::ConditionalJump)
    } else if crate::chars::chars_eq_str(v, "JMP") || crate::chars::chars_eq_str(v, "CALL")
        || crate::chars::chars_eq_str(v, "RET") || crate::chars::chars_eq_str(v, "LOOP")
        || crate::chars::chars_eq_str(v, "IRET") {
        Some(InstructionType::ControlTransfer)
    } else if crate::chars::chars_eq_str(v, "INT") || crate::chars::chars_eq_str(v, "INTO") {
        Some(InstructionType::Interrupt)
    } else if crate::chars::chars_eq_str(v, "SCASW") {
        Some(InstructionType::StringManipulation)
    } else if crate::chars::chars_eq_str(v, "HLT") || crate::chars::chars_eq_str(v, "NOP") {
        Some(InstructionType::ProcessorControl)
    } else {
        None
    }
}

/// Category of an upper-case mnemonic, or `None` for an unassigned word.
pub fn classify_instruction(mnemonic: &str) -> (r: Option<InstructionType>)
    ensures
        r == spec_classify_instruction(mnemonic@),
{
    let v = crate::chars::chars_of(mnemonic);
    classify_instruction_chars(&v)
}

} // verus!
