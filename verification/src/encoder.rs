//! The two-pass encoder.
//!
//! Pass one walks the program with a location counter, records the
//! address at which every line begins, and fills in symbol offsets;
//! pass two emits real 8086 machine-code bytes for the supported
//! instruction subset and data bytes for declarations. Encoding is
//! best-effort: an unsupported combination encodes to nothing, which is
//! distinct from a validation error.

use vstd::prelude::*;
use vstd::pervasive::VecAdditionalExecFns;
use crate::ast::{LineEntryView, LineNode, LineNodeView, Operand, OperandView, Program,
    Statement, StatementView, spec_program_view};
use crate::chars::spec_upper;
use crate::validator::{Analyzer, CurrentSegment, SymbolRecord, SymbolRecordView, spec_find_sym,
    spec_syms_view, spec_transition, find_sym};

verus! {

/// The fixed base address at which pass one starts counting.
pub open spec fn spec_base_address() -> u64 {
    0x0250
}

/// Saturating 64-bit addition.
pub open spec fn spec_sat_add(a: u64, b: u64) -> u64 {
    if a + b > u64::MAX {
        u64::MAX
    } else {
        (a + b) as u64
    }
}

pub fn sat_add(a: u64, b: u64) -> (r: u64)
    ensures
        r == spec_sat_add(a, b),
{
    if a > u64::MAX - b {
        u64::MAX
    } else {
        a + b
    }
}

/// Saturating 64-bit multiplication.
pub open spec fn spec_sat_mul(a: u64, b: u64) -> u64 {
    if a * b > u64::MAX {
        u64::MAX
    } else {
        (a * b) as u64
    }
}

pub fn sat_mul(a: u64, b: u64) -> (r: u64)
    ensures
        r == spec_sat_mul(a, b),
{
    if a == 0 {
        return 0;
    }
    let q = u64::MAX / a;
    if b > q {
        proof {
            vstd::arithmetic::div_mod::lemma_fundamental_div_mod(u64::MAX as int, a as int);
            assert(a as int * b as int > u64::MAX as int) by (nonlinear_arith)
                requires
                    u64::MAX as int == (a as int) * (q as int) + ((u64::MAX as int) % (a as int)),
                    (u64::MAX as int) % (a as int) >= 0,
                    (u64::MAX as int) % (a as int) < (a as int),
                    b as int >= q as int + 1,
                    a >= 1,
            ;
        }
        u64::MAX
    } else {
        proof {
            vstd::arithmetic::div_mod::lemma_fundamental_div_mod(u64::MAX as int, a as int);
            assert(a as int * b as int <= u64::MAX as int) by (nonlinear_arith)
                requires
                    u64::MAX as int == (a as int) * (q as int) + ((u64::MAX as int) % (a as int)),
                    (u64::MAX as int) % (a as int) >= 0,
                    0 <= b as int <= q as int,
                    a >= 1,
            ;
        }
        a * b
    }
}

/// A natural number clipped to 64 bits.
pub open spec fn spec_sat64(n: nat) -> u64 {
    if n > u64::MAX {
        u64::MAX
    } else {
        n as u64
    }
}

/// Number of UTF-8 bytes that encode the character.
pub open spec fn spec_utf8_char_len(c: char) -> nat {
    if (c as u32) < 0x80 {
        1
    } else if (c as u32) < 0x800 {
        2
    } else if (c as u32) < 0x10000 {
        3
    } else {
        4
    }
}

/// Number of UTF-8 bytes that encode the text.
pub open spec fn spec_utf8_len(s: Seq<char>) -> nat
    decreases s.len(),
{
    if s.len() == 0 {
        0
    } else {
        spec_utf8_len(s.drop_last()) + spec_utf8_char_len(s.last())
    }
}

/// UTF-8 byte length of a text, saturated to 64 bits.
pub fn utf8_len(s: &Vec<char>) -> (r: u64)
    ensures
        r == spec_sat64(spec_utf8_len(s@)),
{
    let mut acc: u64 = 0;
    let mut i: usize = 0;
    while i < s.len()
        invariant
            i <= s@.len(),
            acc == spec_sat64(spec_utf8_len(s@.take(i as int))),
        decreases s.len() - i,
    {
        let c = s[i];
        let u = c as u32;
        let l: u64 = if u < 0x80 {
            1
        } else if u < 0x800 {
            2
        } else if u < 0x10000 {
            3
        } else {
            4
        };
        proof {
            assert(s@.take(i + 1).drop_last() =~= s@.take(i as int));
            assert(s@.take(i + 1).last() == s@[i as int]);
        }
        acc = sat_add(acc, l);
        i += 1;
    }
    proof {
        assert(s@.take(s@.len() as int) =~= s@);
    }
    acc
}

/// The UTF-8 bytes of one character.
pub open spec fn spec_utf8_char_bytes(c: char) -> Seq<u8> {
    let u = c as u32;
    if u < 0x80 {
        seq![u as u8]
    } else if u < 0x800 {
        seq![(0xC0 + u / 64) as u8, (0x80 + u % 64) as u8]
    } else if u < 0x10000 {
        seq![(0xE0 + u / 4096) as u8, (0x80 + (u / 64) % 64) as u8, (0x80 + u % 64) as u8]
    } else {
        seq![
            (0xF0 + u / 262144) as u8,
            (0x80 + (u / 4096) % 64) as u8,
            (0x80 + (u / 64) % 64) as u8,
            (0x80 + u % 64) as u8,
        ]
    }
}

/// The UTF-8 bytes of a text.
pub open spec fn spec_utf8_bytes(s: Seq<char>) -> Seq<u8>
    decreases s.len(),
{
    if s.len() == 0 {
        Seq::empty()
    } else {
        spec_utf8_bytes(s.drop_last()) + spec_utf8_char_bytes(s.last())
    }
}

/// The UTF-8 bytes of a text held as characters.
pub fn utf8_bytes(s: &Vec<char>) -> (r: Vec<u8>)
    ensures
        r@ == spec_utf8_bytes(s@),
{
    let mut out: Vec<u8> = Vec::new();
    let mut i: usize = 0;
    while i < s.len()
        invariant
            i <= s@.len(),
            out@ == spec_utf8_bytes(s@.take(i as int)),
        decreases s.len() - i,
    {
        let c = s[i];
        let u = c as u32;
        proof {
            assert(s@.take(i + 1).drop_last() =~= s@.take(i as int));
            assert(s@.take(i + 1).last() == s@[i as int]);
        }
        if u < 0x80 {
            out.push(u as u8);
        } else if u < 0x800 {
            out.push((0xC0 + u / 64) as u8);
            out.push((0x80 + u % 64) as u8);
        } else if u < 0x10000 {
            out.push((0xE0 + u / 4096) as u8);
            out.push((0x80 + (u / 64) % 64) as u8);
            out.push((0x80 + u % 64) as u8);
        } else {
            out.push((0xF0 + u / 262144) as u8);
            out.push((0x80 + (u / 4096) % 64) as u8);
            out.push((0x80 + (u / 64) % 64) as u8);
            out.push((0x80 + u % 64) as u8);
        }
        proof {
            assert(out@ =~= spec_utf8_bytes(s@.take(i + 1)));
        }
        i += 1;
    }
    proof {
        assert(s@.take(s@.len() as int) =~= s@);
    }
    out
}

/// Element size of a declaration: one byte for `DB` (or the byte length
/// of a string initializer), two for `DW`, four for `DD`. The directive
/// is compared case-insensitively.
pub open spec fn spec_elem_size(directive: Seq<char>, value: OperandView) -> u64 {
    if spec_upper(directive) == "DB"@ {
        match value {
            OperandView::StringLiteral(s) => spec_sat64(spec_utf8_len(s)),
            OperandView::Dup(_, inner) => match *inner {
                OperandView::StringLiteral(s) => spec_sat64(spec_utf8_len(s)),
                _ => 1,
            },
            _ => 1,
        }
    } else if spec_upper(directive) == "DW"@ {
        2
    } else if spec_upper(directive) == "DD"@ {
        4
    } else {
        0
    }
}

/// Repetition count of a declaration value: the count of a `DUP`
/// wrapper, or one.
pub open spec fn spec_multiplier(value: OperandView) -> u64 {
    match value {
        OperandView::Dup(n, _) => n,
        _ => 1,
    }
}

/// Storage size of a declaration: element size times multiplier.
pub open spec fn spec_var_size(directive: Seq<char>, value: OperandView) -> u64 {
    spec_sat_mul(spec_elem_size(directive, value), spec_multiplier(value))
}

/// Storage size of a declaration, in bytes.
pub fn get_variable_size(directive: &Vec<char>, value: &Operand) -> (r: u64)
    ensures
        r == spec_var_size(directive@, value@),
{
    let up = crate::chars::upper_chars(directive);
    let elem: u64 = if crate::chars::chars_eq_str(&up, "DB") {
        match value {
            Operand::StringLiteral(s) => utf8_len(s),
            Operand::Dup(_, inner) => {
                proof {
                    assert(value@->Dup_1 == Box::new((**inner)@));
                }
                match &**inner {
                    Operand::StringLiteral(s) => utf8_len(s),
                    _ => 1,
                }
            },
            _ => 1,
        }
    } else if crate::chars::chars_eq_str(&up, "DW") {
        2
    } else if crate::chars::chars_eq_str(&up, "DD") {
        4
    } else {
        0
    };
    let mult: u64 = match value {
        Operand::Dup(n, _) => *n,
        _ => 1,
    };
    sat_mul(elem, mult)
}

/// Extra bytes an operand list contributes to a size estimate: one or
/// two for an immediate depending on magnitude, two for a memory
/// operand.
pub open spec fn spec_extra_bytes(ops: Seq<OperandView>) -> u64
    decreases ops.len(),
{
    if ops.len() == 0 {
        0
    } else {
        spec_sat_add(
            spec_extra_bytes(ops.drop_last()),
            match ops.last() {
                OperandView::Immediate(v, _) => if v > 255 {
                    2
                } else {
                    1
                },
                OperandView::Memory { .. } => 2,
                _ => 0,
            },
        )
    }
}

/// Estimated encoded size of an instruction, used only to keep later
/// label addresses consistent; pass two is the authority on real bytes.
/// The mnemonic is compared case-insensitively.
pub open spec fn spec_estimate_size(m: Seq<char>, ops: Seq<OperandView>) -> u64 {
    let up = spec_upper(m);
    if up == "INT"@ {
        2
    } else {
        let base: u64 = if up == "RET"@ || up == "NOP"@ {
            1
        } else {
            2
        };
        let extra = spec_extra_bytes(ops);
        if up == "MOV"@ {
            spec_sat_add(
                2,
                if extra > 2 {
                    2
                } else {
                    extra
                },
            )
        } else {
            spec_sat_add(base, extra)
        }
    }
}

/// Estimated encoded size of an instruction, in bytes.
pub fn estimate_instruction_size(mnemonic: &Vec<char>, operands: &Vec<Operand>) -> (r: u64)
    ensures
        r == spec_estimate_size(mnemonic@, operands@.map_values(|op: Operand| op@)),
{
    let ghost opsv = operands@.map_values(|op: Operand| op@);
    let up = crate::chars::upper_chars(mnemonic);
    if crate::chars::chars_eq_str(&up, "INT") {
        return 2;
    }
    let base: u64 = if crate::chars::chars_eq_str(&up, "RET") || crate::chars::chars_eq_str(
        &up,
        "NOP",
    ) {
        1
    } else {
        2
    };
    let mut extra: u64 = 0;
    let mut i: usize = 0;
    while i < operands.len()
        invariant
            i <= operands@.len(),
            opsv == operands@.map_values(|op: Operand| op@),
            extra == spec_extra_bytes(opsv.take(i as int)),
        decreases operands.len() - i,
    {
        proof {
            assert(opsv.take(i + 1).drop_last() =~= opsv.take(i as int));
            assert(opsv.take(i + 1).last() == opsv[i as int]);
            assert(opsv[i as int] == operands@[i as int]@);
        }
        let add: u64 = match &operands[i] {
            Operand::Immediate(v, _) => if *v > 255 {
                2
            } else {
                1
            },
            Operand::Memory { .. } => 2,
            _ => 0,
        };
        extra = sat_add(extra, add);
        i += 1;
    }
    proof {
        assert(opsv.take(opsv.len() as int) =~= opsv);
    }
    if crate::chars::chars_eq_str(&up, "MOV") {
        sat_add(
            2,
            if extra > 2 {
                2
            } else {
                extra
            },
        )
    } else {
        sat_add(base, extra)
    }
}

/// The standard 8086 3-bit register code (AL/AX = 0 ... BH/DI = 7);
/// an unknown name maps to 0.
pub open spec fn spec_reg_code(r: Seq<char>) -> u8 {
    let u = spec_upper(r);
    if u == "AL"@ || u == "AX"@ {
        0
    } else if u == "CL"@ || u == "CX"@ {
        1
    } else if u == "DL"@ || u == "DX"@ {
        2
    } else if u == "BL"@ || u == "BX"@ {
        3
    } else if u == "AH"@ || u == "SP"@ {
        4
    } else if u == "CH"@ || u == "BP"@ {
        5
    } else if u == "DH"@ || u == "SI"@ {
        6
    } else if u == "BH"@ || u == "DI"@ {
        7
    } else {
        0
    }
}

/// Register code on a character vector.
pub fn reg_code_chars(r: &Vec<char>) -> (c: u8)
    ensures
        c == spec_reg_code(r@),
{
    let u = crate::chars::upper_chars(r);
    if crate::chars::chars_eq_str(&u, "AL") || crate::chars::chars_eq_str(&u, "AX") {
        0
    } else if crate::chars::chars_eq_str(&u, "CL") || crate::chars::chars_eq_str(&u, "CX") {
        1
    } else if crate::chars::chars_eq_str(&u, "DL") || crate::chars::chars_eq_str(&u, "DX") {
        2
    } else if crate::chars::chars_eq_str(&u, "BL") || crate::chars::chars_eq_str(&u, "BX") {
        3
    } else if crate::chars::chars_eq_str(&u, "AH") || crate::chars::chars_eq_str(&u, "SP") {
        4
    } else if crate::chars::chars_eq_str(&u, "CH") || crate::chars::chars_eq_str(&u, "BP") {
        5
    } else if crate::chars::chars_eq_str(&u, "DH") || crate::chars::chars_eq_str(&u, "SI") {
        6
    } else if crate::chars::chars_eq_str(&u, "BH") || crate::chars::chars_eq_str(&u, "DI") {
        7
    } else {
        0
    }
}

/// The standard 8086 3-bit register code of a register name.
pub fn reg_code(reg: &str) -> (c: u8)
    ensures
        c == spec_reg_code(reg@),
{
    let v = crate::chars::chars_of(reg);
    reg_code_chars(&v)
}

/// Is the name one of the 16-bit general registers?
pub open spec fn spec_is_16bit_reg(r: Seq<char>) -> bool {
    let u = spec_upper(r);
    u == "AX"@ || u == "CX"@ || u == "DX"@ || u == "BX"@ || u == "SP"@ || u == "BP"@ || u == "SI"@
        || u == "DI"@
}

/// 16-bit register test on a character vector.
pub fn is_16bit_reg_chars(r: &Vec<char>) -> (b: bool)
    ensures
        b == spec_is_16bit_reg(r@),
{
    let u = crate::chars::upper_chars(r);
    crate::chars::chars_eq_str(&u, "AX") || crate::chars::chars_eq_str(&u, "CX")
        || crate::chars::chars_eq_str(&u, "DX") || crate::chars::chars_eq_str(&u, "BX")
        || crate::chars::chars_eq_str(&u, "SP") || crate::chars::chars_eq_str(&u, "BP")
        || crate::chars::chars_eq_str(&u, "SI") || crate::chars::chars_eq_str(&u, "DI")
}

/// Is the name one of the 16-bit general registers?
pub fn is_16bit_reg(reg: &str) -> (b: bool)
    ensures
        b == spec_is_16bit_reg(reg@),
{
    let v = crate::chars::chars_of(reg);
    is_16bit_reg_chars(&v)
}

/// The machine-code bytes of an instruction in the supported subset
/// (MOV, ADD, SUB, INC, DEC, INT, NOP, RET), the mnemonic compared
/// case-insensitively; empty for anything else.
pub open spec fn spec_encode_instruction(m: Seq<char>, ops: Seq<OperandView>) -> Seq<u8> {
    let up = spec_upper(m);
    if up == "MOV"@ {
        if ops.len() == 2 {
            match (ops[0], ops[1]) {
                (OperandView::Register(d), OperandView::Register(s)) => seq![
                    0x89u8,
                    (0xC0 + spec_reg_code(s) * 8 + spec_reg_code(d)) as u8,
                ],
                (OperandView::Register(d), OperandView::Immediate(v, _)) => {
                    if spec_is_16bit_reg(d) {
                        seq![
                            (0xB8 + spec_reg_code(d)) as u8,
                            (v % 256) as u8,
                            ((v / 256) % 256) as u8,
                        ]
                    } else {
                        seq![(0xB0 + spec_reg_code(d)) as u8, (v % 256) as u8]
                    }
                },
                _ => Seq::empty(),
            }
        } else {
            Seq::empty()
        }
    } else if up == "INT"@ {
        if ops.len() >= 1 && ops[0] is Immediate {
            seq![0xCDu8, (ops[0]->Immediate_0 % 256) as u8]
        } else {
            Seq::empty()
        }
    } else if up == "NOP"@ {
        seq![0x90u8]
    } else if up == "RET"@ {
        seq![0xC3u8]
    } else if up == "ADD"@ {
        if ops.len() == 2 {
            match (ops[0], ops[1]) {
                (OperandView::Register(d), OperandView::Register(s)) => seq![
                    0x01u8,
                    (0xC0 + spec_reg_code(s) * 8 + spec_reg_code(d)) as u8,
                ],
                _ => Seq::empty(),
            }
        } else {
            Seq::empty()
        }
    } else if up == "SUB"@ {
        if ops.len() == 2 {
            match (ops[0], ops[1]) {
                (OperandView::Register(d), OperandView::Register(s)) => seq![
                    0x29u8,
                    (0xC0 + spec_reg_code(s) * 8 + spec_reg_code(d)) as u8,
                ],
                _ => Seq::empty(),
            }
        } else {
            Seq::empty()
        }
    } else if up == "INC"@ {
        if ops.len() >= 1 && ops[0] is Register {
            let r = ops[0]->Register_0;
            if spec_is_16bit_reg(r) {
                seq![(0x40 + spec_reg_code(r)) as u8]
            } else {
                seq![0xFEu8, (0xC0 + spec_reg_code(r)) as u8]
            }
        } else {
            Seq::empty()
        }
    } else if up == "DEC"@ {
        if ops.len() >= 1 && ops[0] is Register {
            let r = ops[0]->Register_0;
            if spec_is_16bit_reg(r) {
                seq![(0x48 + spec_reg_code(r)) as u8]
            } else {
                seq![0xFEu8, (0xC8 + spec_reg_code(r)) as u8]
            }
        } else {
            Seq::empty()
        }
    } else {
        Seq::empty()
    }
}

/// Encode one instruction into machine-code bytes; empty for an
/// unsupported combination.
pub fn encode_instruction(mnemonic: &Vec<char>, operands: &Vec<Operand>) -> (r: Vec<u8>)
    ensures
        r@ == spec_encode_instruction(mnemonic@, operands@.map_values(|op: Operand| op@)),
{
    let ghost opsv = operands@.map_values(|op: Operand| op@);
    proof {
        if operands@.len() >= 1 {
            assert(opsv[0] == operands@[0]@);
        }
        if operands@.len() >= 2 {
            assert(opsv[1] == operands@[1]@);
        }
    }
    let up = crate::chars::upper_chars(mnemonic);
    let mut out: Vec<u8> = Vec::new();
    if crate::chars::chars_eq_str(&up, "MOV") {
        if operands.len() == 2 {
            match (&operands[0], &operands[1]) {
                (Operand::Register(d), Operand::Register(s)) => {
                    out.push(0x89);
                    out.push(0xC0 + reg_code_chars(s) * 8 + reg_code_chars(d));
                },
                (Operand::Register(d), Operand::Immediate(v, _)) => {
                    if is_16bit_reg_chars(d) {
                        out.push(0xB8 + reg_code_chars(d));
                        out.push((*v % 256) as u8);
                        out.push(((*v / 256) % 256) as u8);
                    } else {
                        out.push(0xB0 + reg_code_chars(d));
                        out.push((*v % 256) as u8);
                    }
                },
                _ => {},
            }
        }
    } else if crate::chars::chars_eq_str(&up, "INT") {
        if operands.len() >= 1 {
            if let Operand::Immediate(v, _) = &operands[0] {
                out.push(0xCD);
                out.push((*v % 256) as u8);
            }
        }
    } else if crate::chars::chars_eq_str(&up, "NOP") {
        out.push(0x90);
    } else if crate::chars::chars_eq_str(&up, "RET") {
        out.push(0xC3);
    } else if crate::chars::chars_eq_str(&up, "ADD") {
        if operands.len() == 2 {
            match (&operands[0], &operands[1]) {
                (Operand::Register(d), Operand::Register(s)) => {
                    out.push(0x01);
                    out.push(0xC0 + reg_code_chars(s) * 8 + reg_code_chars(d));
                },
                _ => {},
            }
        }
    } else if crate::chars::chars_eq_str(&up, "SUB") {
        if operands.len() == 2 {
            match (&operands[0], &operands[1]) {
                (Operand::Register(d), Operand::Register(s)) => {
                    out.push(0x29);
                    out.push(0xC0 + reg_code_chars(s) * 8 + reg_code_chars(d));
                },
                _ => {},
            }
        }
    } else if crate::chars::chars_eq_str(&up, "INC") {
        if operands.len() >= 1 {
            if let Operand::Register(r) = &operands[0] {
                if is_16bit_reg_chars(r) {
                    out.push(0x40 + reg_code_chars(r));
                } else {
                    out.push(0xFE);
                    out.push(0xC0 + reg_code_chars(r));
                }
            }
        }
    } else if crate::chars::chars_eq_str(&up, "DEC") {
        if operands.len() >= 1 {
            if let Operand::Register(r) = &operands[0] {
                if is_16bit_reg_chars(r) {
                    out.push(0x48 + reg_code_chars(r));
                } else {
                    out.push(0xFE);
                    out.push(0xC8 + reg_code_chars(r));
                }
            }
        }
    }
    proof {
        assert(out@ =~= spec_encode_instruction(mnemonic@, opsv));
    }
    out
}

/// The two little-endian bytes of a 16-bit word value.
pub open spec fn spec_word_bytes(v: u64) -> Seq<u8> {
    seq![(v % 256) as u8, ((v / 256) % 256) as u8]
}

/// The data bytes of a declaration initializer: little-endian bytes for
/// an immediate (two for `DW`, compared case-insensitively, one
/// otherwise), the UTF-8 bytes of a string; anything else (such as a
/// `DUP` reservation) encodes to no bytes at all.
pub open spec fn spec_encode_data(directive: Seq<char>, value: OperandView) -> Seq<u8> {
    match value {
        OperandView::Immediate(v, _) => {
            if spec_upper(directive) == "DW"@ {
                spec_word_bytes(v)
            } else {
                seq![(v % 256) as u8]
            }
        },
        OperandView::StringLiteral(s) => spec_utf8_bytes(s),
        _ => Seq::empty(),
    }
}

/// Encode a declaration initializer into data bytes (possibly none).
pub fn encode_data(directive: &Vec<char>, value: &Operand) -> (r: Vec<u8>)
    ensures
        r@ == spec_encode_data(directive@, value@),
{
    match value {
        Operand::Immediate(v, _) => {
            let up = crate::chars::upper_chars(directive);
            let mut out: Vec<u8> = Vec::new();
            if crate::chars::chars_eq_str(&up, "DW") {
                out.push((*v % 256) as u8);
                out.push(((*v / 256) % 256) as u8);
                proof {
                    assert(out@ =~= spec_word_bytes(*v));
                }
            } else {
                out.push((*v % 256) as u8);
                proof {
                    assert(out@ =~= seq![(*v % 256) as u8]);
                }
            }
            out
        },
        Operand::StringLiteral(s) => utf8_bytes(s),
        _ => {
            let out: Vec<u8> = Vec::new();
            proof {
                assert(out@ =~= Seq::<u8>::empty());
            }
            out
        },
    }
}

/// Decoding the two little-endian bytes of an encoded `DW` initializer
/// reproduces the value: for any `v` up to 65535 and any raw spelling,
/// encoding emits exactly two bytes, and the first byte plus 256 times
/// the second byte equals `v`.
pub proof fn lemma_dw_roundtrip(v: u64, raw: Seq<char>)
    requires
        v <= 65535,
    ensures
        spec_encode_data("DW"@, OperandView::Immediate(v, raw)) == spec_word_bytes(v),
        spec_word_bytes(v).len() == 2,
        (spec_word_bytes(v)[0] as u64) + 256 * (spec_word_bytes(v)[1] as u64) == v,
{
    reveal_strlit("DW");
    assert(spec_upper("DW"@) =~= "DW"@) by {
        assert(spec_upper("DW"@)[0] == crate::chars::spec_upper_char('D'));
        assert(spec_upper("DW"@)[1] == crate::chars::spec_upper_char('W'));
    }
    assert(v / 256 <= 255);
    assert((v / 256) % 256 == v / 256);
    assert(v == 256 * (v / 256) + v % 256);
}

/// The record with the given name, its offset set; every other record
/// unchanged. Only the first record with the name is touched.
pub open spec fn spec_set_offset(
    syms: Seq<SymbolRecordView>,
    name: Seq<char>,
    off: u64,
) -> Seq<SymbolRecordView>
    decreases syms.len(),
{
    if syms.len() == 0 {
        syms
    } else if syms[0].name == name {
        seq![SymbolRecordView { offset: Some(off), ..syms[0] }] + syms.skip(1)
    } else {
        seq![syms[0]] + spec_set_offset(syms.skip(1), name, off)
    }
}

proof fn lemma_set_offset_update(syms: Seq<SymbolRecordView>, name: Seq<char>, off: u64, ix: int)
    requires
        0 <= ix < syms.len(),
        syms[ix].name == name,
        forall|k: int| 0 <= k < ix ==> syms[k].name != name,
    ensures
        spec_set_offset(syms, name, off) == syms.update(
            ix,
            SymbolRecordView { offset: Some(off), ..syms[ix] },
        ),
    decreases ix,
{
    if ix == 0 {
        assert(spec_set_offset(syms, name, off) =~= syms.update(
            0,
            SymbolRecordView { offset: Some(off), ..syms[0] },
        ));
    } else {
        assert(syms[0].name != name);
        lemma_set_offset_update(syms.skip(1), name, off, ix - 1);
        assert(spec_set_offset(syms, name, off) =~= syms.update(
            ix,
            SymbolRecordView { offset: Some(off), ..syms[ix] },
        ));
    }
}

/// State of encoder pass one.
pub struct P1State {
    pub an: Analyzer,
    pub syms: Seq<SymbolRecordView>,
    pub addrs: Seq<u64>,
}

/// Pass one, one line: the line's address is the counter before the
/// statement; a segment entry resets the counter; labels and variables
/// record their offset; declarations and instructions advance the
/// counter by their size.
pub open spec fn spec_p1_step(st: P1State, node: LineNodeView) -> P1State {
    let a = spec_transition(st.an, node);
    let addrs2 = st.addrs.push(st.an.location_counter);
    match node {
        LineNodeView::Statement(stmt) => match stmt {
            StatementView::Label(name) => P1State {
                an: a,
                syms: spec_set_offset(st.syms, name, st.an.location_counter),
                addrs: addrs2,
            },
            StatementView::Variable { name, directive, value } => P1State {
                an: Analyzer {
                    current_segment: a.current_segment,
                    location_counter: spec_sat_add(
                        a.location_counter,
                        spec_var_size(directive, value),
                    ),
                },
                syms: spec_set_offset(st.syms, name, st.an.location_counter),
                addrs: addrs2,
            },
            StatementView::Data { directive, value } => P1State {
                an: Analyzer {
                    current_segment: a.current_segment,
                    location_counter: spec_sat_add(
                        a.location_counter,
                        spec_var_size(directive, value),
                    ),
                },
                syms: st.syms,
                addrs: addrs2,
            },
            StatementView::Instruction { mnemonic, operands } => P1State {
                an: Analyzer {
                    current_segment: a.current_segment,
                    location_counter: spec_sat_add(
                        a.location_counter,
                        spec_estimate_size(mnemonic, operands),
                    ),
                },
                syms: st.syms,
                addrs: addrs2,
            },
            _ => P1State { an: a, syms: st.syms, addrs: addrs2 },
        },
        _ => P1State { an: a, syms: st.syms, addrs: addrs2 },
    }
}

/// Pass one over the first `i` lines, starting from the base address.
pub open spec fn spec_p1_run(prog: Seq<LineEntryView>, syms0: Seq<SymbolRecordView>, i: int) -> P1State
    decreases i,
{
    if i <= 0 {
        P1State {
            an: Analyzer {
                current_segment: CurrentSegment::NoSegment,
                location_counter: spec_base_address(),
            },
            syms: syms0,
            addrs: Seq::empty(),
        }
    } else {
        spec_p1_step(spec_p1_run(prog, syms0, i - 1), prog[i - 1].node)
    }
}

/// Encoder pass one: the address at which every line begins, with the
/// symbol table's offsets filled in as a side effect.
pub fn pass_one(prog: &Program, symbols: &mut Vec<SymbolRecord>) -> (addrs: Vec<u64>)
    ensures
        spec_syms_view(final(symbols)@) == spec_p1_run(
            spec_program_view(prog@),
            spec_syms_view(old(symbols)@),
            prog@.len() as int,
        ).syms,
        addrs@ == spec_p1_run(
            spec_program_view(prog@),
            spec_syms_view(old(symbols)@),
            prog@.len() as int,
        ).addrs,
        addrs@.len() == prog@.len(),
{
    let ghost pv = spec_program_view(prog@);
    let ghost syms0 = spec_syms_view(old(symbols)@);
    let mut an = Analyzer { current_segment: CurrentSegment::NoSegment, location_counter: 0x0250 };
    let mut addrs: Vec<u64> = Vec::new();
    let mut i: usize = 0;
    while i < prog.len()
        invariant
            i <= prog@.len(),
            pv == spec_program_view(prog@),
            pv.len() == prog@.len(),
            an == spec_p1_run(pv, syms0, i as int).an,
            spec_syms_view(symbols@) == spec_p1_run(pv, syms0, i as int).syms,
            addrs@ == spec_p1_run(pv, syms0, i as int).addrs,
            addrs@.len() == i,
        decreases prog.len() - i,
    {
        let ghost node = pv[i as int].node;
        let entry = &prog[i];
        proof {
            assert(pv[i as int] == prog@[i as int]@);
            assert(node == entry.node@);
            assert(spec_p1_run(pv, syms0, i + 1) == spec_p1_step(
                spec_p1_run(pv, syms0, i as int),
                node,
            ));
        }
        addrs.push(an.location_counter);
        let here = an.location_counter;
        an.transition(&entry.node);
        match &entry.node {
            LineNode::Statement(stmt) => match stmt {
                Statement::Label(name) => {
                    set_symbol_offset(symbols, name, here);
                },
                Statement::Variable { name, directive, value } => {
                    set_symbol_offset(symbols, name, here);
                    let size = get_variable_size(directive, value);
                    an.location_counter = sat_add(an.location_counter, size);
                },
                Statement::Data { directive, value } => {
                    let size = get_variable_size(directive, value);
                    an.location_counter = sat_add(an.location_counter, size);
                },
                Statement::Instruction { mnemonic, operands } => {
                    let size = estimate_instruction_size(mnemonic, operands);
                    an.location_counter = sat_add(an.location_counter, size);
                },
                _ => {},
            },
            _ => {},
        }
        i += 1;
    }
    addrs
}

/// Set the offset of the first record with the given name, if any.
fn set_symbol_offset(symbols: &mut Vec<SymbolRecord>, name: &Vec<char>, off: u64)
    ensures
        spec_syms_view(final(symbols)@) == spec_set_offset(
            spec_syms_view(old(symbols)@),
            name@,
            off,
        ),
{
    let ghost sv = spec_syms_view(symbols@);
    match find_sym(symbols, name) {
        Some(ix) => {
            proof {
                assert(sv[ix as int] == symbols@[ix as int]@);
                assert forall|k: int| 0 <= k < ix implies (#[trigger] sv[k]).name != name@ by {
                    assert(sv[k] == symbols@[k]@);
                }
            }
            let rec = SymbolRecord {
                name: crate::chars::copy_chars(&symbols[ix].name),
                type_: symbols[ix].type_,
                data_type: symbols[ix].data_type,
                offset: Some(off),
                segment: crate::chars::copy_chars(&symbols[ix].segment),
                line: symbols[ix].line,
            };
            proof {
                assert(rec@ == SymbolRecordView { offset: Some(off), ..sv[ix as int] });
            }
            symbols.set(ix, rec);
            proof {
                lemma_set_offset_update(sv, name@, off, ix as int);
                assert(spec_syms_view(symbols@) =~= spec_set_offset(sv, name@, off));
            }
        },
        None => {
            proof {
                lemma_set_offset_absent(sv, name@, off);
            }
        },
    }
}

proof fn lemma_set_offset_absent(syms: Seq<SymbolRecordView>, name: Seq<char>, off: u64)
    requires
        spec_find_sym(syms, name) is None,
    ensures
        spec_set_offset(syms, name, off) == syms,
    decreases syms.len(),
{
    if syms.len() > 0 {
        lemma_set_offset_absent(syms.skip(1), name, off);
        assert(spec_set_offset(syms, name, off) =~= syms);
    }
}

/// View of an optional byte vector, for contracts.
pub open spec fn spec_code_opt(r: Option<Vec<u8>>) -> Option<Seq<u8>> {
    match r {
        Some(v) => Some(v@),
        None => None,
    }
}

/// The machine code of one line: real opcode bytes for a supported
/// instruction (absent for an unsupported one), the data bytes of a
/// declaration (recorded even when empty), absent otherwise.
pub open spec fn spec_line_code(node: LineNodeView) -> Option<Seq<u8>> {
    match node {
        LineNodeView::Statement(stmt) => match stmt {
            StatementView::Instruction { mnemonic, operands } => {
                let bytes = spec_encode_instruction(mnemonic, operands);
                if bytes.len() > 0 {
                    Some(bytes)
                } else {
                    None
                }
            },
            StatementView::Variable { name, directive, value } => Some(
                spec_encode_data(directive, value),
            ),
            StatementView::Data { directive, value } => Some(spec_encode_data(directive, value)),
            _ => None,
        },
        _ => None,
    }
}

/// The machine code of every line.
pub open spec fn spec_pass_two(prog: Seq<LineEntryView>) -> Seq<Option<Seq<u8>>> {
    Seq::new(prog.len(), |ix: int| spec_line_code(prog[ix].node))
}

/// Encoder pass two: the machine-code bytes of each line, in order;
/// `None` where encoding is unsupported.
pub fn pass_two(prog: &Program) -> (r: Vec<Option<Vec<u8>>>)
    ensures
        r@.map_values(|o: Option<Vec<u8>>| spec_code_opt(o)) == spec_pass_two(
            spec_program_view(prog@),
        ),
{
    let ghost pv = spec_program_view(prog@);
    let mut out: Vec<Option<Vec<u8>>> = Vec::new();
    let mut i: usize = 0;
    while i < prog.len()
        invariant
            i <= prog@.len(),
            pv == spec_program_view(prog@),
            pv.len() == prog@.len(),
            out@.len() == i,
            forall|k: int|
                0 <= k < i ==> spec_code_opt(#[trigger] out@[k]) == spec_line_code(pv[k].node),
        decreases prog.len() - i,
    {
        let entry = &prog[i];
        proof {
            assert(pv[i as int] == prog@[i as int]@);
        }
        let code: Option<Vec<u8>> = match &entry.node {
            LineNode::Statement(stmt) => match stmt {
                Statement::Instruction { mnemonic, operands } => {
                    let bytes = encode_instruction(mnemonic, operands);
                    if bytes.len() > 0 {
                        Some(bytes)
                    } else {
                        None
                    }
                },
                Statement::Variable { name, directive, value } => Some(
                    encode_data(directive, value),
                ),
                Statement::Data { directive, value } => Some(encode_data(directive, value)),
                _ => None,
            },
            _ => None,
        };
        out.push(code);
        i += 1;
    }
    proof {
        assert(out@.map_values(|o: Option<Vec<u8>>| spec_code_opt(o)) =~= spec_pass_two(pv));
    }
    out
}

} // verus!
