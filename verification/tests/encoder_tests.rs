use glyph::ast::Operand;
use glyph::encoder::{encode_data, encode_instruction, estimate_instruction_size,
    get_variable_size, is_16bit_reg, reg_code};

fn chars(s: &str) -> Vec<char> {
    s.chars().collect()
}

fn imm(v: u64) -> Operand {
    Operand::Immediate(v, v.to_string().chars().collect())
}

fn reg(s: &str) -> Operand {
    Operand::Register(chars(s))
}

#[test]
fn reg_code_follows_the_8086_table() {
    assert_eq!(reg_code("AX"), 0);
    assert_eq!(reg_code("AL"), 0);
    assert_eq!(reg_code("CX"), 1);
    assert_eq!(reg_code("DX"), 2);
    assert_eq!(reg_code("BX"), 3);
    assert_eq!(reg_code("bl"), 3);
    assert_eq!(reg_code("SP"), 4);
    assert_eq!(reg_code("AH"), 4);
    assert_eq!(reg_code("BP"), 5);
    assert_eq!(reg_code("CH"), 5);
    assert_eq!(reg_code("SI"), 6);
    assert_eq!(reg_code("DH"), 6);
    assert_eq!(reg_code("DI"), 7);
    assert_eq!(reg_code("BH"), 7);
}

#[test]
fn sixteen_bit_register_test() {
    assert!(is_16bit_reg("AX"));
    assert!(is_16bit_reg("di"));
    assert!(!is_16bit_reg("AL"));
    assert!(!is_16bit_reg("BH"));
}

#[test]
fn encode_mov_reg_reg() {
    let bytes = encode_instruction(&chars("MOV"), &vec![reg("AX"), reg("BX")]);
    assert_eq!(bytes, vec![0x89, 0xD8]);
}

#[test]
fn encode_mov_reg16_imm() {
    let bytes = encode_instruction(&chars("MOV"), &vec![reg("AX"), imm(5)]);
    assert_eq!(bytes, vec![0xB8, 0x05, 0x00]);
}

#[test]
fn encode_mov_reg8_imm() {
    let bytes = encode_instruction(&chars("MOV"), &vec![reg("AL"), imm(5)]);
    assert_eq!(bytes, vec![0xB0, 0x05]);
}

#[test]
fn encode_add_and_sub_reg_reg() {
    assert_eq!(
        encode_instruction(&chars("ADD"), &vec![reg("AX"), reg("BX")]),
        vec![0x01, 0xD8]
    );
    assert_eq!(
        encode_instruction(&chars("SUB"), &vec![reg("AX"), reg("BX")]),
        vec![0x29, 0xD8]
    );
}

#[test]
fn encode_inc_and_dec() {
    assert_eq!(encode_instruction(&chars("INC"), &vec![reg("AX")]), vec![0x40]);
    assert_eq!(encode_instruction(&chars("DEC"), &vec![reg("AX")]), vec![0x48]);
    assert_eq!(encode_instruction(&chars("INC"), &vec![reg("AL")]), vec![0xFE, 0xC0]);
    assert_eq!(encode_instruction(&chars("DEC"), &vec![reg("BL")]), vec![0xFE, 0xCB]);
}

#[test]
fn encode_int_nop_ret() {
    assert_eq!(encode_instruction(&chars("INT"), &vec![imm(0x21)]), vec![0xCD, 0x21]);
    assert_eq!(encode_instruction(&chars("NOP"), &vec![]), vec![0x90]);
    assert_eq!(encode_instruction(&chars("RET"), &vec![]), vec![0xC3]);
}

#[test]
fn unsupported_instruction_encodes_to_nothing() {
    assert_eq!(encode_instruction(&chars("CMP"), &vec![reg("AX"), reg("BX")]), vec![]);
    assert_eq!(encode_instruction(&chars("MOV"), &vec![reg("AX")]), vec![]);
}

#[test]
fn dw_value_encodes_little_endian() {
    let bytes = encode_data(&chars("DW"), &imm(0x1234));
    assert_eq!(bytes, vec![0x34, 0x12]);
    // The directive is compared case-insensitively.
    let lower = encode_data(&chars("dw"), &imm(0x1234));
    assert_eq!(lower, vec![0x34, 0x12]);
}

#[test]
fn db_value_encodes_one_byte() {
    let bytes = encode_data(&chars("DB"), &imm(0xAB));
    assert_eq!(bytes, vec![0xAB]);
}

#[test]
fn db_string_encodes_utf8_bytes() {
    let bytes = encode_data(&chars("DB"), &Operand::StringLiteral(chars("hi")));
    assert_eq!(bytes, vec![0x68, 0x69]);
}

#[test]
fn dup_reservation_encodes_to_no_bytes() {
    let value = Operand::Dup(100, Box::new(imm(0)));
    assert_eq!(encode_data(&chars("DW"), &value), Vec::<u8>::new());
}

#[test]
fn dw_round_trip_concrete() {
    // Encoding a DW value and decoding its two little-endian bytes
    // reproduces the value.
    for v in [0u64, 1, 255, 256, 0xABCD, 65535] {
        let bytes = encode_data(&chars("DW"), &imm(v));
        assert_eq!(bytes.len(), 2);
        assert_eq!(bytes[0] as u64 + 256 * (bytes[1] as u64), v);
    }
}

#[test]
fn variable_sizes() {
    assert_eq!(get_variable_size(&chars("DB"), &imm(1)), 1);
    assert_eq!(get_variable_size(&chars("dw"), &imm(1)), 2);
    assert_eq!(get_variable_size(&chars("DW"), &imm(1)), 2);
    assert_eq!(get_variable_size(&chars("DD"), &imm(1)), 4);
    assert_eq!(
        get_variable_size(&chars("DB"), &Operand::StringLiteral(chars("hello"))),
        5
    );
    assert_eq!(
        get_variable_size(&chars("DW"), &Operand::Dup(100, Box::new(imm(0)))),
        200
    );
}

#[test]
fn instruction_size_estimates() {
    assert_eq!(estimate_instruction_size(&chars("NOP"), &vec![]), 1);
    assert_eq!(estimate_instruction_size(&chars("RET"), &vec![]), 1);
    assert_eq!(estimate_instruction_size(&chars("INT"), &vec![imm(0x21)]), 2);
    assert_eq!(estimate_instruction_size(&chars("MOV"), &vec![reg("AX"), imm(5)]), 3);
    assert_eq!(estimate_instruction_size(&chars("MOV"), &vec![reg("AX"), imm(300)]), 4);
    assert_eq!(estimate_instruction_size(&chars("MOV"), &vec![reg("AX"), reg("BX")]), 2);
    assert_eq!(estimate_instruction_size(&chars("JMP"), &vec![Operand::Label(chars("x"))]), 2);
}
