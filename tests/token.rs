use iridium::assembler::token::Token;
use iridium::opcode::Opcode;

#[test]
fn test_token_to_bytes() {
    assert_eq!(Token::Opcode(Opcode::LOAD).to_bytes(), vec![u8::from(Opcode::LOAD)]);

    assert_eq!(Token::Opcode(Opcode::HLT).to_bytes(), vec![u8::from(Opcode::HLT)]);

    assert_eq!(Token::Opcode(Opcode::JMP).to_bytes(), vec![u8::from(Opcode::JMP)]);

    assert_eq!(Token::Register(9).to_bytes(), vec![9]);

    assert_eq!(Token::IntegerOperand(0xFFEE).to_bytes(), vec![0xFF, 0xEE]);

    assert_eq!(
        Token::StringOperand(String::from("AZAD")).to_bytes(),
        vec![0x41, 0x5A, 0x41, 0x44]
    );
}

#[test]
fn negative_immediates_encode_in_twos_complement() {
    assert_eq!(Token::IntegerOperand(-1).to_bytes(), vec![0xFF, 0xFF]);
    assert_eq!(Token::IntegerOperand(-32768).to_bytes(), vec![0x80, 0x00]);
    assert_eq!(Token::IntegerOperand(500).to_bytes(), vec![0x01, 0xF4]);
}

#[test]
fn names_carry_no_bytes_of_their_own() {
    assert!(Token::LabelUsage("x".to_string()).to_bytes().is_empty());
    assert!(Token::LabelDeclaration("x".to_string()).to_bytes().is_empty());
    assert!(Token::Directive("code".to_string()).to_bytes().is_empty());
}
