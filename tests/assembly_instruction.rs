use iridium::assembler::assembly_instruction::{AssemblyInstruction, EncodeError, PADDING};
use iridium::assembler::symbols::{SymbolInfo, SymbolTable, SymbolType};
use iridium::assembler::token::Token;
use iridium::opcode::Opcode;

#[test]
fn test_assembly_instruction_to_bytes() {
    let st = SymbolTable::new();
    let load = AssemblyInstruction {
        opcode: Some(Token::Opcode(Opcode::LOAD)),
        operand1: Some(Token::Register(10)),
        operand2: Some(Token::IntegerOperand(99)),
        ..Default::default()
    };
    assert_eq!(load.to_bytes(&st), Ok(vec![u8::from(Opcode::LOAD), 10, 0, 99]));

    let eq = AssemblyInstruction {
        opcode: Some(Token::Opcode(Opcode::EQ)),
        operand1: Some(Token::Register(10)),
        operand2: Some(Token::Register(20)),
        ..Default::default()
    };
    assert_eq!(eq.to_bytes(&st), Ok(vec![u8::from(Opcode::EQ), 10, 20, PADDING]));
}

#[test]
fn test_opcode_less_instruction() {
    let st = SymbolTable::new();
    let inst = AssemblyInstruction {
        directive: Some(Token::Directive("asciiz".to_string())),
        ..Default::default()
    };

    // A directive is not encoded into any bytecode yet.
    // So its all padding.
    assert_eq!(inst.to_bytes(&st), Ok(vec![255, 255, 255, 255]));
}

#[test]
fn unused_bytes_are_padding_not_zero() {
    let st = SymbolTable::new();
    let hlt = AssemblyInstruction { opcode: Some(Token::Opcode(Opcode::HLT)), ..Default::default() };
    assert_eq!(hlt.to_bytes(&st), Ok(vec![0, 0xFF, 0xFF, 0xFF]));
    let jmp = AssemblyInstruction {
        opcode: Some(Token::Opcode(Opcode::JMP)),
        operand1: Some(Token::Register(0)),
        ..Default::default()
    };
    assert_eq!(jmp.to_bytes(&st), Ok(vec![6, 0, 0xFF, 0xFF]));
}

#[test]
fn record_without_opcode_or_directive_is_refused() {
    let st = SymbolTable::new();
    let bare = AssemblyInstruction {
        label: Some(Token::LabelDeclaration("start".to_string())),
        operand1: Some(Token::Register(1)),
        ..Default::default()
    };
    assert_eq!(bare.to_bytes(&st), Err(EncodeError::MissingOpcode));
    assert_eq!(AssemblyInstruction::default().to_bytes(&st), Err(EncodeError::MissingOpcode));
}

#[test]
fn label_usage_resolves_through_the_table() {
    let mut st = SymbolTable::new();
    st.insert("loop".to_string(), SymbolInfo::new(8, SymbolType::Label));
    st.insert("far".to_string(), SymbolInfo::new(40000, SymbolType::Label));
    let load = AssemblyInstruction {
        opcode: Some(Token::Opcode(Opcode::LOAD)),
        operand1: Some(Token::Register(3)),
        operand2: Some(Token::LabelUsage("loop".to_string())),
        ..Default::default()
    };
    assert_eq!(load.to_bytes(&st), Ok(vec![1, 3, 0, 8]));

    let missing = AssemblyInstruction {
        opcode: Some(Token::Opcode(Opcode::LOAD)),
        operand1: Some(Token::Register(3)),
        operand2: Some(Token::LabelUsage("nowhere".to_string())),
        ..Default::default()
    };
    assert_eq!(missing.to_bytes(&st), Err(EncodeError::UndefinedLabel));

    let far = AssemblyInstruction {
        opcode: Some(Token::Opcode(Opcode::LOAD)),
        operand1: Some(Token::Register(3)),
        operand2: Some(Token::LabelUsage("far".to_string())),
        ..Default::default()
    };
    assert_eq!(far.to_bytes(&st), Err(EncodeError::LabelOutOfRange));

    let misplaced = AssemblyInstruction {
        opcode: Some(Token::Opcode(Opcode::JMP)),
        operand1: Some(Token::Directive("data".to_string())),
        ..Default::default()
    };
    assert_eq!(misplaced.to_bytes(&st), Err(EncodeError::MisplacedToken));
}

#[test]
fn record_accessors() {
    let rec = AssemblyInstruction {
        label: Some(Token::LabelDeclaration("top".to_string())),
        opcode: Some(Token::Opcode(Opcode::INC)),
        operand1: Some(Token::Register(2)),
        ..Default::default()
    };
    assert!(rec.has_label());
    assert_eq!(rec.get_label(), Some("top".to_string()));
    assert!(rec.has_opcode());
    assert_eq!(rec.get_opcode(), Some(Opcode::INC));
    assert!(!rec.has_directive());
    assert_eq!(rec.get_directive(), None);

    let dir = AssemblyInstruction {
        directive: Some(Token::Directive("data".to_string())),
        ..Default::default()
    };
    assert_eq!(dir.get_directive(), Some("data".to_string()));
    assert_eq!(dir.get_opcode(), None);
    assert_eq!(dir.get_label(), None);
}
