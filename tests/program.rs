use iridium::assembler::assembly_instruction::{AssemblyInstruction, EncodeError};
use iridium::assembler::program::Program;
use iridium::assembler::symbols::SymbolTable;
use iridium::assembler::token::Token;
use iridium::assembler::AssemblerError;
use iridium::opcode::Opcode;

#[test]
fn test_program_to_bytes() {
    let st = SymbolTable::new();
    let program = Program {
        instructions: vec![
            AssemblyInstruction {
                opcode: Some(Token::Opcode(Opcode::LOAD)),
                operand1: Some(Token::Register(0)),
                operand2: Some(Token::IntegerOperand(100)),
                ..Default::default()
            },
            AssemblyInstruction {
                opcode: Some(Token::Opcode(Opcode::LOAD)),
                operand1: Some(Token::Register(1)),
                operand2: Some(Token::IntegerOperand(200)),
                ..Default::default()
            },
        ],
    };

    let load_opcode = u8::from(Opcode::LOAD);
    let program_bytes: Vec<u8> = vec![load_opcode, 0, 0, 100, load_opcode, 1, 0, 200];
    assert_eq!(program.to_bytes(&st), Ok(program_bytes));
}

#[test]
fn program_reports_the_first_record_that_fails() {
    let st = SymbolTable::new();
    let program = Program {
        instructions: vec![
            AssemblyInstruction { opcode: Some(Token::Opcode(Opcode::HLT)), ..Default::default() },
            AssemblyInstruction::default(),
            AssemblyInstruction {
                opcode: Some(Token::Opcode(Opcode::LOAD)),
                operand1: Some(Token::Register(1)),
                operand2: Some(Token::LabelUsage("x".to_string())),
                ..Default::default()
            },
        ],
    };
    assert_eq!(
        program.to_bytes(&st),
        Err(AssemblerError::Encode { index: 1, error: EncodeError::MissingOpcode })
    );
}

#[test]
fn empty_program_has_no_code() {
    let st = SymbolTable::new();
    let program = Program { instructions: vec![] };
    assert_eq!(program.to_bytes(&st), Ok(vec![]));
}
