use iridium::assembler::assembly_instruction::AssemblyInstruction;
use iridium::assembler::parsers::{
    parse_directive_combined, parse_directive_declaration, parse_instruction, parse_instruction0,
    parse_instruction1, parse_instruction2, parse_instruction3, parse_instruction4,
    parse_label_declaration, parse_label_usage, parse_number, parse_opcode, parse_operand,
    parse_program, parse_register, Expected, ParseError,
};
use iridium::assembler::token::Token;
use iridium::opcode::Opcode;

#[test]
fn test_parse_opcode() {
    assert_eq!(parse_opcode("HLT"), Ok(("", Token::Opcode(Opcode::HLT))));
    assert_eq!(parse_opcode("load"), Ok(("", Token::Opcode(Opcode::LOAD))));
    assert_eq!(parse_opcode("AdD"), Ok(("", Token::Opcode(Opcode::ADD))));
    assert_eq!(parse_opcode("mUL"), Ok(("", Token::Opcode(Opcode::MUL))));
    assert_eq!(parse_opcode("SuB"), Ok(("", Token::Opcode(Opcode::SUB))));
    assert_eq!(parse_opcode("DIv"), Ok(("", Token::Opcode(Opcode::DIV))));
    assert_eq!(parse_opcode("jMP"), Ok(("", Token::Opcode(Opcode::JMP))));
    assert_eq!(parse_opcode("jmpf"), Ok(("", Token::Opcode(Opcode::JMPF))));
    assert_eq!(parse_opcode("jmpB"), Ok(("", Token::Opcode(Opcode::JMPB))));
    assert_eq!(parse_opcode("Eq"), Ok(("", Token::Opcode(Opcode::EQ))));
    assert_eq!(parse_opcode("neQ"), Ok(("", Token::Opcode(Opcode::NEQ))));
    assert_eq!(parse_opcode("GT"), Ok(("", Token::Opcode(Opcode::GT))));
    assert_eq!(parse_opcode("GTE"), Ok(("", Token::Opcode(Opcode::GTE))));
    assert_eq!(parse_opcode("LT"), Ok(("", Token::Opcode(Opcode::LT))));
    assert_eq!(parse_opcode("LTE"), Ok(("", Token::Opcode(Opcode::LTE))));
    assert_eq!(parse_opcode("JEQ"), Ok(("", Token::Opcode(Opcode::JEQ))));
    assert_eq!(parse_opcode("JNEQ"), Ok(("", Token::Opcode(Opcode::JNEQ))));
    assert_eq!(parse_opcode("IGL"), Ok(("", Token::Opcode(Opcode::IGL))));

    assert_eq!(parse_opcode("hlt bla bla"), Ok((" bla bla", Token::Opcode(Opcode::HLT))));
}

#[test]
fn test_parse_register() {
    assert_eq!(parse_register("$0"), Ok(("", Token::Register(0))));
    assert_eq!(parse_register("$31 #999"), Ok((" #999", Token::Register(31))));
    let err = parse_register("$a $b").unwrap_err();
    assert_eq!(err.remainder("$a $b"), "a $b");
    assert_eq!(err.expected, Expected::Digit);
}

#[test]
fn test_parse_number() {
    assert_eq!(parse_number("#500"), Ok(("", Token::IntegerOperand(500))));
    assert_eq!(parse_number("#1000 ;1k"), Ok((" ;1k", Token::IntegerOperand(1000))));
}

#[test]
fn test_parse_operand() {
    assert_eq!(parse_operand(" #99 "), Ok(("", Token::IntegerOperand(99))));
    assert_eq!(parse_operand(" $23 "), Ok(("", Token::Register(23))));
}

#[test]
fn test_parse_label_declaration() {
    assert_eq!(
        parse_label_declaration("label1: "),
        Ok(("", Token::LabelDeclaration("label1".to_string())))
    );
}

#[test]
fn test_parse_label_usage() {
    assert_eq!(parse_label_usage("@label1"), Ok(("", Token::LabelUsage("label1".to_string()))));
}

#[test]
fn test_parse_directive_declaration() {
    assert_eq!(parse_directive_declaration(".code "), Ok(("", Token::Directive("code".to_string()))));
}

#[test]
fn test_parse_directive_combined() {
    let result = parse_directive_combined("test1: .asciiz ");
    assert_eq!(result.is_ok(), true);

    let (_, directive) = result.unwrap();

    assert_eq!(
        directive,
        AssemblyInstruction {
            label: Some(Token::LabelDeclaration("test1".to_string())),
            directive: Some(Token::Directive("asciiz".to_string())),
            ..Default::default()
        }
    );
}

#[test]
fn test_parse_instruction0() {
    let result = parse_instruction0("  hlt\t\n  ");
    assert_eq!(
        result,
        Ok(("", AssemblyInstruction { opcode: Some(Token::Opcode(Opcode::HLT)), ..Default::default() }))
    );
}

#[test]
fn test_parse_instruction1() {
    let result = parse_instruction1("  load   $9   #299  \t\n");
    assert_eq!(
        result,
        Ok((
            "",
            AssemblyInstruction {
                opcode: Some(Token::Opcode(Opcode::LOAD)),
                operand1: Some(Token::Register(9)),
                operand2: Some(Token::IntegerOperand(299)),
                ..Default::default()
            }
        ))
    )
}

#[test]
fn test_parse_instruction2() {
    let result = parse_instruction2("  add $0 $1 $3 \t\n  ");
    assert_eq!(
        result,
        Ok((
            "",
            AssemblyInstruction {
                opcode: Some(Token::Opcode(Opcode::ADD)),
                operand1: Some(Token::Register(0)),
                operand2: Some(Token::Register(1)),
                operand3: Some(Token::Register(3)),
                ..Default::default()
            }
        ))
    )
}

#[test]
fn test_parse_instruction3() {
    let result = parse_instruction3("  EQ $0 $1 \t\n  ");
    assert_eq!(
        result,
        Ok((
            "",
            AssemblyInstruction {
                opcode: Some(Token::Opcode(Opcode::EQ)),
                operand1: Some(Token::Register(0)),
                operand2: Some(Token::Register(1)),
                ..Default::default()
            }
        ))
    )
}

#[test]
fn test_parse_instruction4() {
    let result = parse_instruction4("  jmp $30  \t\n  ");
    assert_eq!(
        result,
        Ok((
            "",
            AssemblyInstruction {
                opcode: Some(Token::Opcode(Opcode::JMP)),
                operand1: Some(Token::Register(30)),
                ..Default::default()
            }
        ))
    )
}

#[test]
fn test_parse_program() {
    let result = parse_program(
        r##" load $0 #100
                 load $1 #200
                 add $0 $1 $2
                 jmp $9
                 EQ $0 $2
                 hlt
                 "##,
    );

    assert_eq!(result.is_ok(), true);

    let (remaining_input, program) = result.unwrap();

    // Ensure that the complete program is consumed.
    assert_eq!("", remaining_input);

    assert_eq!(
        program.instructions[0],
        AssemblyInstruction {
            opcode: Some(Token::Opcode(Opcode::LOAD)),
            operand1: Some(Token::Register(0)),
            operand2: Some(Token::IntegerOperand(100)),
            ..Default::default()
        }
    );

    assert_eq!(
        program.instructions[1],
        AssemblyInstruction {
            opcode: Some(Token::Opcode(Opcode::LOAD)),
            operand1: Some(Token::Register(1)),
            operand2: Some(Token::IntegerOperand(200)),
            ..Default::default()
        }
    );

    assert_eq!(
        program.instructions[2],
        AssemblyInstruction {
            opcode: Some(Token::Opcode(Opcode::ADD)),
            operand1: Some(Token::Register(0)),
            operand2: Some(Token::Register(1)),
            operand3: Some(Token::Register(2)),
            ..Default::default()
        }
    );

    assert_eq!(
        program.instructions[3],
        AssemblyInstruction {
            opcode: Some(Token::Opcode(Opcode::JMP)),
            operand1: Some(Token::Register(9)),
            ..Default::default()
        }
    );

    assert_eq!(
        program.instructions[4],
        AssemblyInstruction {
            opcode: Some(Token::Opcode(Opcode::EQ)),
            operand1: Some(Token::Register(0)),
            operand2: Some(Token::Register(2)),
            ..Default::default()
        }
    );

    assert_eq!(
        program.instructions[5],
        AssemblyInstruction { opcode: Some(Token::Opcode(Opcode::HLT)), ..Default::default() }
    );
}

#[test]
fn parse_program_takes_labels_directives_and_label_usages() {
    let (_, program) = parse_program("top: .code\nstart: load $1 @top\n  .data $1 #-5\n").unwrap();
    assert_eq!(program.instructions.len(), 3);
    assert_eq!(
        program.instructions[0],
        AssemblyInstruction {
            label: Some(Token::LabelDeclaration("top".to_string())),
            directive: Some(Token::Directive("code".to_string())),
            ..Default::default()
        }
    );
    assert_eq!(
        program.instructions[1],
        AssemblyInstruction {
            label: Some(Token::LabelDeclaration("start".to_string())),
            opcode: Some(Token::Opcode(Opcode::LOAD)),
            operand1: Some(Token::Register(1)),
            operand2: Some(Token::LabelUsage("top".to_string())),
            ..Default::default()
        }
    );
    assert_eq!(
        program.instructions[2],
        AssemblyInstruction {
            directive: Some(Token::Directive("data".to_string())),
            operand1: Some(Token::Register(1)),
            operand2: Some(Token::IntegerOperand(-5)),
            ..Default::default()
        }
    );
}

#[test]
fn parse_program_fails_at_the_first_unparsable_text() {
    assert_eq!(parse_program(""), Err(ParseError { position: 0, expected: Expected::Instruction }));
    assert_eq!(parse_program("   \n "), Err(ParseError { position: 5, expected: Expected::Instruction }));
    // A fourth operand is not taken by the line, and starts no line.
    let src = "add $0 $1 $2 $3";
    let err = parse_program(src).unwrap_err();
    assert_eq!(err, ParseError { position: 13, expected: Expected::Instruction });
    assert_eq!(err.remainder(src), "$3");
    // Two lines must be apart.
    assert_eq!(parse_program("hlt5"), Err(ParseError { position: 3, expected: Expected::Separator }));
    // Text after a comment sign is not part of the grammar.
    assert_eq!(
        parse_program("hlt ; stop"),
        Err(ParseError { position: 4, expected: Expected::Instruction })
    );
    // A label alone is no line.
    assert_eq!(parse_program("end:"), Err(ParseError { position: 4, expected: Expected::Instruction }));
}

#[test]
fn operand_errors_name_what_was_expected() {
    assert_eq!(parse_program("load $300 #1"), Err(ParseError { position: 6, expected: Expected::RegisterIndex }));
    assert_eq!(parse_program("load $1 #32768"), Err(ParseError { position: 9, expected: Expected::IntegerRange }));
    assert_eq!(parse_program("load $1 #-"), Err(ParseError { position: 10, expected: Expected::Digit }));
    assert_eq!(parse_program("load $1 @"), Err(ParseError { position: 9, expected: Expected::Name }));
    assert_eq!(parse_program(". hlt"), Err(ParseError { position: 1, expected: Expected::Name }));
    let (_, p) = parse_program("load $1 #-32768").unwrap();
    assert_eq!(p.instructions[0].operand2, Some(Token::IntegerOperand(-32768)));
}

#[test]
fn operand_shapes_follow_the_grammar() {
    // `$r #n` stops after the immediate; `#n` cannot come first.
    assert_eq!(
        parse_instruction("jmp #4"),
        Ok((
            " #4",
            AssemblyInstruction { opcode: Some(Token::Opcode(Opcode::JMP)), ..Default::default() }
        ))
    );
    assert_eq!(
        parse_instruction("load $0 #4 $5"),
        Ok((
            " $5",
            AssemblyInstruction {
                opcode: Some(Token::Opcode(Opcode::LOAD)),
                operand1: Some(Token::Register(0)),
                operand2: Some(Token::IntegerOperand(4)),
                ..Default::default()
            }
        ))
    );
    assert_eq!(
        parse_instruction4("jmp"),
        Err(ParseError { position: 3, expected: Expected::Register })
    );
    assert_eq!(parse_instruction1("load $1 $2"), Err(ParseError { position: 8, expected: Expected::Integer }));
}
