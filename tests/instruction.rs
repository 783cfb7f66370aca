use iridium::instruction::{Instruction, Opcode};

#[test]
fn test_create_instruction() {
    let inst = Instruction::new(Opcode::HLT);
    assert_eq!(inst.opcode, Opcode::HLT);
}

#[test]
fn instruction_test_opcode_from_u8() {
    // Halt
    assert_eq!(Opcode::HLT, Opcode::from(0));

    // Illegal opcode
    assert_eq!(Opcode::IGL, Opcode::from(255));

    // Load/store
    assert_eq!(Opcode::LOAD, Opcode::from(1));

    // Arithmetic ops.
    assert_eq!(Opcode::ADD, Opcode::from(2));
    assert_eq!(Opcode::MUL, Opcode::from(3));
    assert_eq!(Opcode::SUB, Opcode::from(4));
    assert_eq!(Opcode::DIV, Opcode::from(5));

    // Jumps
    assert_eq!(Opcode::JMP, Opcode::from(6));
    assert_eq!(Opcode::JMPF, Opcode::from(7));
    assert_eq!(Opcode::JMPB, Opcode::from(8));

    // Equality related ops.
    assert_eq!(Opcode::EQ, Opcode::from(9));
    assert_eq!(Opcode::NEQ, Opcode::from(10));
    assert_eq!(Opcode::GT, Opcode::from(11));
    assert_eq!(Opcode::GTE, Opcode::from(12));
    assert_eq!(Opcode::LT, Opcode::from(13));
    assert_eq!(Opcode::LTE, Opcode::from(14));
}
