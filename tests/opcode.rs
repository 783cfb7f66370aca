use iridium::opcode::Opcode;

#[test]
fn opcode_test_opcode_from_u8() {
    // Halt
    assert_eq!(Opcode::HLT, Opcode::from(0));

    // Illegal opcode
    assert_eq!(Opcode::IGL, Opcode::from(255));

    // Load/store
    assert_eq!(Opcode::LOAD, Opcode::from(1));

    // Arithmetic ops.
    assert_eq!(Opcode::ADD, Opcode::from(2));
    assert_eq!(Opcode::MUL, Opcode::from(3));
    assert_eq!(Opcode::SUB, Opcode::from(4));
    assert_eq!(Opcode::DIV, Opcode::from(5));

    // Jumps
    assert_eq!(Opcode::JMP, Opcode::from(6));
    assert_eq!(Opcode::JMPF, Opcode::from(7));
    assert_eq!(Opcode::JMPB, Opcode::from(8));

    // Equality related ops.
    assert_eq!(Opcode::EQ, Opcode::from(9));
    assert_eq!(Opcode::NEQ, Opcode::from(10));
    assert_eq!(Opcode::GT, Opcode::from(11));
    assert_eq!(Opcode::GTE, Opcode::from(12));
    assert_eq!(Opcode::LT, Opcode::from(13));
    assert_eq!(Opcode::LTE, Opcode::from(14));
    assert_eq!(Opcode::JEQ, Opcode::from(15));
    assert_eq!(Opcode::JNEQ, Opcode::from(16));
    assert_eq!(Opcode::ALOC, Opcode::from(17));
}

#[test]
fn test_opcode_as_u8() {
    assert_eq!(u8::from(Opcode::HLT), 0);
    assert_eq!(u8::from(Opcode::LOAD), 1);
    assert_eq!(u8::from(Opcode::ADD), 2);
    assert_eq!(u8::from(Opcode::MUL), 3);
    assert_eq!(u8::from(Opcode::SUB), 4);
    assert_eq!(u8::from(Opcode::DIV), 5);
    assert_eq!(u8::from(Opcode::JMP), 6);
    assert_eq!(u8::from(Opcode::JMPF), 7);
    assert_eq!(u8::from(Opcode::JMPB), 8);
    assert_eq!(u8::from(Opcode::EQ), 9);
    assert_eq!(u8::from(Opcode::NEQ), 10);
    assert_eq!(u8::from(Opcode::GT), 11);
    assert_eq!(u8::from(Opcode::GTE), 12);
    assert_eq!(u8::from(Opcode::LT), 13);
    assert_eq!(u8::from(Opcode::LTE), 14);
    assert_eq!(u8::from(Opcode::JEQ), 15);
    assert_eq!(u8::from(Opcode::JNEQ), 16);
    assert_eq!(u8::from(Opcode::ALOC), 17);
    assert_eq!(u8::from(Opcode::IGL), 255);
}

#[test]
fn test_opcode_from_str() {
    assert_eq!(Opcode::HLT, Opcode::from("hlt"));
    assert_eq!(Opcode::IGL, Opcode::from("hehehe"));
    assert_eq!(Opcode::LOAD, Opcode::from("load"));
    assert_eq!(Opcode::ADD, Opcode::from("add"));
    assert_eq!(Opcode::MUL, Opcode::from("mul"));
    assert_eq!(Opcode::SUB, Opcode::from("sub"));
    assert_eq!(Opcode::DIV, Opcode::from("div"));
    assert_eq!(Opcode::JMP, Opcode::from("jmp"));
    assert_eq!(Opcode::JMPF, Opcode::from("jmpf"));
    assert_eq!(Opcode::JMPB, Opcode::from("jmpb"));
    assert_eq!(Opcode::EQ, Opcode::from("eq"));
    assert_eq!(Opcode::NEQ, Opcode::from("neq"));
    assert_eq!(Opcode::GT, Opcode::from("gt"));
    assert_eq!(Opcode::GTE, Opcode::from("gte"));
    assert_eq!(Opcode::LT, Opcode::from("lt"));
    assert_eq!(Opcode::LTE, Opcode::from("lte"));
    assert_eq!(Opcode::JEQ, Opcode::from("jeq"));
    assert_eq!(Opcode::JNEQ, Opcode::from("jneq"));
    assert_eq!(Opcode::ALOC, Opcode::from("aloc"));
}

#[test]
fn opcode_codes_round_trip() {
    for b in 0..=255u8 {
        let op = Opcode::from(b);
        if op != Opcode::IGL {
            assert_eq!(u8::from(op), b);
        }
    }
    assert_eq!(Opcode::from(18), Opcode::INC);
    assert_eq!(Opcode::from(19), Opcode::DEC);
    assert_eq!(Opcode::from(20), Opcode::IGL);
}

#[test]
fn opcode_names_ignore_ascii_case() {
    assert_eq!(Opcode::from("JmPf"), Opcode::JMPF);
    assert_eq!(Opcode::from("inc"), Opcode::INC);
    assert_eq!(Opcode::from("DEC"), Opcode::DEC);
    assert_eq!(Opcode::from(""), Opcode::IGL);
    assert_eq!(Opcode::from("hlt "), Opcode::IGL);
    assert_eq!(Opcode::from("igl"), Opcode::IGL);
}

#[test]
fn names_compare_in_unicode_upper_case() {
    // U+017F (long s) upper-cases to 'S'; U+0131 (dotless i) to 'I'.
    assert_eq!(Opcode::from("\u{17f}ub"), Opcode::SUB);
    assert_eq!(Opcode::from("d\u{131}v"), Opcode::DIV);
    assert_eq!(Opcode::from_name("jneq"), Opcode::JNEQ);
}

#[test]
fn from_upper_takes_exact_upper_case_mnemonics() {
    assert_eq!(Opcode::from_upper("ALOC"), Opcode::ALOC);
    assert_eq!(Opcode::from_upper("aloc"), Opcode::IGL);
    assert_eq!(Opcode::from_upper("IGL"), Opcode::IGL);
}
