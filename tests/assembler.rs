use iridium::assembler::assembly_instruction::EncodeError;
use iridium::assembler::parsers::{Expected, ParseError};
use iridium::assembler::{
    Assembler, AssemblerError, AssemblerPass, AssemblerSection, Section, BIN_HEADER_LENGTH,
};
use iridium::opcode::Opcode;
use iridium::vm::{Status, VM};

fn header() -> Vec<u8> {
    let mut h = vec![0x41, 0x5A, 0x41, 0x44, 1];
    h.resize(64, 0);
    h
}

#[test]
fn test_assemble() {
    let mut assembler = Assembler::new();

    let prog_string = r##" load $0 #20
                 load $1 #30
                 add $0 $1 $2
                 hlt"##;

    let program = assembler.assemble(prog_string).unwrap();
    let mut vm = VM::new();
    vm.add_bytes(&program);
    vm.run();
    assert_eq!(vm.register(0), 20);
    assert_eq!(vm.register(1), 30);
    assert_eq!(vm.register(2), 50);
}

#[test]
fn generate_header_writes_magic_and_version() {
    let h = Assembler::generate_header();
    assert_eq!(h.len(), BIN_HEADER_LENGTH);
    assert_eq!(h, header());
}

#[test]
fn assembled_bytes_and_run_of_the_sample_program() {
    let mut assembler = Assembler::new();
    let bytes = assembler.assemble("load $0 #20\nload $1 #30\nadd $0 $1 $2\nhlt").unwrap();
    let load = u8::from(Opcode::LOAD);
    let add = u8::from(Opcode::ADD);
    let hlt = u8::from(Opcode::HLT);
    let mut expected = header();
    expected.extend_from_slice(&[load, 0, 0, 20, load, 1, 0, 30, add, 0, 1, 2, hlt, 0xFF, 0xFF, 0xFF]);
    assert_eq!(bytes, expected);
    assert_eq!(assembler.pass, AssemblerPass::Second);

    let mut vm = VM::new();
    vm.add_bytes(&bytes);
    assert_eq!(vm.run(), Status::Halted);
    assert_eq!(vm.register(0), 20);
    assert_eq!(vm.register(1), 30);
    assert_eq!(vm.register(2), 50);
    assert_eq!(vm.pc, 13);
}

#[test]
fn assembling_twice_gives_the_same_bytes() {
    let src = "start: load $0 #-3\nloop: inc $0\n  load $1 @loop\n  lt $0 $2\n  jeq $1\n hlt";
    let a = Assembler::new().assemble(src).unwrap();
    let b = Assembler::new().assemble(src).unwrap();
    assert_eq!(a, b);
    // The same assembler forgets the symbols of its previous run.
    let mut same = Assembler::new();
    assert_eq!(same.assemble(src).unwrap(), a);
    assert_eq!(same.assemble(src).unwrap(), a);
}

#[test]
fn forward_label_resolves_to_its_offset() {
    let src = "load $0 @end\njmp $0\nhlt\nend: inc $1\nhlt";
    let bytes = Assembler::new().assemble(src).unwrap();
    let code = &bytes[64..];
    assert_eq!(&code[0..4], &[u8::from(Opcode::LOAD), 0, 0, 12]);
    assert_eq!(&code[4..8], &[u8::from(Opcode::JMP), 0, 0xFF, 0xFF]);

    let mut vm = VM::new();
    vm.add_bytes(&bytes);
    assert_eq!(vm.run(), Status::Halted);
    assert_eq!(vm.register(0), 12);
    assert_eq!(vm.register(1), 1);
    assert_eq!(vm.pc, 17);
}

#[test]
fn executable_runs_as_the_hand_encoded_bytes() {
    let src = "load $0 #7\nload $1 #7\neq $0 $1\nload $2 #24\njeq $2\nhlt\nload $3 #1\nhlt";
    let bytes = Assembler::new().assemble(src).unwrap();
    let load = u8::from(Opcode::LOAD);
    let hand: Vec<u8> = vec![
        load, 0, 0, 7,
        load, 1, 0, 7,
        u8::from(Opcode::EQ), 0, 1, 0xFF,
        load, 2, 0, 24,
        u8::from(Opcode::JEQ), 2, 0xFF, 0xFF,
        0, 0xFF, 0xFF, 0xFF,
        load, 3, 0, 1,
        0, 0xFF, 0xFF, 0xFF,
    ];
    let mut from_source = VM::new();
    from_source.add_bytes(&bytes);
    let mut by_hand = VM::new();
    by_hand.add_bytes(&hand);
    assert_eq!(from_source.program, by_hand.program);
    let a = from_source.run();
    let b = by_hand.run();
    assert_eq!(a, b);
    assert_eq!(from_source.registers, by_hand.registers);
    assert_eq!(from_source.equal_flag, by_hand.equal_flag);
    assert_eq!(from_source.pc, by_hand.pc);
    assert_eq!(from_source.register(3), 1);
}

#[test]
fn assembly_errors() {
    let mut assembler = Assembler::new();
    assert_eq!(
        assembler.assemble("load $0 #x"),
        Err(AssemblerError::Parse(ParseError { position: 9, expected: Expected::Digit }))
    );
    assert_eq!(
        assembler.assemble("a: hlt\na: hlt"),
        Err(AssemblerError::DuplicateLabel { index: 1 })
    );
    assert_eq!(
        assembler.assemble("hlt\nload $0 @nowhere"),
        Err(AssemblerError::Encode { index: 1, error: EncodeError::UndefinedLabel })
    );
    // The assembler is still usable after a failure.
    assert!(assembler.assemble("hlt").is_ok());
}

#[test]
fn sections_by_directive_name() {
    let empty = Section { start: None, size: None };
    assert_eq!(AssemblerSection::from("code"), AssemblerSection::Code(empty));
    assert_eq!(AssemblerSection::from("data"), AssemblerSection::Data(empty));
    assert_eq!(AssemblerSection::from("text"), AssemblerSection::Unknown);
    assert_eq!(AssemblerSection::default(), AssemblerSection::Unknown);
}
