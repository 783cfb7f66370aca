use iridium::assembler::parsers::{Expected, ParseError};
use iridium::assembler::AssemblerError;
use iridium::repl::{command, Action, Command, REPL};
use iridium::vm::Status;

#[test]
fn commands_by_line() {
    assert_eq!(command(".reset"), Command::Reset);
    assert_eq!(command(".q"), Command::Quit);
    assert_eq!(command(".quit"), Command::Quit);
    assert_eq!(command(".history"), Command::History);
    assert_eq!(command(".regs"), Command::Registers);
    assert_eq!(command(".vm"), Command::State);
    assert_eq!(command(".load"), Command::Load);
    assert_eq!(command(".n"), Command::Next);
    assert_eq!(command(".go"), Command::Go);
    assert_eq!(command(".help"), Command::Help);
    assert_eq!(command(".nope"), Command::Unrecognized);
    assert_eq!(command("load $0 #1"), Command::Source);
    assert_eq!(command(""), Command::Source);
}

#[test]
fn session_steps_into_each_line() {
    let mut repl = REPL::new();
    assert_eq!(repl.handle_line("load $0 #5"), Action::Executed(Status::Running));
    assert_eq!(repl.vm().register(0), 5);
    assert_eq!(repl.handle_line("inc $0"), Action::Executed(Status::Running));
    assert_eq!(repl.vm().register(0), 6);
    assert_eq!(
        repl.handle_line("inc $x"),
        Action::AssemblyFailed(AssemblerError::Parse(ParseError { position: 5, expected: Expected::Digit }))
    );
    assert_eq!(repl.vm().pc, 8);
    assert_eq!(repl.handle_line(".n"), Action::Executed(Status::EndOfProgram));
    assert_eq!(repl.handle_line(".bogus"), Action::Unrecognized);
    assert_eq!(repl.handle_line(".reset"), Action::Reset);
    assert_eq!(repl.vm().register(0), 0);
    assert!(repl.vm().program.is_empty());
}

#[test]
fn loaded_source_runs_on_go() {
    let mut repl = REPL::new();
    assert_eq!(repl.load_source("load $0 #2\nload $1 #3\nmul $0 $1 $2\nhlt"), Ok(()));
    assert_eq!(repl.vm().pc, 0);
    assert_eq!(repl.handle_line(".go"), Action::Executed(Status::Halted));
    assert_eq!(repl.vm().register(2), 6);
    assert_eq!(repl.handle_line(".load"), Action::AskForFile);
    assert!(repl.load_source("").is_err());
}
