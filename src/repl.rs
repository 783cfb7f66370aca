//! The decisions of the interactive session: what a line typed at the
//! prompt means, and what it does to the machine and the assembler. Reading
//! lines, keeping their history, reading files and printing are left to the
//! caller, which performs the `Action` that each line returns.

use vstd::prelude::*;

use crate::assembler::{assemble_spec, Assembler, AssemblerError};
use crate::vm::{initial_machine, loaded_code, run_steps, step, Machine, Status, VM};

verus! {

/// What a line typed at the prompt asks for.
#[derive(Clone, Copy, Debug, PartialEq, Eq, Structural)]
pub enum Command {
    /// `.reset`: a fresh machine.
    Reset,
    /// `.q` or `.quit`.
    Quit,
    /// `.hs` or `.history`.
    History,
    /// `.regs` or `.registers`.
    Registers,
    /// `.vm`: the machine's state but its registers.
    State,
    /// `.load`: assemble a file and load it.
    Load,
    /// `.n` or `.next`: one step.
    Next,
    /// `.g` or `.go`: run to the end.
    Go,
    /// `.h` or `.help`.
    Help,
    /// Any other line that starts with `.`.
    Unrecognized,
    /// Anything else: assembly source to load and step into.
    Source,
}

/// What the caller is to do after a line.
#[derive(Clone, Copy, Debug, PartialEq, Eq, Structural)]
pub enum Action {
    /// The machine was reset.
    Reset,
    /// End the session.
    Quit,
    /// Show the line history.
    ShowHistory,
    /// Show the registers.
    ShowRegisters,
    /// Show the machine's state.
    ShowState,
    /// Ask for a file, read it, and hand its text to `load_source`.
    AskForFile,
    /// The machine ran; this is how the run ended.
    Executed(Status),
    /// Show the list of commands.
    ShowHelp,
    /// The dot-command is not known.
    Unrecognized,
    /// The line did not assemble; the machine is unchanged.
    AssemblyFailed(AssemblerError),
}

/// The command that a line stands for.
pub open spec fn command_of(line: Seq<char>) -> Command {
    if line == seq!['.', 'r', 'e', 's', 'e', 't'] {
        Command::Reset
    } else if line == seq!['.', 'q'] || line == seq!['.', 'q', 'u', 'i', 't'] {
        Command::Quit
    } else if line == seq!['.', 'h', 's'] || line == seq!['.', 'h', 'i', 's', 't', 'o', 'r', 'y'] {
        Command::History
    } else if line == seq!['.', 'r', 'e', 'g', 's'] || line == seq![
        '.',
        'r',
        'e',
        'g',
        'i',
        's',
        't',
        'e',
        'r',
        's',
    ] {
        Command::Registers
    } else if line == seq!['.', 'v', 'm'] {
        Command::State
    } else if line == seq!['.', 'l', 'o', 'a', 'd'] {
        Command::Load
    } else if line == seq!['.', 'n'] || line == seq!['.', 'n', 'e', 'x', 't'] {
        Command::Next
    } else if line == seq!['.', 'g'] || line == seq!['.', 'g', 'o'] {
        Command::Go
    } else if line == seq!['.', 'h'] || line == seq!['.', 'h', 'e', 'l', 'p'] {
        Command::Help
    } else if line.len() > 0 && line[0] == '.' {
        Command::Unrecognized
    } else {
        Command::Source
    }
}

/// The machine with the code of an assembled executable appended.
pub open spec fn with_code(m: Machine, executable: Seq<u8>) -> Machine {
    Machine { program: m.program + loaded_code(executable), ..m }
}

/// The interactive session's state: a machine and an assembler.
pub struct REPL {
    vm: VM,
    assembler: Assembler,
}

impl REPL {
    pub closed spec fn wf(&self) -> bool {
        self.assembler.wf()
    }

    /// The session's machine.
    pub closed spec fn machine(&self) -> Machine {
        self.vm@
    }

    /// A session with a fresh machine and a fresh assembler.
    pub fn new() -> (r: REPL)
        ensures
            r.wf(),
            r.machine() == initial_machine(),
    {
        REPL { vm: VM::new(), assembler: Assembler::new() }
    }

    /// The session's machine, to show.
    pub fn vm(&self) -> (r: &VM)
        ensures
            r@ == self.machine(),
    {
        &self.vm
    }

    /// Carries out one line typed at the prompt (see `command_of`).
    /// Source is assembled, appended to the program and stepped into once;
    /// source that does not assemble leaves the machine as it was.
    pub fn handle_line(&mut self, line: &str) -> (r: Action)
        requires
            old(self).wf(),
        ensures
            final(self).wf(),
            ({
                let m = old(self).machine();
                let n = final(self).machine();
                match command_of(line@) {
                    Command::Reset => r == Action::Reset && n == initial_machine(),
                    Command::Quit => r == Action::Quit && n == m,
                    Command::History => r == Action::ShowHistory && n == m,
                    Command::Registers => r == Action::ShowRegisters && n == m,
                    Command::State => r == Action::ShowState && n == m,
                    Command::Load => r == Action::AskForFile && n == m,
                    Command::Next => r == Action::Executed(step(m).1) && n == step(m).0,
                    Command::Go => r == Action::Executed(run_steps(m, u64::MAX as nat).1) && n == run_steps(
                        m,
                        u64::MAX as nat,
                    ).0,
                    Command::Help => r == Action::ShowHelp && n == m,
                    Command::Unrecognized => r == Action::Unrecognized && n == m,
                    Command::Source => match assemble_spec(line@) {
                        Err(e) => r == Action::AssemblyFailed(e) && n == m,
                        Ok(b) => r == Action::Executed(step(with_code(m, b)).1) && n == step(
                            with_code(m, b),
                        ).0,
                    },
                }
            }),
    {
        match command(line) {
            Command::Reset => {
                self.vm = VM::new();
                Action::Reset
            },
            Command::Quit => Action::Quit,
            Command::History => Action::ShowHistory,
            Command::Registers => Action::ShowRegisters,
            Command::State => Action::ShowState,
            Command::Load => Action::AskForFile,
            Command::Next => Action::Executed(self.vm.run_once()),
            Command::Go => Action::Executed(self.vm.run()),
            Command::Help => Action::ShowHelp,
            Command::Unrecognized => Action::Unrecognized,
            Command::Source => match self.assembler.assemble(line) {
                Err(e) => Action::AssemblyFailed(e),
                Ok(bytes) => {
                    self.vm.add_bytes(bytes.as_slice());
                    Action::Executed(self.vm.run_once())
                },
            },
        }
    }

    /// Assembles the text of a file and appends its code to the program,
    /// without running it.
    pub fn load_source(&mut self, contents: &str) -> (r: Result<(), AssemblerError>)
        requires
            old(self).wf(),
        ensures
            final(self).wf(),
            match assemble_spec(contents@) {
                Err(e) => r == Err::<(), AssemblerError>(e) && final(self).machine() == old(self).machine(),
                Ok(b) => r is Ok && final(self).machine() == with_code(old(self).machine(), b),
            },
    {
        let bytes = self.assembler.assemble(contents)?;
        self.vm.add_bytes(bytes.as_slice());
        Ok(())
    }
}

/// Whether `cs` spells `word`.
fn spells(cs: &Vec<char>, word: Vec<char>) -> (r: bool)
    ensures
        r == (cs@ == word@),
{
    if cs.len() != word.len() {
        return false;
    }
    let mut i: usize = 0;
    while i < word.len()
        invariant
            cs@.len() == word@.len(),
            i <= word@.len(),
            forall|j: int| 0 <= j < i ==> cs@[j] == word@[j],
        decreases word@.len() - i,
    {
        if cs[i] != word[i] {
            return false;
        }
        i = i + 1;
    }
    assert(cs@ =~= word@);
    true
}

/// The command that a line stands for (see `command_of`).
pub fn command(line: &str) -> (r: Command)
    ensures
        r == command_of(line@),
{
    let mut cs: Vec<char> = Vec::new();
    for c in it: line.chars()
        invariant
            it.seq() == line@,
            cs@ == line@.take(it.index() as int),
    {
        proof {
            assert(line@.take(it.index() + 1) =~= line@.take(it.index() as int).push(c));
        }
        cs.push(c);
    }
    proof {
        assert(line@.take(line@.len() as int) =~= line@);
    }
    if spells(&cs, vec!['.', 'r', 'e', 's', 'e', 't']) {
        Command::Reset
    } else if spells(&cs, vec!['.', 'q']) || spells(&cs, vec!['.', 'q', 'u', 'i', 't']) {
        Command::Quit
    } else if spells(&cs, vec!['.', 'h', 's']) || spells(
        &cs,
        vec!['.', 'h', 'i', 's', 't', 'o', 'r', 'y'],
    ) {
        Command::History
    } else if spells(&cs, vec!['.', 'r', 'e', 'g', 's']) || spells(
        &cs,
        vec!['.', 'r', 'e', 'g', 'i', 's', 't', 'e', 'r', 's'],
    ) {
        Command::Registers
    } else if spells(&cs, vec!['.', 'v', 'm']) {
        Command::State
    } else if spells(&cs, vec!['.', 'l', 'o', 'a', 'd']) {
        Command::Load
    } else if spells(&cs, vec!['.', 'n']) || spells(&cs, vec!['.', 'n', 'e', 'x', 't']) {
        Command::Next
    } else if spells(&cs, vec!['.', 'g']) || spells(&cs, vec!['.', 'g', 'o']) {
        Command::Go
    } else if spells(&cs, vec!['.', 'h']) || spells(&cs, vec!['.', 'h', 'e', 'l', 'p']) {
        Command::Help
    } else if cs.len() > 0 && cs[0] == '.' {
        Command::Unrecognized
    } else {
        Command::Source
    }
}

} // verus!
