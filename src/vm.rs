//! The virtual machine: a register file, a program counter over the loaded
//! bytes, a remainder register, an equality flag and a heap, driven by a
//! fetch-decode-execute step whose meaning is `step`.

use vstd::prelude::*;

use crate::assembler::token::word_bytes;
use crate::assembler::{has_header, is_executable, BIN_HEADER_LENGTH};
use crate::opcode::{opcode_code, opcode_of, Opcode};
use vstd::wrapping::i32_specs;

verus! {

/// Number of registers in the register file.
pub const MAX_REGISTERS: usize = 32;

/// Width in bytes of every instruction.
pub const INSTRUCTION_WIDTH: usize = 4;

/// Why an instruction could not be executed.
#[derive(Clone, Copy, Debug, PartialEq, Eq, Structural)]
pub enum FaultKind {
    /// `DIV` with a zero divisor.
    DivideByZero,
    /// A register operand names no register of the register file.
    InvalidRegister,
    /// The program ends before the instruction's 4 bytes do.
    TruncatedInstruction,
    /// A jump target is negative or beyond the address space.
    InvalidJumpTarget,
    /// `ALOC` with a negative size, or one the heap cannot grow by.
    InvalidAllocation,
}

/// An execution fault, with the offset of the instruction that raised it.
#[derive(Clone, Copy, Debug, PartialEq, Eq, Structural)]
pub struct Fault {
    pub kind: FaultKind,
    pub offset: usize,
}

/// What one step of execution, or a run, ended with.
#[derive(Clone, Copy, Debug, PartialEq, Eq, Structural)]
pub enum Status {
    /// The instruction was executed; execution may go on.
    Running,
    /// `HLT` was executed.
    Halted,
    /// The program counter is at or past the end of the program.
    EndOfProgram,
    /// The byte at this offset names no operation.
    IllegalOpcode(usize),
    /// The instruction could not be executed; the machine is left as it was.
    Faulted(Fault),
}

/// The whole state of a virtual machine.
#[derive(Debug)]
pub struct VM {
    /// The register file.
    pub registers: [i32; MAX_REGISTERS],
    /// Byte offset of the next instruction in `program`.
    pub pc: usize,
    /// The loaded code.
    pub program: Vec<u8>,
    /// Remainder of the last division.
    pub remainder: i32,
    /// Result of the last comparison.
    pub equal_flag: bool,
    /// Memory grown by `ALOC`.
    pub heap: Vec<u8>,
}

/// The state of a virtual machine as mathematical values.
pub ghost struct Machine {
    pub registers: Seq<i32>,
    pub pc: usize,
    pub program: Seq<u8>,
    pub remainder: i32,
    pub equal_flag: bool,
    pub heap: Seq<u8>,
}

impl View for VM {
    type V = Machine;

    open spec fn view(&self) -> Machine {
        Machine {
            registers: self.registers@,
            pc: self.pc,
            program: self.program@,
            remainder: self.remainder,
            equal_flag: self.equal_flag,
            heap: self.heap@,
        }
    }
}

/// Whether a register operand names a register.
pub open spec fn valid_register(r: u8) -> bool {
    (r as int) < MAX_REGISTERS
}

/// The signed 16-bit value of a big-endian byte pair, widened to 32 bits.
pub open spec fn immediate(hi: u8, lo: u8) -> i32 {
    let w = hi as int * 256 + lo as int;
    if w >= 0x8000 {
        (w - 0x10000) as i32
    } else {
        w as i32
    }
}

/// Quotient of `x / y` rounded toward zero.
pub open spec fn quotient(x: int, y: int) -> int {
    let q = abs(x) / abs(y);
    if (x < 0) == (y < 0) {
        q
    } else {
        -q
    }
}

/// Remainder of `x / y` rounded toward zero: it has the sign of `x`.
pub open spec fn remainder(x: int, y: int) -> int {
    let r = abs(x) % abs(y);
    if x < 0 {
        -r
    } else {
        r
    }
}

pub open spec fn abs(x: int) -> int {
    if x < 0 {
        -x
    } else {
        x
    }
}

/// The result of an arithmetic opcode on two register values, wrapped to
/// 32 bits in two's complement.
pub open spec fn arith(op: Opcode, x: i32, y: i32) -> i32 {
    match op {
        Opcode::ADD => i32_specs::wrapping_add(x, y),
        Opcode::SUB => i32_specs::wrapping_sub(x, y),
        Opcode::MUL => i32_specs::wrapping_mul(x, y),
        _ => i32_specs::signed_crop(quotient(x as int, y as int)),
    }
}

/// The result of a comparison opcode on two register values.
pub open spec fn compare(op: Opcode, x: i32, y: i32) -> bool {
    match op {
        Opcode::EQ => x == y,
        Opcode::NEQ => x != y,
        Opcode::GT => x > y,
        Opcode::GTE => x >= y,
        Opcode::LT => x < y,
        _ => x <= y,
    }
}

pub open spec fn is_arith(op: Opcode) -> bool {
    op == Opcode::ADD || op == Opcode::SUB || op == Opcode::MUL || op == Opcode::DIV
}

pub open spec fn is_comparison(op: Opcode) -> bool {
    op == Opcode::EQ || op == Opcode::NEQ || op == Opcode::GT || op == Opcode::GTE || op
        == Opcode::LT || op == Opcode::LTE
}

/// The machine unchanged, with a fault raised by the instruction at its `pc`.
pub open spec fn fault(s: Machine, kind: FaultKind) -> (Machine, Status) {
    (s, Status::Faulted(Fault { kind, offset: s.pc }))
}

/// Moves the program counter to `target`, which must be a valid address.
pub open spec fn jump(s: Machine, target: int) -> (Machine, Status) {
    if 0 <= target <= usize::MAX {
        (Machine { pc: target as usize, ..s }, Status::Running)
    } else {
        fault(s, FaultKind::InvalidJumpTarget)
    }
}

/// The machine with `pc` past the 4-byte instruction at `pc`.
pub open spec fn advance(s: Machine) -> Machine {
    Machine { pc: (s.pc + 4) as usize, ..s }
}

/// Operand byte `k` (1, 2 or 3) of the instruction at `pc`.
pub open spec fn operand(s: Machine, k: int) -> u8 {
    s.program[s.pc + k]
}

/// Executes `op`, the instruction at `pc`, whose 4 bytes are all present.
pub open spec fn execute(s: Machine, op: Opcode) -> (Machine, Status) {
    let a = operand(s, 1);
    let b = operand(s, 2);
    let c = operand(s, 3);
    if op == Opcode::LOAD {
        if !valid_register(a) {
            fault(s, FaultKind::InvalidRegister)
        } else {
            (
                Machine { registers: s.registers.update(a as int, immediate(b, c)), ..advance(s) },
                Status::Running,
            )
        }
    } else if is_arith(op) {
        if !valid_register(a) || !valid_register(b) || !valid_register(c) {
            fault(s, FaultKind::InvalidRegister)
        } else {
            let x = s.registers[a as int];
            let y = s.registers[b as int];
            if op == Opcode::DIV && y == 0 {
                fault(s, FaultKind::DivideByZero)
            } else {
                let t = Machine { registers: s.registers.update(c as int, arith(op, x, y)), ..advance(s) };
                if op == Opcode::DIV {
                    (Machine { remainder: remainder(x as int, y as int) as i32, ..t }, Status::Running)
                } else {
                    (t, Status::Running)
                }
            }
        }
    } else if is_comparison(op) {
        if !valid_register(a) || !valid_register(b) {
            fault(s, FaultKind::InvalidRegister)
        } else {
            let flag = compare(op, s.registers[a as int], s.registers[b as int]);
            (Machine { equal_flag: flag, ..advance(s) }, Status::Running)
        }
    } else if !valid_register(a) {
        fault(s, FaultKind::InvalidRegister)
    } else {
        let v = s.registers[a as int];
        if op == Opcode::JMP {
            jump(s, v as int)
        } else if op == Opcode::JMPF {
            jump(s, s.pc + 2 + v)
        } else if op == Opcode::JMPB {
            jump(s, s.pc + 2 - v)
        } else if op == Opcode::JEQ {
            if s.equal_flag {
                jump(s, v as int)
            } else {
                (advance(s), Status::Running)
            }
        } else if op == Opcode::JNEQ {
            if !s.equal_flag {
                jump(s, v as int)
            } else {
                (advance(s), Status::Running)
            }
        } else if op == Opcode::ALOC {
            if v < 0 || s.heap.len() + v > usize::MAX {
                fault(s, FaultKind::InvalidAllocation)
            } else {
                (
                    Machine { heap: s.heap + Seq::new(v as nat, |i: int| 0u8), ..advance(s) },
                    Status::Running,
                )
            }
        } else if op == Opcode::INC {
            (Machine { registers: s.registers.update(a as int, i32_specs::wrapping_add(v, 1)), ..advance(s) }, Status::Running)
        } else {
            (Machine { registers: s.registers.update(a as int, i32_specs::wrapping_sub(v, 1)), ..advance(s) }, Status::Running)
        }
    }
}

/// One fetch-decode-execute step.
///
/// `HLT` and an illegal opcode consume their opcode byte and stop. Every
/// other instruction needs its whole 4-byte word; when it executes, `pc`
/// moves past the word, or to the jump target. A fault leaves the machine
/// unchanged.
pub open spec fn step(s: Machine) -> (Machine, Status) {
    if s.pc >= s.program.len() {
        (s, Status::EndOfProgram)
    } else {
        let op = opcode_of(s.program[s.pc as int]);
        if op == Opcode::HLT {
            (Machine { pc: (s.pc + 1) as usize, ..s }, Status::Halted)
        } else if op == Opcode::IGL {
            (Machine { pc: (s.pc + 1) as usize, ..s }, Status::IllegalOpcode(s.pc))
        } else if s.pc + 4 > s.program.len() {
            fault(s, FaultKind::TruncatedInstruction)
        } else {
            execute(s, op)
        }
    }
}

/// At most `fuel` steps, stopping at the first step whose status is not
/// `Running`; with no fuel, the machine as it is and `Running`.
pub open spec fn run_steps(s: Machine, fuel: nat) -> (Machine, Status)
    decreases fuel,
{
    if fuel == 0 {
        (s, Status::Running)
    } else {
        let (t, st) = step(s);
        if st == Status::Running {
            run_steps(t, (fuel - 1) as nat)
        } else {
            (t, st)
        }
    }
}

/// A machine with zeroed registers, no program, a clear flag and an empty
/// heap.
pub open spec fn initial_machine() -> Machine {
    Machine {
        registers: Seq::new(MAX_REGISTERS as nat, |i: int| 0i32),
        pc: 0,
        program: Seq::empty(),
        remainder: 0,
        equal_flag: false,
        heap: Seq::empty(),
    }
}

/// The code that loading `bytes` appends: an executable's code section,
/// or else the bytes themselves.
pub open spec fn loaded_code(bytes: Seq<u8>) -> Seq<u8> {
    if is_executable(bytes) {
        bytes.skip(64)
    } else {
        bytes
    }
}

/// The 4 bytes of `LOAD $r #v`.
pub open spec fn load_word(r: u8, v: int) -> Seq<u8> {
    seq![opcode_code(Opcode::LOAD), r] + word_bytes(v)
}

/// The arithmetic that an opcode stands for, on unbounded integers.
pub open spec fn exact_arith(op: Opcode, a: int, b: int) -> int {
    match op {
        Opcode::ADD => a + b,
        Opcode::SUB => a - b,
        Opcode::MUL => a * b,
        _ => quotient(a, b),
    }
}

/// `LOAD` gives back any value of the signed 16-bit range that an
/// immediate operand was written with.
pub proof fn lemma_immediate_word(v: int)
    requires
        -0x8000 <= v <= 0x7FFF,
    ensures
        immediate(word_bytes(v)[0], word_bytes(v)[1]) == v,
{
    let w = v % 0x10000;
    assert(w == if v >= 0 { v } else { v + 0x10000 });
    assert((w / 256) * 256 + w % 256 == w);
}

/// Loading `a` into `r1` and `b` into another register `r2`, then one
/// arithmetic instruction `OP $r1 $r2 $r3`, leaves `a OP b` in `r3` (and,
/// for `DIV`, the remainder of `a / b` in the remainder register): on
/// 16-bit operands no result wraps.
pub proof fn lemma_arithmetic(s: Machine, op: Opcode, r1: u8, r2: u8, r3: u8, a: i16, b: i16)
    requires
        is_arith(op),
        valid_register(r1),
        valid_register(r2),
        valid_register(r3),
        r1 != r2,
        op == Opcode::DIV ==> b != 0,
        s.registers.len() == MAX_REGISTERS,
        s.pc == 0,
        s.program == load_word(r1, a as int) + load_word(r2, b as int) + seq![
            opcode_code(op),
            r1,
            r2,
            r3,
        ],
    ensures
        ({
            let (t, st) = run_steps(s, 3);
            &&& st == Status::Running
            &&& t.pc == 12
            &&& t.registers[r3 as int] == exact_arith(op, a as int, b as int)
            &&& op == Opcode::DIV ==> t.remainder == remainder(a as int, b as int)
        }),
{
    let p = s.program;
    lemma_immediate_word(a as int);
    lemma_immediate_word(b as int);
    assert(p.len() == 12);
    assert(p[0] == opcode_code(Opcode::LOAD) && p[1] == r1);
    assert(p[2] == word_bytes(a as int)[0] && p[3] == word_bytes(a as int)[1]);
    assert(p[4] == opcode_code(Opcode::LOAD) && p[5] == r2);
    assert(p[6] == word_bytes(b as int)[0] && p[7] == word_bytes(b as int)[1]);
    assert(p[8] == opcode_code(op) && p[9] == r1 && p[10] == r2 && p[11] == r3);
    let (s1, st1) = step(s);
    assert(st1 == Status::Running);
    assert(s1.registers[r1 as int] == a);
    let (s2, st2) = step(s1);
    assert(st2 == Status::Running);
    assert(s2.registers[r1 as int] == a);
    assert(s2.registers[r2 as int] == b);
    let (s3, st3) = step(s2);
    let x = a as int;
    let y = b as int;
    if op == Opcode::MUL {
        assert(-0x4000_0000 <= x * y <= 0x4000_0000) by (nonlinear_arith)
            requires
                -0x8000 <= x <= 0x7FFF,
                -0x8000 <= y <= 0x7FFF,
        ;
    }
    if op == Opcode::DIV {
        assert(abs(x) / abs(y) <= abs(x)) by (nonlinear_arith)
            requires
                abs(y) >= 1,
                abs(x) >= 0,
        ;
        assert(abs(x) % abs(y) < abs(y));
    }
    assert(st3 == Status::Running);
    assert(s3.registers[r3 as int] == exact_arith(op, x, y));
    assert(run_steps(s3, 0) == (s3, Status::Running));
    assert(run_steps(s2, 1) == (s3, st3));
    assert(run_steps(s1, 2) == run_steps(s2, 1));
}

/// Every comparison, when it executes, moves `pc` exactly 4 bytes on: it
/// reads two register operands and skips the third byte.
pub proof fn lemma_comparison_alignment(s: Machine)
    requires
        s.pc < s.program.len() <= usize::MAX,
        is_comparison(opcode_of(s.program[s.pc as int])),
        step(s).1 == Status::Running,
    ensures
        step(s).0.pc == s.pc + 4,
        step(s).0.registers == s.registers,
        step(s).0.program == s.program,
{
}

/// `JMP $r` at `pc` with register `r` holding `pc` is a fixed point: each
/// step returns the machine unchanged, so a run never ends by itself and
/// every bounded run ends `Running` where it began.
pub proof fn lemma_jump_to_self(s: Machine, r: u8, fuel: nat)
    requires
        valid_register(r),
        s.registers.len() == MAX_REGISTERS,
        s.pc + 4 <= s.program.len(),
        s.program[s.pc as int] == opcode_code(Opcode::JMP),
        s.program[s.pc + 1] == r,
        s.registers[r as int] == s.pc,
    ensures
        step(s) == (s, Status::Running),
        run_steps(s, fuel) == (s, Status::Running),
    decreases fuel,
{
    if fuel > 0 {
        lemma_jump_to_self(s, r, (fuel - 1) as nat);
    }
}

impl VM {
    /// A machine with zeroed registers, no program, a clear flag and an
    /// empty heap.
    pub fn new() -> (r: VM)
        ensures
            r@ == initial_machine(),
    {
        let r = VM {
            registers: [0; MAX_REGISTERS],
            pc: 0,
            program: Vec::new(),
            remainder: 0,
            equal_flag: false,
            heap: Vec::new(),
        };
        assert(r@.registers =~= initial_machine().registers);
        assert(r.program@ =~= Seq::<u8>::empty());
        assert(r.heap@ =~= Seq::<u8>::empty());
        r
    }

    /// Runs until a step does not end `Running`: `HLT`, an illegal opcode,
    /// the end of the program or a fault. The number of steps is bounded
    /// by `u64::MAX`, which no program reaches in practice.
    pub fn run(&mut self) -> (r: Status)
        ensures
            (final(self)@, r) == run_steps(old(self)@, u64::MAX as nat),
    {
        self.run_for(u64::MAX)
    }

    /// Runs at most `max_steps` steps, stopping early as `run` does;
    /// `Running` when the steps ran out first.
    pub fn run_for(&mut self, max_steps: u64) -> (r: Status)
        ensures
            (final(self)@, r) == run_steps(old(self)@, max_steps as nat),
    {
        let mut left: u64 = max_steps;
        loop
            invariant
                run_steps(self@, left as nat) == run_steps(old(self)@, max_steps as nat),
            decreases left,
        {
            if left == 0 {
                return Status::Running;
            }
            let st = self.execute_instruction();
            left = left - 1;
            if st != Status::Running {
                return st;
            }
        }
    }

    /// Executes one instruction.
    pub fn run_once(&mut self) -> (r: Status)
        ensures
            (final(self)@, r) == step(old(self)@),
    {
        self.execute_instruction()
    }

    /// Appends one byte to the program.
    pub fn add_byte(&mut self, v: u8)
        ensures
            final(self)@ == (Machine { program: old(self)@.program.push(v), ..old(self)@ }),
    {
        self.program.push(v);
    }

    /// Appends code to the program: the code section of an executable, or
    /// else the bytes as they are.
    pub fn add_bytes(&mut self, v: &[u8])
        ensures
            final(self)@ == (Machine { program: old(self)@.program + loaded_code(v@), ..old(self)@ }),
    {
        let from: usize = if has_header(v) {
            BIN_HEADER_LENGTH
        } else {
            0
        };
        let ghost code = v@.skip(from as int);
        let ghost start = self.program@;
        let mut i: usize = from;
        while i < v.len()
            invariant
                from <= i <= v@.len(),
                code == v@.skip(from as int),
                self@ == (Machine { program: start + code.take(i - from), ..old(self)@ }),
            decreases v.len() - i,
        {
            proof {
                assert(code.take(i + 1 - from) =~= code.take(i - from).push(v@[i as int]));
                assert(start + code.take(i + 1 - from) =~= (start + code.take(i - from)).push(
                    v@[i as int],
                ));
            }
            self.program.push(v[i]);
            i = i + 1;
        }
        proof {
            assert(code.take(v@.len() - from) =~= code);
            assert(v@.skip(0) =~= v@);
        }
    }

    /// The value of register `i`.
    pub fn register(&self, i: usize) -> (r: i32)
        requires
            i < MAX_REGISTERS,
        ensures
            r == self.registers@[i as int],
    {
        self.registers[i]
    }

    /// The register file, in order.
    pub fn registers(&self) -> (r: Registers)
        ensures
            r.values@ == self.registers@,
            r.index == 0,
    {
        Registers::new(self)
    }

    /// One fetch-decode-execute step.
    fn execute_instruction(&mut self) -> (r: Status)
        ensures
            (final(self)@, r) == step(old(self)@),
    {
        if self.pc >= self.program.len() {
            return Status::EndOfProgram;
        }
        let start = self.pc;
        let op = self.decode_opcode();
        match op {
            Opcode::HLT => Status::Halted,
            Opcode::IGL => Status::IllegalOpcode(start),
            _ => {
                if self.program.len() - start < INSTRUCTION_WIDTH {
                    self.pc = start;
                    return Status::Faulted(Fault { kind: FaultKind::TruncatedInstruction, offset: start });
                }
                self.execute_operation(op, start)
            },
        }
    }

    /// Executes `op`, whose opcode byte at `start` has been read.
    fn execute_operation(&mut self, op: Opcode, start: usize) -> (r: Status)
        requires
            old(self).pc == start + 1,
            start + 4 <= old(self).program.len(),
            op == opcode_of(old(self).program@[start as int]),
            op != Opcode::HLT,
            op != Opcode::IGL,
        ensures
            (final(self)@, r) == execute(Machine { pc: start, ..old(self)@ }, op),
    {
        let ghost s = Machine { pc: start, ..self@ };
        if op == Opcode::LOAD {
            let reg = self.next_8_bits();
            if reg as usize >= MAX_REGISTERS {
                self.pc = start;
                return Status::Faulted(Fault { kind: FaultKind::InvalidRegister, offset: start });
            }
            let num = self.next_16_bits();
            let value: i32 = if num >= 0x8000 {
                num as i32 - 0x10000
            } else {
                num as i32
            };
            self.registers[reg as usize] = value;
            self.pc = start + INSTRUCTION_WIDTH;
            return Status::Running;
        }
        if op == Opcode::ADD || op == Opcode::SUB || op == Opcode::MUL || op == Opcode::DIV {
            return self.execute_arith(op, start);
        }
        if op == Opcode::EQ || op == Opcode::NEQ || op == Opcode::GT || op == Opcode::GTE || op
            == Opcode::LT || op == Opcode::LTE {
            let x = match self.read_register() {
                Some(x) => x,
                None => {
                    self.pc = start;
                    return Status::Faulted(Fault { kind: FaultKind::InvalidRegister, offset: start });
                },
            };
            let y = match self.read_register() {
                Some(y) => y,
                None => {
                    self.pc = start;
                    return Status::Faulted(Fault { kind: FaultKind::InvalidRegister, offset: start });
                },
            };
            self.equal_flag = match op {
                Opcode::EQ => x == y,
                Opcode::NEQ => x != y,
                Opcode::GT => x > y,
                Opcode::GTE => x >= y,
                Opcode::LT => x < y,
                _ => x <= y,
            };
            // The third byte only pads the word to 4 bytes.
            self.next_8_bits();
            return Status::Running;
        }
        let v = match self.read_register() {
            Some(v) => v,
            None => {
                self.pc = start;
                return Status::Faulted(Fault { kind: FaultKind::InvalidRegister, offset: start });
            },
        };
        let reg = self.program[start + 1] as usize;
        match op {
            Opcode::JMP => self.jump_to(v as i128, start),
            Opcode::JMPF => self.jump_to(start as i128 + 2 + v as i128, start),
            Opcode::JMPB => self.jump_to(start as i128 + 2 - v as i128, start),
            Opcode::JEQ => {
                if self.equal_flag {
                    self.jump_to(v as i128, start)
                } else {
                    self.pc = start + INSTRUCTION_WIDTH;
                    Status::Running
                }
            },
            Opcode::JNEQ => {
                if !self.equal_flag {
                    self.jump_to(v as i128, start)
                } else {
                    self.pc = start + INSTRUCTION_WIDTH;
                    Status::Running
                }
            },
            Opcode::ALOC => {
                if v < 0 || v as usize > usize::MAX - self.heap.len() {
                    self.pc = start;
                    return Status::Faulted(Fault { kind: FaultKind::InvalidAllocation, offset: start });
                }
                let new_len = self.heap.len() + v as usize;
                self.heap.resize(new_len, 0u8);
                proof {
                    assert(self.heap@ =~= s.heap + Seq::new(v as nat, |i: int| 0u8));
                }
                self.pc = start + INSTRUCTION_WIDTH;
                Status::Running
            },
            Opcode::INC => {
                self.registers[reg] = v.wrapping_add(1);
                self.pc = start + INSTRUCTION_WIDTH;
                Status::Running
            },
            _ => {
                self.registers[reg] = v.wrapping_sub(1);
                self.pc = start + INSTRUCTION_WIDTH;
                Status::Running
            },
        }
    }

    /// Executes an arithmetic opcode whose opcode byte at `start` has been read.
    fn execute_arith(&mut self, op: Opcode, start: usize) -> (r: Status)
        requires
            old(self).pc == start + 1,
            start + 4 <= old(self).program.len(),
            is_arith(op),
        ensures
            (final(self)@, r) == execute(Machine { pc: start, ..old(self)@ }, op),
    {
        let x = match self.read_register() {
            Some(x) => x,
            None => {
                self.pc = start;
                return Status::Faulted(Fault { kind: FaultKind::InvalidRegister, offset: start });
            },
        };
        let y = match self.read_register() {
            Some(y) => y,
            None => {
                self.pc = start;
                return Status::Faulted(Fault { kind: FaultKind::InvalidRegister, offset: start });
            },
        };
        let d = self.next_8_bits() as usize;
        if d >= MAX_REGISTERS {
            self.pc = start;
            return Status::Faulted(Fault { kind: FaultKind::InvalidRegister, offset: start });
        }
        match op {
            Opcode::ADD => {
                self.registers[d] = x.wrapping_add(y);
            },
            Opcode::SUB => {
                self.registers[d] = x.wrapping_sub(y);
            },
            Opcode::MUL => {
                self.registers[d] = x.wrapping_mul(y);
            },
            _ => {
                if y == 0 {
                    self.pc = start;
                    return Status::Faulted(Fault { kind: FaultKind::DivideByZero, offset: start });
                }
                let (q, m) = divide(x, y);
                self.registers[d] = q;
                self.remainder = m;
            },
        }
        Status::Running
    }

    /// Moves `pc` to `target`, or faults when it is no address.
    fn jump_to(&mut self, target: i128, start: usize) -> (r: Status)
        ensures
            (final(self)@, r) == jump(Machine { pc: start, ..old(self)@ }, target as int),
    {
        if target < 0 || target > usize::MAX as i128 {
            self.pc = start;
            Status::Faulted(Fault { kind: FaultKind::InvalidJumpTarget, offset: start })
        } else {
            self.pc = target as usize;
            Status::Running
        }
    }

    /// Reads the opcode at `pc` and moves past it.
    fn decode_opcode(&mut self) -> (r: Opcode)
        requires
            old(self).pc < old(self).program.len(),
        ensures
            r == opcode_of(old(self).program@[old(self).pc as int]),
            final(self)@ == (Machine { pc: (old(self).pc + 1) as usize, ..old(self)@ }),
    {
        let opcode = Opcode::decode(self.program[self.pc]);
        self.pc = self.pc + 1;
        opcode
    }

    /// Reads the byte at `pc` and moves past it.
    fn next_8_bits(&mut self) -> (r: u8)
        requires
            old(self).pc < old(self).program.len(),
        ensures
            r == old(self).program@[old(self).pc as int],
            final(self)@ == (Machine { pc: (old(self).pc + 1) as usize, ..old(self)@ }),
    {
        let result = self.program[self.pc];
        self.pc = self.pc + 1;
        result
    }

    /// Reads the big-endian 16-bit word at `pc` and moves past it.
    fn next_16_bits(&mut self) -> (r: u16)
        requires
            old(self).pc + 2 <= old(self).program.len(),
        ensures
            r == old(self).program@[old(self).pc as int] as int * 256 + old(self).program@[old(
                self,
            ).pc + 1] as int,
            final(self)@ == (Machine { pc: (old(self).pc + 2) as usize, ..old(self)@ }),
    {
        let hi = self.program[self.pc] as u16;
        let lo = self.program[self.pc + 1] as u16;
        self.pc = self.pc + 2;
        hi * 256 + lo
    }

    /// Reads a register operand at `pc` and moves past it: the register's
    /// value, or `None` when the operand names no register.
    fn read_register(&mut self) -> (r: Option<i32>)
        requires
            old(self).pc < old(self).program.len(),
        ensures
            ({
                let b = old(self).program@[old(self).pc as int];
                r == if valid_register(b) {
                    Some(old(self).registers@[b as int])
                } else {
                    None::<i32>
                }
            }),
            final(self)@ == (Machine { pc: (old(self).pc + 1) as usize, ..old(self)@ }),
    {
        let i = self.next_8_bits() as usize;
        if i < MAX_REGISTERS {
            Some(self.registers[i])
        } else {
            None
        }
    }
}

/// Division rounded toward zero, and its remainder; the one quotient that
/// does not fit, `i32::MIN / -1`, wraps to `i32::MIN`.
fn divide(x: i32, y: i32) -> (r: (i32, i32))
    requires
        y != 0,
    ensures
        r.0 == i32_specs::signed_crop(quotient(x as int, y as int)),
        r.1 == remainder(x as int, y as int),
{
    let q = match x.checked_div(y) {
        Some(q) => q,
        None => i32::MIN,
    };
    let m = match x.checked_rem(y) {
        Some(m) => m,
        None => 0,
    };
    proof {
        let a = abs(x as int);
        let b = abs(y as int);
        assert(0 <= a % b < b);
        if x == 0 {
            vstd::arithmetic::div_mod::lemma_small_mod(0, b as nat);
        }
        if y == -1 {
            assert(b == 1);
            assert(a % 1 == 0);
        }
    }
    (q, m)
}

/// A snapshot of the register file, read one value at a time in register
/// order.
pub struct Registers {
    pub values: [i32; MAX_REGISTERS],
    pub index: usize,
}

impl Registers {
    fn new(vm: &VM) -> (r: Registers)
        ensures
            r.values@ == vm.registers@,
            r.index == 0,
    {
        Registers { values: vm.registers, index: 0 }
    }

    /// The next register value, or `None` after the last register.
    pub fn next(&mut self) -> (r: Option<i32>)
        ensures
            old(self).index < MAX_REGISTERS ==> r == Some(old(self).values@[old(self).index as int])
                && final(self).index == old(self).index + 1,
            old(self).index >= MAX_REGISTERS ==> r == None::<i32> && final(self).index == old(
                self,
            ).index,
            final(self).values == old(self).values,
    {
        if self.index < MAX_REGISTERS {
            let result = self.values[self.index];
            self.index = self.index + 1;
            Some(result)
        } else {
            None
        }
    }
}

} // verus!
