//! An instruction known by its opcode, over a reduced opcode set: loads,
//! arithmetic, jumps and comparisons, with no flag jumps or heap operations.

use vstd::prelude::*;

verus! {

/// The opcodes of the first instruction table.
#[derive(Clone, Copy, Debug, PartialEq, Eq, Structural)]
pub enum Opcode {
    HLT,
    IGL,
    LOAD,
    ADD,
    MUL,
    SUB,
    DIV,
    JMP,
    JMPF,
    JMPB,
    EQ,
    NEQ,
    GT,
    GTE,
    LT,
    LTE,
}

/// The opcode a byte decodes to in this table; `IGL` for unassigned bytes.
pub open spec fn opcode_of(b: u8) -> Opcode {
    if b == 0 {
        Opcode::HLT
    } else if b == 1 {
        Opcode::LOAD
    } else if b == 2 {
        Opcode::ADD
    } else if b == 3 {
        Opcode::MUL
    } else if b == 4 {
        Opcode::SUB
    } else if b == 5 {
        Opcode::DIV
    } else if b == 6 {
        Opcode::JMP
    } else if b == 7 {
        Opcode::JMPF
    } else if b == 8 {
        Opcode::JMPB
    } else if b == 9 {
        Opcode::EQ
    } else if b == 10 {
        Opcode::NEQ
    } else if b == 11 {
        Opcode::GT
    } else if b == 12 {
        Opcode::GTE
    } else if b == 13 {
        Opcode::LT
    } else if b == 14 {
        Opcode::LTE
    } else {
        Opcode::IGL
    }
}

/// An instruction, known by its opcode.
#[derive(Debug, PartialEq, Eq, Structural)]
pub struct Instruction {
    pub opcode: Opcode,
}

impl Instruction {
    pub fn new(opcode: Opcode) -> (r: Instruction)
        ensures
            r.opcode == opcode,
    {
        Instruction { opcode }
    }
}

impl From<u8> for Opcode {
    fn from(v: u8) -> (r: Opcode) {
        match v {
            0 => Opcode::HLT,
            1 => Opcode::LOAD,
            2 => Opcode::ADD,
            3 => Opcode::MUL,
            4 => Opcode::SUB,
            5 => Opcode::DIV,
            6 => Opcode::JMP,
            7 => Opcode::JMPF,
            8 => Opcode::JMPB,
            9 => Opcode::EQ,
            10 => Opcode::NEQ,
            11 => Opcode::GT,
            12 => Opcode::GTE,
            13 => Opcode::LT,
            14 => Opcode::LTE,
            _ => Opcode::IGL,
        }
    }
}

impl vstd::std_specs::convert::FromSpecImpl<u8> for Opcode {
    open spec fn obeys_from_spec() -> bool {
        true
    }

    open spec fn from_spec(v: u8) -> Opcode {
        opcode_of(v)
    }
}

} // verus!
