use vstd::prelude::*;

verus! {

/// The operations of the virtual machine. Each one is encoded as one byte
/// (see `opcode_code`); every byte decodes to exactly one opcode, and bytes
/// that name no operation decode to `IGL`.
#[derive(Clone, Copy, Debug, PartialEq, Eq, Structural)]
pub enum Opcode {
    /// Stop execution.
    HLT,
    /// `LOAD $r #n`: load a sign-extended 16-bit immediate into a register.
    LOAD,
    /// `ADD $a $b $d`: `$d = $a + $b`.
    ADD,
    /// `MUL $a $b $d`: `$d = $a * $b`.
    MUL,
    /// `SUB $a $b $d`: `$d = $a - $b`.
    SUB,
    /// `DIV $a $b $d`: `$d = $a / $b`; the remainder goes to the remainder register.
    DIV,
    /// `JMP $r`: absolute jump to the byte offset held in `$r`.
    JMP,
    /// `JMPF $r`: relative jump forward by `$r` bytes.
    JMPF,
    /// `JMPB $r`: relative jump backward by `$r` bytes.
    JMPB,
    /// `EQ $a $b`: equality flag = `$a == $b`.
    EQ,
    /// `NEQ $a $b`: equality flag = `$a != $b`.
    NEQ,
    /// `GT $a $b`: equality flag = `$a > $b`.
    GT,
    /// `GTE $a $b`: equality flag = `$a >= $b`.
    GTE,
    /// `LT $a $b`: equality flag = `$a < $b`.
    LT,
    /// `LTE $a $b`: equality flag = `$a <= $b`.
    LTE,
    /// `JEQ $r`: absolute jump to `$r` when the equality flag is set.
    JEQ,
    /// `JNEQ $r`: absolute jump to `$r` when the equality flag is clear.
    JNEQ,
    /// `ALOC $r`: grow the heap by `$r` zero bytes.
    ALOC,
    /// `INC $r`: `$r = $r + 1`.
    INC,
    /// `DEC $r`: `$r = $r - 1`.
    DEC,
    /// Illegal: any byte that names no operation.
    IGL,
}

/// The byte that encodes an opcode.
pub open spec fn opcode_code(op: Opcode) -> u8 {
    match op {
        Opcode::HLT => 0,
        Opcode::LOAD => 1,
        Opcode::ADD => 2,
        Opcode::MUL => 3,
        Opcode::SUB => 4,
        Opcode::DIV => 5,
        Opcode::JMP => 6,
        Opcode::JMPF => 7,
        Opcode::JMPB => 8,
        Opcode::EQ => 9,
        Opcode::NEQ => 10,
        Opcode::GT => 11,
        Opcode::GTE => 12,
        Opcode::LT => 13,
        Opcode::LTE => 14,
        Opcode::JEQ => 15,
        Opcode::JNEQ => 16,
        Opcode::ALOC => 17,
        Opcode::INC => 18,
        Opcode::DEC => 19,
        Opcode::IGL => 255,
    }
}

/// The opcode that a byte decodes to: total, with `IGL` for unassigned bytes.
pub open spec fn opcode_of(b: u8) -> Opcode {
    if b == 0 {
        Opcode::HLT
    } else if b == 1 {
        Opcode::LOAD
    } else if b == 2 {
        Opcode::ADD
    } else if b == 3 {
        Opcode::MUL
    } else if b == 4 {
        Opcode::SUB
    } else if b == 5 {
        Opcode::DIV
    } else if b == 6 {
        Opcode::JMP
    } else if b == 7 {
        Opcode::JMPF
    } else if b == 8 {
        Opcode::JMPB
    } else if b == 9 {
        Opcode::EQ
    } else if b == 10 {
        Opcode::NEQ
    } else if b == 11 {
        Opcode::GT
    } else if b == 12 {
        Opcode::GTE
    } else if b == 13 {
        Opcode::LT
    } else if b == 14 {
        Opcode::LTE
    } else if b == 15 {
        Opcode::JEQ
    } else if b == 16 {
        Opcode::JNEQ
    } else if b == 17 {
        Opcode::ALOC
    } else if b == 18 {
        Opcode::INC
    } else if b == 19 {
        Opcode::DEC
    } else {
        Opcode::IGL
    }
}

/// Decoding the byte of an opcode gives the opcode back.
pub proof fn lemma_code_round_trip(op: Opcode)
    ensures
        opcode_of(opcode_code(op)) == op,
{
}

/// The upper-case ASCII spelling of each opcode's mnemonic.
pub open spec fn mnemonic(op: Opcode) -> Seq<char> {
    match op {
        Opcode::HLT => seq!['H', 'L', 'T'],
        Opcode::LOAD => seq!['L', 'O', 'A', 'D'],
        Opcode::ADD => seq!['A', 'D', 'D'],
        Opcode::MUL => seq!['M', 'U', 'L'],
        Opcode::SUB => seq!['S', 'U', 'B'],
        Opcode::DIV => seq!['D', 'I', 'V'],
        Opcode::JMP => seq!['J', 'M', 'P'],
        Opcode::JMPF => seq!['J', 'M', 'P', 'F'],
        Opcode::JMPB => seq!['J', 'M', 'P', 'B'],
        Opcode::EQ => seq!['E', 'Q'],
        Opcode::NEQ => seq!['N', 'E', 'Q'],
        Opcode::GT => seq!['G', 'T'],
        Opcode::GTE => seq!['G', 'T', 'E'],
        Opcode::LT => seq!['L', 'T'],
        Opcode::LTE => seq!['L', 'T', 'E'],
        Opcode::JEQ => seq!['J', 'E', 'Q'],
        Opcode::JNEQ => seq!['J', 'N', 'E', 'Q'],
        Opcode::ALOC => seq!['A', 'L', 'O', 'C'],
        Opcode::INC => seq!['I', 'N', 'C'],
        Opcode::DEC => seq!['D', 'E', 'C'],
        Opcode::IGL => seq!['I', 'G', 'L'],
    }
}

/// The upper-case form of a text, as `str::to_uppercase` gives it: Unicode
/// case mapping, character by character.
pub uninterp spec fn upper_of(s: Seq<char>) -> Seq<char>;

/// Relies on `str::to_uppercase`: the upper-case form depends on the
/// characters alone.
#[verifier::external_body]
fn to_upper(s: &str) -> (r: String)
    ensures
        r@ == upper_of(s@),
{
    s.to_uppercase()
}

/// The opcode whose upper-case mnemonic is exactly `u`; `IGL` when none is.
pub open spec fn opcode_spelled(u: Seq<char>) -> Opcode {
    if u == mnemonic(Opcode::HLT) {
        Opcode::HLT
    } else if u == mnemonic(Opcode::LOAD) {
        Opcode::LOAD
    } else if u == mnemonic(Opcode::ADD) {
        Opcode::ADD
    } else if u == mnemonic(Opcode::MUL) {
        Opcode::MUL
    } else if u == mnemonic(Opcode::SUB) {
        Opcode::SUB
    } else if u == mnemonic(Opcode::DIV) {
        Opcode::DIV
    } else if u == mnemonic(Opcode::JMP) {
        Opcode::JMP
    } else if u == mnemonic(Opcode::JMPF) {
        Opcode::JMPF
    } else if u == mnemonic(Opcode::JMPB) {
        Opcode::JMPB
    } else if u == mnemonic(Opcode::EQ) {
        Opcode::EQ
    } else if u == mnemonic(Opcode::NEQ) {
        Opcode::NEQ
    } else if u == mnemonic(Opcode::GT) {
        Opcode::GT
    } else if u == mnemonic(Opcode::GTE) {
        Opcode::GTE
    } else if u == mnemonic(Opcode::LT) {
        Opcode::LT
    } else if u == mnemonic(Opcode::LTE) {
        Opcode::LTE
    } else if u == mnemonic(Opcode::JEQ) {
        Opcode::JEQ
    } else if u == mnemonic(Opcode::JNEQ) {
        Opcode::JNEQ
    } else if u == mnemonic(Opcode::ALOC) {
        Opcode::ALOC
    } else if u == mnemonic(Opcode::INC) {
        Opcode::INC
    } else if u == mnemonic(Opcode::DEC) {
        Opcode::DEC
    } else {
        Opcode::IGL
    }
}

/// The opcode named by a mnemonic in any case: the name is compared in
/// upper case, as `str::to_uppercase` gives it.
pub open spec fn opcode_named(name: Seq<char>) -> Opcode {
    opcode_spelled(upper_of(name))
}

impl Opcode {
    /// The byte that encodes this opcode.
    pub fn code(self) -> (r: u8)
        ensures
            r == opcode_code(self),
    {
        match self {
            Opcode::HLT => 0,
            Opcode::LOAD => 1,
            Opcode::ADD => 2,
            Opcode::MUL => 3,
            Opcode::SUB => 4,
            Opcode::DIV => 5,
            Opcode::JMP => 6,
            Opcode::JMPF => 7,
            Opcode::JMPB => 8,
            Opcode::EQ => 9,
            Opcode::NEQ => 10,
            Opcode::GT => 11,
            Opcode::GTE => 12,
            Opcode::LT => 13,
            Opcode::LTE => 14,
            Opcode::JEQ => 15,
            Opcode::JNEQ => 16,
            Opcode::ALOC => 17,
            Opcode::INC => 18,
            Opcode::DEC => 19,
            Opcode::IGL => 255,
        }
    }

    /// The opcode that a byte decodes to.
    pub fn decode(b: u8) -> (r: Opcode)
        ensures
            r == opcode_of(b),
    {
        match b {
            0 => Opcode::HLT,
            1 => Opcode::LOAD,
            2 => Opcode::ADD,
            3 => Opcode::MUL,
            4 => Opcode::SUB,
            5 => Opcode::DIV,
            6 => Opcode::JMP,
            7 => Opcode::JMPF,
            8 => Opcode::JMPB,
            9 => Opcode::EQ,
            10 => Opcode::NEQ,
            11 => Opcode::GT,
            12 => Opcode::GTE,
            13 => Opcode::LT,
            14 => Opcode::LTE,
            15 => Opcode::JEQ,
            16 => Opcode::JNEQ,
            17 => Opcode::ALOC,
            18 => Opcode::INC,
            19 => Opcode::DEC,
            _ => Opcode::IGL,
        }
    }

    /// The opcode named by a mnemonic in any case; `IGL` for a name that is
    /// no mnemonic.
    pub fn from_name(name: &str) -> (r: Opcode)
        ensures
            r == opcode_named(name@),
    {
        let upper = to_upper(name);
        Opcode::from_upper(upper.as_str())
    }

    /// The opcode whose upper-case mnemonic is exactly `name`.
    pub fn from_upper(name: &str) -> (r: Opcode)
        ensures
            r == opcode_spelled(name@),
    {
        let mut cs: Vec<char> = Vec::new();
        for c in it: name.chars()
            invariant
                it.seq() == name@,
                cs@ == name@.take(it.index() as int),
        {
            proof {
                assert(name@.take(it.index() + 1) =~= name@.take(it.index() as int).push(c));
            }
            cs.push(c);
        }
        proof {
            assert(name@.take(name@.len() as int) =~= name@);
        }
        let u = cs.as_slice();
        if spells_mnemonic(u, Opcode::HLT) {
            Opcode::HLT
        } else if spells_mnemonic(u, Opcode::LOAD) {
            Opcode::LOAD
        } else if spells_mnemonic(u, Opcode::ADD) {
            Opcode::ADD
        } else if spells_mnemonic(u, Opcode::MUL) {
            Opcode::MUL
        } else if spells_mnemonic(u, Opcode::SUB) {
            Opcode::SUB
        } else if spells_mnemonic(u, Opcode::DIV) {
            Opcode::DIV
        } else if spells_mnemonic(u, Opcode::JMP) {
            Opcode::JMP
        } else if spells_mnemonic(u, Opcode::JMPF) {
            Opcode::JMPF
        } else if spells_mnemonic(u, Opcode::JMPB) {
            Opcode::JMPB
        } else if spells_mnemonic(u, Opcode::EQ) {
            Opcode::EQ
        } else if spells_mnemonic(u, Opcode::NEQ) {
            Opcode::NEQ
        } else if spells_mnemonic(u, Opcode::GT) {
            Opcode::GT
        } else if spells_mnemonic(u, Opcode::GTE) {
            Opcode::GTE
        } else if spells_mnemonic(u, Opcode::LT) {
            Opcode::LT
        } else if spells_mnemonic(u, Opcode::LTE) {
            Opcode::LTE
        } else if spells_mnemonic(u, Opcode::JEQ) {
            Opcode::JEQ
        } else if spells_mnemonic(u, Opcode::JNEQ) {
            Opcode::JNEQ
        } else if spells_mnemonic(u, Opcode::ALOC) {
            Opcode::ALOC
        } else if spells_mnemonic(u, Opcode::INC) {
            Opcode::INC
        } else if spells_mnemonic(u, Opcode::DEC) {
            Opcode::DEC
        } else {
            Opcode::IGL
        }
    }
}

impl From<u8> for Opcode {
    fn from(b: u8) -> (r: Opcode) {
        Opcode::decode(b)
    }
}

impl vstd::std_specs::convert::FromSpecImpl<u8> for Opcode {
    open spec fn obeys_from_spec() -> bool {
        true
    }

    open spec fn from_spec(b: u8) -> Opcode {
        opcode_of(b)
    }
}

impl From<Opcode> for u8 {
    fn from(op: Opcode) -> (r: u8) {
        op.code()
    }
}

impl vstd::std_specs::convert::FromSpecImpl<Opcode> for u8 {
    open spec fn obeys_from_spec() -> bool {
        true
    }

    open spec fn from_spec(op: Opcode) -> u8 {
        opcode_code(op)
    }
}

impl<'a> From<&'a str> for Opcode {
    fn from(name: &'a str) -> (r: Opcode) {
        Opcode::from_name(name)
    }
}

impl<'a> vstd::std_specs::convert::FromSpecImpl<&'a str> for Opcode {
    open spec fn obeys_from_spec() -> bool {
        true
    }

    open spec fn from_spec(name: &'a str) -> Opcode {
        opcode_named(name@)
    }
}

/// The mnemonic of an opcode, in upper case.
fn mnemonic_chars(op: Opcode) -> (r: Vec<char>)
    ensures
        r@ == mnemonic(op),
{
    match op {
        Opcode::HLT => vec!['H', 'L', 'T'],
        Opcode::LOAD => vec!['L', 'O', 'A', 'D'],
        Opcode::ADD => vec!['A', 'D', 'D'],
        Opcode::MUL => vec!['M', 'U', 'L'],
        Opcode::SUB => vec!['S', 'U', 'B'],
        Opcode::DIV => vec!['D', 'I', 'V'],
        Opcode::JMP => vec!['J', 'M', 'P'],
        Opcode::JMPF => vec!['J', 'M', 'P', 'F'],
        Opcode::JMPB => vec!['J', 'M', 'P', 'B'],
        Opcode::EQ => vec!['E', 'Q'],
        Opcode::NEQ => vec!['N', 'E', 'Q'],
        Opcode::GT => vec!['G', 'T'],
        Opcode::GTE => vec!['G', 'T', 'E'],
        Opcode::LT => vec!['L', 'T'],
        Opcode::LTE => vec!['L', 'T', 'E'],
        Opcode::JEQ => vec!['J', 'E', 'Q'],
        Opcode::JNEQ => vec!['J', 'N', 'E', 'Q'],
        Opcode::ALOC => vec!['A', 'L', 'O', 'C'],
        Opcode::INC => vec!['I', 'N', 'C'],
        Opcode::DEC => vec!['D', 'E', 'C'],
        Opcode::IGL => vec!['I', 'G', 'L'],
    }
}

/// Whether `name` is exactly the mnemonic of `op`.
fn spells_mnemonic(name: &[char], op: Opcode) -> (r: bool)
    ensures
        r == (name@ == mnemonic(op)),
{
    let m = mnemonic_chars(op);
    if name.len() != m.len() {
        return false;
    }
    let mut i: usize = 0;
    while i < m.len()
        invariant
            name@.len() == m@.len(),
            m@ == mnemonic(op),
            i <= m.len(),
            forall|j: int| 0 <= j < i ==> name@[j] == m@[j],
        decreases m.len() - i,
    {
        if name[i] != m[i] {
            return false;
        }
        i = i + 1;
    }
    assert(name@ =~= m@);
    true
}

} // verus!
