//! The two-pass assembler: source text is parsed into a `Program`, the first
//! pass records the byte offset of every label, and the second pass encodes
//! each record into its 4-byte word.

pub mod assembly_instruction;
pub mod parsers;
pub mod program;
pub mod symbols;
pub mod token;

use vstd::prelude::*;

use assembly_instruction::{encode_record, record_content, EncodeError, RecordView, MAX_LABEL_OFFSET};
use parsers::{lemma_program_fits, parse_program, parse_program_spec, ParseError};
use program::{encode_program, lemma_program_words, Program};
use symbols::{SymbolInfo, SymbolTable, SymbolType};
use crate::opcode::{opcode_code, Opcode};
use crate::vm::{loaded_code, run_steps, Machine};
use token::{word_bytes, TokenView};

verus! {

/// Why a program could not be assembled.
#[derive(Clone, Copy, Debug, PartialEq, Eq, Structural)]
pub enum AssemblerError {
    /// The source text does not follow the grammar.
    Parse(ParseError),
    /// The record at `index` declares a label that an earlier record declared.
    DuplicateLabel { index: usize },
    /// The record at `index` cannot be encoded.
    Encode { index: usize, error: EncodeError },
    /// The program has more records than 32-bit label offsets can address.
    TooLarge,
}

/// Length of the executable header that precedes the code section.
pub const BIN_HEADER_LENGTH: usize = 64;

/// Offset of the magic number in the header.
pub const BIN_HEADER_OFFSET: usize = 0;

/// The magic number that opens every executable: "AZAD" in ASCII.
pub const BIN_HEADER_PREFIX: [u8; 4] = [0x41, 0x5A, 0x41, 0x44];

/// Offset of the format version in the header.
pub const BIN_VERSION_OFFSET: usize = 4;

/// The format version written into the header.
pub const BIN_VERSION: u8 = 1;

/// The executable header: the magic number, the version, and zeros up to
/// `BIN_HEADER_LENGTH` bytes.
pub open spec fn header_bytes() -> Seq<u8> {
    Seq::new(
        64,
        |i: int|
            if i == 0 {
                0x41u8
            } else if i == 1 {
                0x5Au8
            } else if i == 2 {
                0x41u8
            } else if i == 3 {
                0x44u8
            } else if i == 4 {
                1u8
            } else {
                0u8
            },
    )
}

/// Whether `bytes` is an executable: it opens with the header.
pub open spec fn is_executable(bytes: Seq<u8>) -> bool {
    bytes.len() >= 64 && bytes.take(64) == header_bytes()
}

/// Builds the executable header.
fn header() -> (r: Vec<u8>)
    ensures
        r@ == header_bytes(),
{
    let mut header: Vec<u8> = Vec::new();
    let mut i: usize = 0;
    while i < BIN_HEADER_LENGTH
        invariant
            i <= BIN_HEADER_LENGTH,
            header@ == header_bytes().take(i as int),
        decreases BIN_HEADER_LENGTH - i,
    {
        let b: u8 = if i < BIN_VERSION_OFFSET {
            BIN_HEADER_PREFIX[i]
        } else if i == BIN_VERSION_OFFSET {
            BIN_VERSION
        } else {
            0
        };
        proof {
            assert(header_bytes().take(i + 1) =~= header_bytes().take(i as int).push(b));
        }
        header.push(b);
        i = i + 1;
    }
    proof {
        assert(header_bytes().take(64) =~= header_bytes());
    }
    header
}

/// Whether `bytes` opens with the executable header.
pub fn has_header(bytes: &[u8]) -> (r: bool)
    ensures
        r == is_executable(bytes@),
{
    if bytes.len() < BIN_HEADER_LENGTH {
        return false;
    }
    let header = header();
    let mut i: usize = 0;
    while i < BIN_HEADER_LENGTH
        invariant
            bytes@.len() >= 64,
            header@ == header_bytes(),
            i <= BIN_HEADER_LENGTH,
            forall|j: int| 0 <= j < i ==> bytes@[j] == header_bytes()[j],
        decreases BIN_HEADER_LENGTH - i,
    {
        if bytes[i] != header[i] {
            proof {
                assert(bytes@.take(64)[i as int] != header_bytes()[i as int]);
            }
            return false;
        }
        i = i + 1;
    }
    proof {
        assert(bytes@.take(64) =~= header_bytes());
    }
    true
}

/// Most records a program may have: label offsets are 32-bit.
pub const MAX_PROGRAM_RECORDS: usize = 0x4000_0000;

/// Which pass the assembler has reached.
#[derive(Clone, Copy, Debug, PartialEq, Eq, Structural)]
pub enum AssemblerPass {
    /// Collecting the offsets of labels.
    First,
    /// Encoding records, with every label known.
    Second,
}

/// Where a section starts and how long it is, once known.
#[derive(Clone, Copy, Debug, PartialEq, Eq, Structural)]
pub struct Section {
    pub start: Option<usize>,
    pub size: Option<usize>,
}

/// The section that a `.code` or `.data` directive opens.
#[derive(Clone, Copy, Debug, PartialEq, Eq, Structural)]
pub enum AssemblerSection {
    /// Code.
    Code(Section),
    /// Initialised read/write data.
    Data(Section),
    Unknown,
}

impl AssemblerSection {
    /// The section a directive name opens: `code`, `data`, or neither.
    pub fn from_name(name: &str) -> (r: AssemblerSection)
        ensures
            r == (if name@ == seq!['c', 'o', 'd', 'e'] {
                AssemblerSection::Code(Section { start: None, size: None })
            } else if name@ == seq!['d', 'a', 't', 'a'] {
                AssemblerSection::Data(Section { start: None, size: None })
            } else {
                AssemblerSection::Unknown
            }),
    {
        let mut cs: Vec<char> = Vec::new();
        for c in it: name.chars()
            invariant
                it.seq() == name@,
                cs@ == name@.take(it.index() as int),
        {
            proof {
                assert(name@.take(it.index() + 1) =~= name@.take(it.index() as int).push(c));
            }
            cs.push(c);
        }
        proof {
            assert(name@.take(name@.len() as int) =~= name@);
        }
        let empty = Section { start: None, size: None };
        if cs.len() == 4 && cs[0] == 'c' && cs[1] == 'o' && cs[2] == 'd' && cs[3] == 'e' {
            assert(cs@ =~= seq!['c', 'o', 'd', 'e']);
            AssemblerSection::Code(empty)
        } else if cs.len() == 4 && cs[0] == 'd' && cs[1] == 'a' && cs[2] == 't' && cs[3] == 'a' {
            assert(cs@ =~= seq!['d', 'a', 't', 'a']);
            AssemblerSection::Data(empty)
        } else {
            AssemblerSection::Unknown
        }
    }
}

impl Default for AssemblerSection {
    fn default() -> (r: AssemblerSection)
        ensures
            r == AssemblerSection::Unknown,
    {
        AssemblerSection::Unknown
    }
}

impl<'a> From<&'a str> for AssemblerSection {
    fn from(name: &'a str) -> (r: AssemblerSection) {
        AssemblerSection::from_name(name)
    }
}

impl<'a> vstd::std_specs::convert::FromSpecImpl<&'a str> for AssemblerSection {
    open spec fn obeys_from_spec() -> bool {
        true
    }

    open spec fn from_spec(name: &'a str) -> AssemblerSection {
        if name@ == seq!['c', 'o', 'd', 'e'] {
            AssemblerSection::Code(Section { start: None, size: None })
        } else if name@ == seq!['d', 'a', 't', 'a'] {
            AssemblerSection::Data(Section { start: None, size: None })
        } else {
            AssemblerSection::Unknown
        }
    }
}

/// The name a record declares as a label, if any.
pub open spec fn label_of(r: RecordView) -> Option<Seq<char>> {
    match r.label {
        Some(TokenView::LabelDeclaration(name)) => Some(name),
        _ => None,
    }
}

/// The first pass: each declared label maps to the byte offset of its
/// record, 4 bytes per record; a name declared twice is refused at its
/// second declaration.
pub open spec fn symbols_of(p: Seq<RecordView>) -> Result<Map<Seq<char>, SymbolInfo>, AssemblerError>
    decreases p.len(),
{
    if p.len() == 0 {
        Ok(Map::empty())
    } else {
        match symbols_of(p.drop_last()) {
            Err(e) => Err(e),
            Ok(m) => match label_of(p.last()) {
                None => Ok(m),
                Some(name) => if m.contains_key(name) {
                    Err(AssemblerError::DuplicateLabel { index: (p.len() - 1) as usize })
                } else {
                    Ok(
                        m.insert(
                            name,
                            SymbolInfo { offset: (4 * (p.len() - 1)) as u32, symbol_type: SymbolType::Label },
                        ),
                    )
                },
            },
        }
    }
}

/// The executable that source text assembles to: the header, then the
/// program's code, encoded against the symbols of the whole program.
pub open spec fn assemble_spec(src: Seq<char>) -> Result<Seq<u8>, AssemblerError> {
    match parse_program_spec(src) {
        Err(e) => Err(AssemblerError::Parse(e)),
        Ok(p) => if p.len() > MAX_PROGRAM_RECORDS {
            Err(AssemblerError::TooLarge)
        } else {
            match symbols_of(p) {
                Err(e) => Err(e),
                Ok(m) => match encode_program(p, m) {
                    Err(e) => Err(e),
                    Ok(code) => Ok(header_bytes() + code),
                },
            }
        },
    }
}

/// Once a prefix of a program has a duplicate label, the whole program
/// fails the first pass with the same error.
pub proof fn lemma_symbols_error_stays(p: Seq<RecordView>, n: int)
    requires
        0 <= n <= p.len(),
        symbols_of(p.take(n)) is Err,
    ensures
        symbols_of(p) == symbols_of(p.take(n)),
    decreases p.len() - n,
{
    if n < p.len() {
        assert(p.take(n + 1).drop_last() =~= p.take(n));
        lemma_symbols_error_stays(p, n + 1);
    } else {
        assert(p.take(n) =~= p);
    }
}

/// After the first pass, every declared label maps to the offset of the
/// record that declares it.
pub proof fn lemma_label_offset(p: Seq<RecordView>, j: int)
    requires
        symbols_of(p) is Ok,
        0 <= j < p.len(),
        label_of(p[j]) is Some,
    ensures
        symbols_of(p)->Ok_0.contains_key(label_of(p[j])->0),
        symbols_of(p)->Ok_0[label_of(p[j])->0] == (SymbolInfo {
            offset: (4 * j) as u32,
            symbol_type: SymbolType::Label,
        }),
    decreases p.len(),
{
    let q = p.drop_last();
    let name = label_of(p[j])->0;
    if j < p.len() - 1 {
        assert(q[j] == p[j]);
        lemma_label_offset(q, j);
    }
}

/// Labels resolve forwards as well as backwards: an instruction
/// `OP $r @name` is encoded with the offset of the record that declares
/// `name`, wherever that record stands, since every record is encoded
/// against the symbols of the whole program.
pub proof fn lemma_forward_reference(
    p: Seq<RecordView>,
    i: int,
    j: int,
    op: Opcode,
    r: u8,
    name: Seq<char>,
)
    requires
        symbols_of(p) is Ok,
        0 <= i < p.len(),
        0 <= j < p.len(),
        label_of(p[j]) == Some(name),
        4 * j <= MAX_LABEL_OFFSET,
        p[i].opcode == Some(TokenView::Opcode(op)),
        p[i].operand1 == Some(TokenView::Register(r)),
        p[i].operand2 == Some(TokenView::LabelUsage(name)),
        p[i].operand3 is None,
    ensures
        encode_record(p[i], symbols_of(p)->Ok_0) == Ok::<Seq<u8>, EncodeError>(
            seq![opcode_code(op), r] + word_bytes(4 * j),
        ),
{
    lemma_label_offset(p, j);
    let m = symbols_of(p)->Ok_0;
    let c = seq![opcode_code(op)] + seq![r] + word_bytes(4 * j) + Seq::<u8>::empty();
    assert(record_content(p[i], m) == Ok::<Seq<u8>, EncodeError>(c));
    assert(c =~= seq![opcode_code(op), r] + word_bytes(4 * j));
}

/// In the executable, an instruction `OP $r @name` at record `i` occupies
/// bytes `64 + 4i .. 64 + 4i + 4`: its opcode, `r`, and the 16-bit offset
/// `4j` of the record `j` that declares `name`, whether `j` comes before or
/// after `i`.
pub proof fn lemma_forward_reference_in_executable(
    src: Seq<char>,
    i: int,
    j: int,
    op: Opcode,
    r: u8,
    name: Seq<char>,
)
    requires
        assemble_spec(src) is Ok,
        0 <= i < parse_program_spec(src)->Ok_0.len(),
        0 <= j < parse_program_spec(src)->Ok_0.len(),
        label_of(parse_program_spec(src)->Ok_0[j]) == Some(name),
        4 * j <= MAX_LABEL_OFFSET,
        parse_program_spec(src)->Ok_0[i].opcode == Some(TokenView::Opcode(op)),
        parse_program_spec(src)->Ok_0[i].operand1 == Some(TokenView::Register(r)),
        parse_program_spec(src)->Ok_0[i].operand2 == Some(TokenView::LabelUsage(name)),
        parse_program_spec(src)->Ok_0[i].operand3 is None,
    ensures
        assemble_spec(src)->Ok_0.subrange(64 + 4 * i, 64 + 4 * i + 4) == seq![opcode_code(op), r]
            + word_bytes(4 * j),
{
    let p = parse_program_spec(src)->Ok_0;
    let m = symbols_of(p)->Ok_0;
    let code = encode_program(p, m)->Ok_0;
    lemma_program_fits(src);
    lemma_program_words(p, m);
    lemma_forward_reference(p, i, j, op, r, name);
    let b = header_bytes() + code;
    assert(code.subrange(4 * i, 4 * i + 4) == encode_record(p[i], m)->Ok_0);
    assert(b.subrange(64 + 4 * i, 64 + 4 * i + 4) =~= code.subrange(4 * i, 4 * i + 4));
}

/// An executable loads as exactly its code: a machine that loads what a
/// source text assembles to holds the program's encoded words and nothing
/// of the header, the same bytes as the program encoded by hand.
pub proof fn lemma_executable_loads_code(src: Seq<char>)
    requires
        assemble_spec(src) is Ok,
    ensures
        ({
            let p = parse_program_spec(src)->Ok_0;
            &&& symbols_of(p) is Ok
            &&& encode_program(p, symbols_of(p)->Ok_0) is Ok
            &&& loaded_code(assemble_spec(src)->Ok_0) == encode_program(p, symbols_of(p)->Ok_0)->Ok_0
        }),
{
    let p = parse_program_spec(src)->Ok_0;
    let code = encode_program(p, symbols_of(p)->Ok_0)->Ok_0;
    let b = header_bytes() + code;
    assert(b.take(64) =~= header_bytes());
    assert(b.skip(64) =~= code);
}

/// Loading an executable and running it is running its program's encoded
/// words: from any machine and for any number of steps, appending what
/// source text assembles to and appending the program's code by hand give
/// the same machine and the same status.
pub proof fn lemma_executable_runs_as_code(src: Seq<char>, m: Machine, fuel: nat)
    requires
        assemble_spec(src) is Ok,
    ensures
        ({
            let p = parse_program_spec(src)->Ok_0;
            let code = encode_program(p, symbols_of(p)->Ok_0)->Ok_0;
            run_steps(Machine { program: m.program + loaded_code(assemble_spec(src)->Ok_0), ..m }, fuel)
                == run_steps(Machine { program: m.program + code, ..m }, fuel)
        }),
{
    lemma_executable_loads_code(src);
}

/// The two-pass assembler.
pub struct Assembler {
    /// The pass reached by the last assembly.
    pub pass: AssemblerPass,
    /// The labels of the last program assembled.
    pub symbol_table: SymbolTable,
}

impl Assembler {
    /// A fresh assembler, in its first pass, with no symbols.
    pub fn new() -> (r: Assembler)
        ensures
            r.wf(),
            r.pass == AssemblerPass::First,
            r.symbol_table@ == Map::<Seq<char>, SymbolInfo>::empty(),
    {
        Assembler { pass: AssemblerPass::First, symbol_table: SymbolTable::new() }
    }

    pub open spec fn wf(&self) -> bool {
        self.symbol_table.wf()
    }

    /// The executable header (see `header_bytes`).
    pub fn generate_header() -> (r: Vec<u8>)
        ensures
            r@ == header_bytes(),
    {
        header()
    }

    /// Assembles source text into an executable (see `assemble_spec`). The
    /// result depends on the text alone: symbols of earlier runs are
    /// dropped first.
    pub fn assemble(&mut self, prog: &str) -> (r: Result<Vec<u8>, AssemblerError>)
        requires
            old(self).wf(),
        ensures
            final(self).wf(),
            match assemble_spec(prog@) {
                Ok(b) => r is Ok && r->Ok_0@ == b,
                Err(e) => r == Err::<Vec<u8>, AssemblerError>(e),
            },
            parse_program_spec(prog@) is Err ==> final(self).symbol_table@ == old(
                self,
            ).symbol_table@ && final(self).pass == old(self).pass,
            r is Ok ==> final(self).symbol_table@ == symbols_of(
                parse_program_spec(prog@)->Ok_0,
            )->Ok_0 && final(self).pass == AssemblerPass::Second,
    {
        let program = match parse_program(prog) {
            Ok((_, program)) => program,
            Err(e) => return Err(AssemblerError::Parse(e)),
        };
        if program.instructions.len() > MAX_PROGRAM_RECORDS {
            return Err(AssemblerError::TooLarge);
        }
        self.run_pass1(&program)?;
        let mut code = self.run_pass2(&program)?;
        let mut executable = Assembler::generate_header();
        executable.append(&mut code);
        Ok(executable)
    }

    /// Collects the labels of `prog` into a cleared symbol table.
    fn run_pass1(&mut self, prog: &Program) -> (r: Result<(), AssemblerError>)
        requires
            old(self).wf(),
            prog@.len() <= MAX_PROGRAM_RECORDS,
        ensures
            final(self).wf(),
            match symbols_of(prog@) {
                Ok(m) => r is Ok && final(self).symbol_table@ == m && final(self).pass
                    == AssemblerPass::Second,
                Err(e) => r == Err::<(), AssemblerError>(e),
            },
    {
        self.pass = AssemblerPass::First;
        self.symbol_table.clear();
        let mut i: usize = 0;
        assert(prog@.take(0) =~= Seq::<RecordView>::empty());
        while i < prog.instructions.len()
            invariant
                self.wf(),
                i <= prog@.len() <= MAX_PROGRAM_RECORDS,
                prog@.len() == prog.instructions@.len(),
                symbols_of(prog@.take(i as int)) == Ok::<Map<Seq<char>, SymbolInfo>, AssemblerError>(
                    self.symbol_table@,
                ),
            decreases prog@.len() - i,
        {
            proof {
                assert(prog@.take(i + 1).drop_last() =~= prog@.take(i as int));
                assert(prog@.take(i + 1).last() == prog.instructions@[i as int]@);
            }
            match prog.instructions[i].get_label() {
                None => {},
                Some(name) => {
                    if self.symbol_table.lookup(&name).is_some() {
                        proof {
                            lemma_symbols_error_stays(prog@, i + 1);
                        }
                        return Err(AssemblerError::DuplicateLabel { index: i });
                    }
                    let offset: u32 = (4 * i) as u32;
                    self.symbol_table.insert(name, SymbolInfo::new(offset, SymbolType::Label));
                },
            }
            i = i + 1;
        }
        proof {
            assert(prog@.take(i as int) =~= prog@);
        }
        self.pass = AssemblerPass::Second;
        Ok(())
    }

    /// Encodes `prog` against the symbols of the first pass.
    fn run_pass2(&self, prog: &Program) -> (r: Result<Vec<u8>, AssemblerError>)
        requires
            self.wf(),
        ensures
            match encode_program(prog@, self.symbol_table@) {
                Ok(b) => r is Ok && r->Ok_0@ == b,
                Err(e) => r == Err::<Vec<u8>, AssemblerError>(e),
            },
    {
        prog.to_bytes(&self.symbol_table)
    }
}

} // verus!
