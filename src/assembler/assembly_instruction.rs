use vstd::prelude::*;

use super::symbols::{SymbolInfo, SymbolTable};
use super::token::{token_bytes, word_bytes, word_to_bytes, Token, TokenView};
use crate::opcode::Opcode;

verus! {

/// Every record of a program occupies one word of this many bytes.
pub const INSTRUCTION_SIZE: u32 = 4;

/// Fills the unused bytes of a word. It is not 0, which is a valid register.
pub const PADDING: u8 = 0xFF;

/// Largest label offset that an operand can carry: the top of the signed
/// 16-bit range that `LOAD` reads.
pub const MAX_LABEL_OFFSET: u32 = 0x7FFF;

/// Why a record cannot be encoded.
#[derive(Clone, Copy, Debug, PartialEq, Eq, Structural)]
pub enum EncodeError {
    /// The record has neither an opcode nor a directive.
    MissingOpcode,
    /// A label usage names no label of the symbol table.
    UndefinedLabel,
    /// A label's offset does not fit the signed 16-bit operand.
    LabelOutOfRange,
    /// A label declaration or a directive stands where an operand goes.
    MisplacedToken,
}

/// One line of assembly: an optional label, an opcode or a directive, and up
/// to three operands.
#[derive(Debug, PartialEq, Default)]
pub struct AssemblyInstruction {
    pub opcode: Option<Token>,
    pub label: Option<Token>,
    pub directive: Option<Token>,
    pub operand1: Option<Token>,
    pub operand2: Option<Token>,
    pub operand3: Option<Token>,
}

/// A record as mathematical values.
pub ghost struct RecordView {
    pub opcode: Option<TokenView>,
    pub label: Option<TokenView>,
    pub directive: Option<TokenView>,
    pub operand1: Option<TokenView>,
    pub operand2: Option<TokenView>,
    pub operand3: Option<TokenView>,
}

pub open spec fn token_view(t: Option<Token>) -> Option<TokenView> {
    match t {
        Some(t) => Some(t@),
        None => None,
    }
}

impl View for AssemblyInstruction {
    type V = RecordView;

    open spec fn view(&self) -> RecordView {
        RecordView {
            opcode: token_view(self.opcode),
            label: token_view(self.label),
            directive: token_view(self.directive),
            operand1: token_view(self.operand1),
            operand2: token_view(self.operand2),
            operand3: token_view(self.operand3),
        }
    }
}

/// The bytes of the token in the opcode place or an operand place. A label
/// usage stands for its label's offset, written as a 16-bit immediate.
pub open spec fn slot_bytes(t: Option<TokenView>, labels: Map<Seq<char>, SymbolInfo>) -> Result<
    Seq<u8>,
    EncodeError,
> {
    match t {
        None => Ok(Seq::empty()),
        Some(TokenView::LabelUsage(name)) => {
            if !labels.contains_key(name) {
                Err(EncodeError::UndefinedLabel)
            } else if labels[name].offset > MAX_LABEL_OFFSET {
                Err(EncodeError::LabelOutOfRange)
            } else {
                Ok(word_bytes(labels[name].offset as int))
            }
        },
        Some(TokenView::LabelDeclaration(_)) => Err(EncodeError::MisplacedToken),
        Some(TokenView::Directive(_)) => Err(EncodeError::MisplacedToken),
        Some(t) => Ok(token_bytes(t)),
    }
}

/// The bytes of a record before padding: its opcode, then its operands in
/// order.
pub open spec fn record_content(r: RecordView, labels: Map<Seq<char>, SymbolInfo>) -> Result<
    Seq<u8>,
    EncodeError,
> {
    match slot_bytes(r.opcode, labels) {
        Err(e) => Err(e),
        Ok(b0) => match slot_bytes(r.operand1, labels) {
            Err(e) => Err(e),
            Ok(b1) => match slot_bytes(r.operand2, labels) {
                Err(e) => Err(e),
                Ok(b2) => match slot_bytes(r.operand3, labels) {
                    Err(e) => Err(e),
                    Ok(b3) => Ok(b0 + b1 + b2 + b3),
                },
            },
        },
    }
}

/// `b` followed by `PADDING` up to a full word.
pub open spec fn pad(b: Seq<u8>) -> Seq<u8> {
    if b.len() < INSTRUCTION_SIZE {
        b + Seq::new((INSTRUCTION_SIZE - b.len()) as nat, |i: int| PADDING)
    } else {
        b
    }
}

/// The encoding of a record: its content padded to a word, or the first
/// error met. A record with neither an opcode nor a directive is refused.
pub open spec fn encode_record(r: RecordView, labels: Map<Seq<char>, SymbolInfo>) -> Result<
    Seq<u8>,
    EncodeError,
> {
    if r.opcode is None && r.directive is None {
        Err(EncodeError::MissingOpcode)
    } else {
        match record_content(r, labels) {
            Err(e) => Err(e),
            Ok(c) => Ok(pad(c)),
        }
    }
}

/// Unused bytes of an encoded word are `PADDING`: a record whose content is
/// shorter than a word is encoded as that content followed by `PADDING`
/// bytes up to 4.
pub proof fn lemma_padding(r: RecordView, labels: Map<Seq<char>, SymbolInfo>)
    requires
        encode_record(r, labels) is Ok,
        record_content(r, labels) is Ok,
        record_content(r, labels)->Ok_0.len() < INSTRUCTION_SIZE,
    ensures
        ({
            let c = record_content(r, labels)->Ok_0;
            let b = encode_record(r, labels)->Ok_0;
            &&& b.len() == INSTRUCTION_SIZE
            &&& b.take(c.len() as int) == c
            &&& forall|k: int| c.len() <= k < INSTRUCTION_SIZE ==> b[k] == PADDING
        }),
{
    let c = record_content(r, labels)->Ok_0;
    assert(pad(c).take(c.len() as int) =~= c);
}

pub open spec fn is_register(t: Option<TokenView>) -> bool {
    t matches Some(TokenView::Register(_))
}

pub open spec fn is_immediate(t: Option<TokenView>) -> bool {
    t matches Some(TokenView::IntegerOperand(_)) || t matches Some(TokenView::LabelUsage(_))
}

/// Whether a record has one of the shapes that fit a word: an opcode or
/// none, then no operand, `$r`, `$r $r`, `$r $r $r` or `$r #n`.
pub open spec fn fits_word(r: RecordView) -> bool {
    &&& (r.opcode is None || r.opcode matches Some(TokenView::Opcode(_)))
    &&& {
        ||| (r.operand1 is None && r.operand2 is None && r.operand3 is None)
        ||| (is_register(r.operand1) && r.operand2 is None && r.operand3 is None)
        ||| (is_register(r.operand1) && is_register(r.operand2) && (r.operand3 is None
            || is_register(r.operand3)))
        ||| (is_register(r.operand1) && is_immediate(r.operand2) && r.operand3 is None)
    }
}

/// A record of a word-fitting shape encodes to exactly one word.
pub proof fn lemma_word_length(r: RecordView, labels: Map<Seq<char>, SymbolInfo>)
    requires
        fits_word(r),
        encode_record(r, labels) is Ok,
    ensures
        encode_record(r, labels)->Ok_0.len() == INSTRUCTION_SIZE,
{
    let c = record_content(r, labels)->Ok_0;
    assert(c.len() <= INSTRUCTION_SIZE);
}

/// Appends the bytes of the token in one place of a record to `out`.
fn append_slot(t: &Option<Token>, st: &SymbolTable, out: &mut Vec<u8>) -> (r: Result<(), EncodeError>)
    requires
        st.wf(),
    ensures
        match slot_bytes(token_view(*t), st@) {
            Ok(b) => r is Ok && final(out)@ == old(out)@ + b,
            Err(e) => r == Err::<(), EncodeError>(e),
        },
{
    match t {
        None => {
            assert(old(out)@ + Seq::<u8>::empty() =~= old(out)@);
            Ok(())
        },
        Some(Token::LabelUsage(name)) => match st.lookup(name) {
            None => Err(EncodeError::UndefinedLabel),
            Some(info) => {
                if info.offset > MAX_LABEL_OFFSET {
                    Err(EncodeError::LabelOutOfRange)
                } else {
                    let mut b = word_to_bytes(info.offset as i32);
                    out.append(&mut b);
                    Ok(())
                }
            },
        },
        Some(Token::LabelDeclaration(_)) => Err(EncodeError::MisplacedToken),
        Some(Token::Directive(_)) => Err(EncodeError::MisplacedToken),
        Some(tok) => {
            let mut b = tok.to_bytes();
            out.append(&mut b);
            Ok(())
        },
    }
}

impl AssemblyInstruction {
    /// Encodes the record into its word (see `encode_record`), resolving
    /// label usages through `st`.
    pub fn to_bytes(&self, st: &SymbolTable) -> (r: Result<Vec<u8>, EncodeError>)
        requires
            st.wf(),
        ensures
            match encode_record(self@, st@) {
                Ok(b) => r is Ok && r->Ok_0@ == b,
                Err(e) => r == Err::<Vec<u8>, EncodeError>(e),
            },
    {
        if self.opcode.is_none() && self.directive.is_none() {
            return Err(EncodeError::MissingOpcode);
        }
        let mut result: Vec<u8> = Vec::new();
        append_slot(&self.opcode, st, &mut result)?;
        append_slot(&self.operand1, st, &mut result)?;
        append_slot(&self.operand2, st, &mut result)?;
        append_slot(&self.operand3, st, &mut result)?;
        let ghost content = result@;
        proof {
            let s0 = slot_bytes(self@.opcode, st@)->Ok_0;
            let s1 = slot_bytes(self@.operand1, st@)->Ok_0;
            let s2 = slot_bytes(self@.operand2, st@)->Ok_0;
            let s3 = slot_bytes(self@.operand3, st@)->Ok_0;
            assert(content =~= s0 + s1 + s2 + s3);
        }
        while result.len() < INSTRUCTION_SIZE as usize
            invariant
                content.len() <= result@.len() <= INSTRUCTION_SIZE || result@ == content,
                result@.take(content.len() as int) == content,
                forall|k: int| content.len() <= k < result@.len() ==> result@[k] == PADDING,
                result@.len() >= content.len(),
            decreases INSTRUCTION_SIZE - result@.len(),
        {
            result.push(PADDING);
            proof {
                assert(result@.take(content.len() as int) =~= content);
            }
        }
        proof {
            if content.len() < INSTRUCTION_SIZE {
                assert(result@ =~= pad(content));
            } else {
                assert(result@ =~= content);
            }
        }
        Ok(result)
    }

    pub fn has_label(&self) -> (r: bool)
        ensures
            r == self.label is Some,
    {
        self.label.is_some()
    }

    /// The name that the label declaration declares, if there is one.
    pub fn get_label(&self) -> (r: Option<String>)
        ensures
            match self@.label {
                Some(TokenView::LabelDeclaration(name)) => r is Some && r->0@ == name,
                _ => r is None,
            },
    {
        match &self.label {
            Some(Token::LabelDeclaration(label)) => Some(label.clone()),
            _ => None,
        }
    }

    pub fn has_opcode(&self) -> (r: bool)
        ensures
            r == self.opcode is Some,
    {
        self.opcode.is_some()
    }

    /// The opcode in the opcode place, if there is one.
    pub fn get_opcode(&self) -> (r: Option<Opcode>)
        ensures
            r == match self@.opcode {
                Some(TokenView::Opcode(op)) => Some(op),
                _ => None::<Opcode>,
            },
    {
        match &self.opcode {
            Some(Token::Opcode(code)) => Some(*code),
            _ => None,
        }
    }

    pub fn has_directive(&self) -> (r: bool)
        ensures
            r == self.directive is Some,
    {
        self.directive.is_some()
    }

    /// The name of the directive, if there is one.
    pub fn get_directive(&self) -> (r: Option<String>)
        ensures
            match self@.directive {
                Some(TokenView::Directive(name)) => r is Some && r->0@ == name,
                _ => r is None,
            },
    {
        match &self.directive {
            Some(Token::Directive(d)) => Some(d.clone()),
            _ => None,
        }
    }
}

} // verus!
