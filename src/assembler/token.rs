use vstd::prelude::*;

use crate::opcode::{opcode_code, Opcode};

verus! {

/// The parts that an assembly line is made of.
#[derive(Debug, PartialEq)]
pub enum Token {
    Opcode(Opcode),
    /// `$n`: a register index.
    Register(u8),
    /// `#n`: an immediate in the signed 16-bit range.
    IntegerOperand(i32),
    StringOperand(String),
    /// `name:`
    LabelDeclaration(String),
    /// `@name`
    LabelUsage(String),
    /// `.name`
    Directive(String),
}

/// A token as mathematical values.
pub ghost enum TokenView {
    Opcode(Opcode),
    Register(u8),
    IntegerOperand(i32),
    StringOperand(Seq<char>),
    LabelDeclaration(Seq<char>),
    LabelUsage(Seq<char>),
    Directive(Seq<char>),
}

impl View for Token {
    type V = TokenView;

    open spec fn view(&self) -> TokenView {
        match self {
            Token::Opcode(op) => TokenView::Opcode(*op),
            Token::Register(r) => TokenView::Register(*r),
            Token::IntegerOperand(v) => TokenView::IntegerOperand(*v),
            Token::StringOperand(s) => TokenView::StringOperand(s@),
            Token::LabelDeclaration(s) => TokenView::LabelDeclaration(s@),
            Token::LabelUsage(s) => TokenView::LabelUsage(s@),
            Token::Directive(s) => TokenView::Directive(s@),
        }
    }
}

/// The two bytes of a 16-bit word holding `v` modulo 2^16, most significant
/// byte first.
pub open spec fn word_bytes(v: int) -> Seq<u8> {
    let w = v % 0x10000;
    seq![(w / 256) as u8, (w % 256) as u8]
}

/// The bytes a token stands for on its own. Label declarations, label usages
/// and directives have none here: the assembler resolves a label usage
/// against its symbol table, and the other two are not operands.
pub open spec fn token_bytes(t: TokenView) -> Seq<u8> {
    match t {
        TokenView::Opcode(op) => seq![opcode_code(op)],
        TokenView::Register(r) => seq![r],
        TokenView::IntegerOperand(v) => word_bytes(v as int),
        TokenView::StringOperand(s) => vstd::utf8::encode_utf8(s),
        _ => Seq::empty(),
    }
}

/// The two bytes of `v` modulo 2^16, most significant first.
pub fn word_to_bytes(v: i32) -> (r: Vec<u8>)
    ensures
        r@ == word_bytes(v as int),
{
    let w: i32 = match v.checked_rem_euclid(0x10000) {
        Some(w) => w,
        None => 0,
    };
    let hi = (w / 256) as u8;
    let lo = (w % 256) as u8;
    let r = vec![hi, lo];
    assert(r@ =~= word_bytes(v as int));
    r
}

impl Token {
    /// The bytes this token stands for on its own (see `token_bytes`).
    pub fn to_bytes(&self) -> (r: Vec<u8>)
        ensures
            r@ == token_bytes(self@),
    {
        match self {
            Token::Opcode(op) => {
                let r = vec![op.code()];
                assert(r@ =~= token_bytes(self@));
                r
            },
            Token::Register(reg) => {
                let r = vec![*reg];
                assert(r@ =~= token_bytes(self@));
                r
            },
            Token::IntegerOperand(v) => word_to_bytes(*v),
            Token::StringOperand(s) => s.as_str().as_bytes_vec(),
            _ => Vec::new(),
        }
    }
}

} // verus!
