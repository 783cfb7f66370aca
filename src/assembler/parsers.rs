//! The assembly grammar, over the characters of the source text.
//!
//! A program is one or more lines separated by whitespace. A line is an
//! optional label declaration `name:`, then either an opcode mnemonic or a
//! directive `.name`, then up to three operands, each after whitespace, in
//! one of the shapes `$r`, `$r $r`, `$r $r $r` or `$r #n` (where `#n` may
//! also be a label usage `@name`). Registers are `$` and a decimal index up
//! to 255; immediates are `#`, an optional `-` and a decimal in the signed
//! 16-bit range; names are ASCII letters and digits. Parsing fails at the
//! first character that the grammar cannot take, and it consumes the whole
//! input but for surrounding whitespace.

use vstd::prelude::*;

use super::assembly_instruction::{fits_word, token_view, AssemblyInstruction, RecordView};
use super::program::{records_view, Program};
use super::token::{Token, TokenView};
use crate::opcode::{opcode_named, Opcode};

verus! {

/// What the parser looked for where it failed.
#[derive(Clone, Copy, Debug, PartialEq, Eq, Structural)]
pub enum Expected {
    /// An opcode, a directive or a label declaration.
    Instruction,
    /// An opcode mnemonic.
    Opcode,
    /// A register operand `$n`.
    Register,
    /// An immediate operand `#n`.
    Integer,
    /// An immediate or a register operand.
    Operand,
    /// A decimal digit.
    Digit,
    /// A register index no greater than 255.
    RegisterIndex,
    /// A value in the signed 16-bit range.
    IntegerRange,
    /// A label or directive name.
    Name,
    /// The `:` that ends a label declaration.
    Colon,
    /// A label usage `@name`.
    LabelUsage,
    /// A directive `.name`.
    Directive,
    /// Whitespace between two lines.
    Separator,
}

/// Where parsing failed, as a character offset into the input, and what
/// was expected there.
#[derive(Clone, Copy, Debug, PartialEq, Eq, Structural)]
pub struct ParseError {
    pub position: usize,
    pub expected: Expected,
}

impl ParseError {
    /// The part of `input` from the failure position on: the text that the
    /// parser could not take.
    pub fn remainder<'a>(&self, input: &'a str) -> (r: &'a str)
        ensures
            self.position <= input@.len() ==> r@ == input@.skip(self.position as int),
            self.position > input@.len() ==> r@ == Seq::<char>::empty(),
    {
        let n = input.unicode_len();
        if self.position <= n {
            let r = input.substring_char(self.position, n);
            assert(r@ =~= input@.skip(self.position as int));
            r
        } else {
            let r = input.substring_char(n, n);
            assert(r@ =~= Seq::<char>::empty());
            r
        }
    }
}

pub open spec fn fail<T>(position: int, expected: Expected) -> Result<T, ParseError> {
    Err(ParseError { position: position as usize, expected })
}

pub open spec fn is_space(c: char) -> bool {
    c == ' ' || c == '\t' || c == '\n' || c == '\r'
}

pub open spec fn is_alpha(c: char) -> bool {
    ('a' <= c && c <= 'z') || ('A' <= c && c <= 'Z')
}

pub open spec fn is_digit(c: char) -> bool {
    '0' <= c && c <= '9'
}

pub open spec fn is_alnum(c: char) -> bool {
    is_alpha(c) || is_digit(c)
}

/// The character classes that the grammar reads runs of.
#[derive(Clone, Copy, Debug, PartialEq, Eq, Structural)]
pub enum CharClass {
    Space,
    Alpha,
    Digit,
    Alnum,
}

pub open spec fn in_class(c: char, k: CharClass) -> bool {
    match k {
        CharClass::Space => is_space(c),
        CharClass::Alpha => is_alpha(c),
        CharClass::Digit => is_digit(c),
        CharClass::Alnum => is_alnum(c),
    }
}

/// The end of the run of class-`k` characters that starts at `i`.
pub open spec fn run_end(s: Seq<char>, i: int, k: CharClass) -> int
    decreases s.len() - i,
{
    if 0 <= i < s.len() && in_class(s[i], k) {
        run_end(s, i + 1, k)
    } else {
        i
    }
}

pub open spec fn skip_space(s: Seq<char>, i: int) -> int {
    run_end(s, i, CharClass::Space)
}

/// The value of a sequence of decimal digits.
pub open spec fn decimal(d: Seq<char>) -> int
    decreases d.len(),
{
    if d.len() == 0 {
        0
    } else {
        decimal(d.drop_last()) * 10 + (d.last() as int - '0' as int)
    }
}

/// The register operand `$n` at `k`, with the position after it.
pub open spec fn register_at(s: Seq<char>, k: int) -> Result<(TokenView, int), ParseError> {
    if !(0 <= k < s.len() && s[k] == '$') {
        fail(k, Expected::Register)
    } else {
        let d = run_end(s, k + 1, CharClass::Digit);
        if d == k + 1 {
            fail(k + 1, Expected::Digit)
        } else if decimal(s.subrange(k + 1, d)) > 255 {
            fail(k + 1, Expected::RegisterIndex)
        } else {
            Ok((TokenView::Register(decimal(s.subrange(k + 1, d)) as u8), d))
        }
    }
}

/// The immediate operand `#n` or `#-n` at `k`, with the position after it.
pub open spec fn integer_at(s: Seq<char>, k: int) -> Result<(TokenView, int), ParseError> {
    if !(0 <= k < s.len() && s[k] == '#') {
        fail(k, Expected::Integer)
    } else {
        let negative = k + 1 < s.len() && s[k + 1] == '-';
        let start = if negative {
            k + 2
        } else {
            k + 1
        };
        let d = run_end(s, start, CharClass::Digit);
        let magnitude = decimal(s.subrange(start, d));
        let value = if negative {
            -magnitude
        } else {
            magnitude
        };
        if d == start {
            fail(start, Expected::Digit)
        } else if value < -0x8000 || value > 0x7FFF {
            fail(start, Expected::IntegerRange)
        } else {
            Ok((TokenView::IntegerOperand(value as i32), d))
        }
    }
}

/// The label usage `@name` at `k`, with the position after it.
pub open spec fn label_usage_at(s: Seq<char>, k: int) -> Result<(TokenView, int), ParseError> {
    if !(0 <= k < s.len() && s[k] == '@') {
        fail(k, Expected::LabelUsage)
    } else {
        let d = run_end(s, k + 1, CharClass::Alnum);
        if d == k + 1 {
            fail(k + 1, Expected::Name)
        } else {
            Ok((TokenView::LabelUsage(s.subrange(k + 1, d)), d))
        }
    }
}

/// The immediate-like operand at `k`: an integer or a label usage.
pub open spec fn immediate_at(s: Seq<char>, k: int) -> Result<(TokenView, int), ParseError> {
    if 0 <= k < s.len() && s[k] == '@' {
        label_usage_at(s, k)
    } else {
        integer_at(s, k)
    }
}

pub open spec fn starts_immediate(s: Seq<char>, k: int) -> bool {
    0 <= k < s.len() && (s[k] == '#' || s[k] == '@')
}

/// The operand after at least one whitespace character from `e`, when one
/// of an allowed kind stands there; `None` when none does.
pub open spec fn next_operand(s: Seq<char>, e: int, register: bool, immediate: bool) -> Result<
    Option<(TokenView, int)>,
    ParseError,
> {
    let k = skip_space(s, e);
    if k == e || k >= s.len() {
        Ok(None)
    } else if register && s[k] == '$' {
        match register_at(s, k) {
            Ok(p) => Ok(Some(p)),
            Err(x) => Err(x),
        }
    } else if immediate && starts_immediate(s, k) {
        match immediate_at(s, k) {
            Ok(p) => Ok(Some(p)),
            Err(x) => Err(x),
        }
    } else {
        Ok(None)
    }
}

/// The operands of a line whose mnemonic or directive ends at `e`, read as
/// far as the shapes `$r`, `$r $r`, `$r $r $r` and `$r #n` allow, with the
/// position after the last one.
pub open spec fn operands_at(s: Seq<char>, e: int) -> Result<
    (Option<TokenView>, Option<TokenView>, Option<TokenView>, int),
    ParseError,
> {
    match next_operand(s, e, true, false) {
        Err(x) => Err(x),
        Ok(None) => Ok((None, None, None, e)),
        Ok(Some((t1, e1))) => match next_operand(s, e1, true, true) {
            Err(x) => Err(x),
            Ok(None) => Ok((Some(t1), None, None, e1)),
            Ok(Some((t2, e2))) => match next_operand(s, e2, t2 is Register, false) {
                Err(x) => Err(x),
                Ok(None) => Ok((Some(t1), Some(t2), None, e2)),
                Ok(Some((t3, e3))) => Ok((Some(t1), Some(t2), Some(t3), e3)),
            },
        },
    }
}

/// Whether a label declaration `name:` starts at `i`.
pub open spec fn label_at(s: Seq<char>, i: int) -> bool {
    let a = run_end(s, i, CharClass::Alnum);
    a > i && a < s.len() && s[a] == ':'
}

/// A record with the given label, opcode or directive, and operands.
pub open spec fn record(
    label: Option<TokenView>,
    opcode: Option<TokenView>,
    directive: Option<TokenView>,
    ops: (Option<TokenView>, Option<TokenView>, Option<TokenView>, int),
) -> RecordView {
    RecordView { opcode, label, directive, operand1: ops.0, operand2: ops.1, operand3: ops.2 }
}

/// The line that starts at `i`, with the position after it.
pub open spec fn line_at(s: Seq<char>, i: int) -> Result<(RecordView, int), ParseError> {
    let a = run_end(s, i, CharClass::Alnum);
    let label = if label_at(s, i) {
        Some(TokenView::LabelDeclaration(s.subrange(i, a)))
    } else {
        None
    };
    let j = if label_at(s, i) {
        skip_space(s, a + 1)
    } else {
        i
    };
    if 0 <= j < s.len() && s[j] == '.' {
        let n = run_end(s, j + 1, CharClass::Alnum);
        if n == j + 1 {
            fail(j + 1, Expected::Name)
        } else {
            match operands_at(s, n) {
                Err(x) => Err(x),
                Ok(ops) => Ok(
                    (
                        record(label, None, Some(TokenView::Directive(s.subrange(j + 1, n))), ops),
                        ops.3,
                    ),
                ),
            }
        }
    } else if 0 <= j < s.len() && is_alpha(s[j]) {
        let n = run_end(s, j, CharClass::Alpha);
        match operands_at(s, n) {
            Err(x) => Err(x),
            Ok(ops) => Ok(
                (
                    record(label, Some(TokenView::Opcode(opcode_named(s.subrange(j, n)))), None, ops),
                    ops.3,
                ),
            ),
        }
    } else {
        fail(j, Expected::Instruction)
    }
}

/// The lines from `i` on, appended to `acc`: each line is followed by the
/// end of the input or by whitespace and the next line.
pub open spec fn lines_from(s: Seq<char>, i: int, acc: Seq<RecordView>) -> Result<
    Seq<RecordView>,
    ParseError,
>
    decreases s.len() - i,
    via lines_from_decreases
{
    match line_at(s, i) {
        Err(x) => Err(x),
        Ok((r, e)) => {
            let k = skip_space(s, e);
            if k >= s.len() {
                Ok(acc.push(r))
            } else if k == e {
                fail(e, Expected::Separator)
            } else {
                lines_from(s, k, acc.push(r))
            }
        },
    }
}

#[via_fn]
proof fn lines_from_decreases(s: Seq<char>, i: int, acc: Seq<RecordView>) {
    if 0 <= i {
        lemma_line_advances(s, i);
        if let Ok((r, e)) = line_at(s, i) {
            lemma_run_end_bounds(s, e, CharClass::Space);
        }
    }
}

/// A run ends at or after its start, and inside the text when it starts there.
proof fn lemma_run_end_bounds(s: Seq<char>, i: int, k: CharClass)
    requires
        0 <= i,
    ensures
        run_end(s, i, k) >= i,
        i <= s.len() ==> run_end(s, i, k) <= s.len(),
        i < s.len() && in_class(s[i], k) ==> run_end(s, i, k) > i,
    decreases s.len() - i,
{
    if 0 <= i < s.len() && in_class(s[i], k) {
        lemma_run_end_bounds(s, i + 1, k);
    }
}

/// An operand that is read ends after its first character.
proof fn lemma_next_operand_advances(s: Seq<char>, e: int, register: bool, immediate: bool)
    requires
        0 <= e,
    ensures
        next_operand(s, e, register, immediate) matches Ok(Some((t, d))) ==> d > e,
{
    let k = skip_space(s, e);
    lemma_run_end_bounds(s, e, CharClass::Space);
    lemma_run_end_bounds(s, k + 1, CharClass::Digit);
    lemma_run_end_bounds(s, k + 2, CharClass::Digit);
    lemma_run_end_bounds(s, k + 1, CharClass::Alnum);
}

/// The operands of a line end at or after where they start.
proof fn lemma_operands_advance(s: Seq<char>, e: int)
    requires
        0 <= e,
    ensures
        operands_at(s, e) is Ok ==> operands_at(s, e)->Ok_0.3 >= e,
{
    lemma_next_operand_advances(s, e, true, false);
    if let Ok(Some((t1, e1))) = next_operand(s, e, true, false) {
        lemma_next_operand_advances(s, e1, true, true);
        if let Ok(Some((t2, e2))) = next_operand(s, e1, true, true) {
            lemma_next_operand_advances(s, e2, t2 is Register, false);
        }
    }
}

/// Every line that is read takes at least one character.
proof fn lemma_line_advances(s: Seq<char>, i: int)
    requires
        0 <= i,
    ensures
        line_at(s, i) is Ok ==> line_at(s, i)->Ok_0.1 > i,
{
    let a = run_end(s, i, CharClass::Alnum);
    lemma_run_end_bounds(s, i, CharClass::Alnum);
    lemma_run_end_bounds(s, a + 1, CharClass::Space);
    let j = if label_at(s, i) {
        skip_space(s, a + 1)
    } else {
        i
    };
    lemma_run_end_bounds(s, j + 1, CharClass::Alnum);
    lemma_run_end_bounds(s, j, CharClass::Alpha);
    lemma_operands_advance(s, run_end(s, j + 1, CharClass::Alnum));
    lemma_operands_advance(s, run_end(s, j, CharClass::Alpha));
}

/// Every line that is read has a word-fitting shape.
proof fn lemma_line_fits(s: Seq<char>, i: int)
    requires
        line_at(s, i) is Ok,
    ensures
        fits_word(line_at(s, i)->Ok_0.0),
{
    let a = run_end(s, i, CharClass::Alnum);
    let j = if label_at(s, i) {
        skip_space(s, a + 1)
    } else {
        i
    };
    let n = if 0 <= j < s.len() && s[j] == '.' {
        run_end(s, j + 1, CharClass::Alnum)
    } else {
        run_end(s, j, CharClass::Alpha)
    };
    let o1 = next_operand(s, n, true, false);
    if let Ok(Some((t1, e1))) = o1 {
        assert(t1 is Register);
        let o2 = next_operand(s, e1, true, true);
        if let Ok(Some((t2, e2))) = o2 {
            assert(t2 is Register || t2 is IntegerOperand || t2 is LabelUsage);
            let o3 = next_operand(s, e2, t2 is Register, false);
            if let Ok(Some((t3, e3))) = o3 {
                assert(t2 is Register && t3 is Register);
            }
        }
    }
}

/// Every record of a parsed program has a word-fitting shape.
pub proof fn lemma_lines_fit(s: Seq<char>, i: int, acc: Seq<RecordView>)
    requires
        0 <= i,
        lines_from(s, i, acc) is Ok,
        forall|k: int| 0 <= k < acc.len() ==> fits_word(#[trigger] acc[k]),
    ensures
        forall|k: int|
            0 <= k < lines_from(s, i, acc)->Ok_0.len() ==> fits_word(
                #[trigger] lines_from(s, i, acc)->Ok_0[k],
            ),
    decreases s.len() - i,
{
    let (r, e) = line_at(s, i)->Ok_0;
    lemma_line_fits(s, i);
    let acc2 = acc.push(r);
    assert forall|k: int| 0 <= k < acc2.len() implies fits_word(#[trigger] acc2[k]) by {
        if k < acc.len() {
            assert(acc2[k] == acc[k]);
        }
    }
    let k = skip_space(s, e);
    if k < s.len() && k != e {
        lemma_line_advances(s, i);
        lemma_run_end_bounds(s, e, CharClass::Space);
        lemma_lines_fit(s, k, acc2);
    }
}

/// Every record of a parsed program fits one word.
pub proof fn lemma_program_fits(s: Seq<char>)
    requires
        parse_program_spec(s) is Ok,
    ensures
        forall|k: int|
            0 <= k < parse_program_spec(s)->Ok_0.len() ==> fits_word(
                #[trigger] parse_program_spec(s)->Ok_0[k],
            ),
{
    lemma_run_end_bounds(s, 0, CharClass::Space);
    lemma_lines_fit(s, skip_space(s, 0), Seq::empty());
}

/// The program that the source text `s` spells.
pub open spec fn parse_program_spec(s: Seq<char>) -> Result<Seq<RecordView>, ParseError> {
    let i = skip_space(s, 0);
    if i >= s.len() {
        fail(i, Expected::Instruction)
    } else {
        lines_from(s, i, Seq::empty())
    }
}

/// The length of `s` without its trailing whitespace.
pub open spec fn trimmed_len(s: Seq<char>) -> int
    decreases s.len(),
{
    if s.len() > 0 && is_space(s.last()) {
        trimmed_len(s.drop_last())
    } else {
        s.len() as int
    }
}

/// What is left of `s` after position `e`, without trailing whitespace.
pub open spec fn rest(s: Seq<char>, e: int) -> Seq<char> {
    if e < trimmed_len(s) {
        s.subrange(e, trimmed_len(s))
    } else {
        Seq::empty()
    }
}

/// An opcode mnemonic after leading whitespace.
pub open spec fn opcode_token(s: Seq<char>) -> Result<(TokenView, int), ParseError> {
    let i = skip_space(s, 0);
    if i < s.len() && is_alpha(s[i]) {
        let n = run_end(s, i, CharClass::Alpha);
        Ok((TokenView::Opcode(opcode_named(s.subrange(i, n))), n))
    } else {
        fail(i, Expected::Opcode)
    }
}

/// An operand after leading whitespace: a register, an integer or a label
/// usage.
pub open spec fn operand_token(s: Seq<char>) -> Result<(TokenView, int), ParseError> {
    let k = skip_space(s, 0);
    if k < s.len() && s[k] == '$' {
        register_at(s, k)
    } else if starts_immediate(s, k) {
        immediate_at(s, k)
    } else {
        fail(k, Expected::Operand)
    }
}

/// A label declaration `name:` after leading whitespace.
pub open spec fn label_declaration_token(s: Seq<char>) -> Result<(TokenView, int), ParseError> {
    let i = skip_space(s, 0);
    let a = run_end(s, i, CharClass::Alnum);
    if a == i {
        fail(i, Expected::Name)
    } else if a < s.len() && s[a] == ':' {
        Ok((TokenView::LabelDeclaration(s.subrange(i, a)), a + 1))
    } else {
        fail(a, Expected::Colon)
    }
}

/// A directive `.name` after leading whitespace.
pub open spec fn directive_token(s: Seq<char>) -> Result<(TokenView, int), ParseError> {
    let i = skip_space(s, 0);
    if i < s.len() && s[i] == '.' {
        let n = run_end(s, i + 1, CharClass::Alnum);
        if n == i + 1 {
            fail(i + 1, Expected::Name)
        } else {
            Ok((TokenView::Directive(s.subrange(i + 1, n)), n))
        }
    } else {
        fail(i, Expected::Directive)
    }
}

/// A directive line after leading whitespace.
pub open spec fn directive_line(s: Seq<char>) -> Result<(RecordView, int), ParseError> {
    let i = skip_space(s, 0);
    match line_at(s, i) {
        Err(x) => Err(x),
        Ok((r, e)) => if r.directive is Some {
            Ok((r, e))
        } else {
            fail(i, Expected::Directive)
        },
    }
}

/// One operand of a fixed kind (a register when `register`, else an
/// immediate) after at least one whitespace character from `e`.
pub open spec fn exact_operand(s: Seq<char>, e: int, register: bool) -> Result<(TokenView, int), ParseError> {
    let k = skip_space(s, e);
    if k == e || k >= s.len() {
        fail(k, if register { Expected::Register } else { Expected::Integer })
    } else if register {
        register_at(s, k)
    } else {
        immediate_at(s, k)
    }
}

/// Operands of the given kinds, in order, from `e`.
pub open spec fn form_operands(s: Seq<char>, e: int, kinds: Seq<bool>) -> Result<(Seq<TokenView>, int), ParseError>
    decreases kinds.len(),
{
    if kinds.len() == 0 {
        Ok((Seq::empty(), e))
    } else {
        match form_operands(s, e, kinds.drop_last()) {
            Err(x) => Err(x),
            Ok((ops, e1)) => match exact_operand(s, e1, kinds.last()) {
                Err(x) => Err(x),
                Ok((t, e2)) => Ok((ops.push(t), e2)),
            },
        }
    }
}

pub open spec fn nth_operand(ops: Seq<TokenView>, n: int) -> Option<TokenView> {
    if n < ops.len() {
        Some(ops[n])
    } else {
        None
    }
}

/// An instruction of one fixed form after leading whitespace: a mnemonic
/// and operands of the given kinds.
pub open spec fn instruction_form(s: Seq<char>, kinds: Seq<bool>) -> Result<(RecordView, int), ParseError> {
    match opcode_token(s) {
        Err(x) => Err(x),
        Ok((op, n)) => match form_operands(s, n, kinds) {
            Err(x) => Err(x),
            Ok((ops, e)) => Ok(
                (
                    RecordView {
                        opcode: Some(op),
                        label: None,
                        directive: None,
                        operand1: nth_operand(ops, 0),
                        operand2: nth_operand(ops, 1),
                        operand3: nth_operand(ops, 2),
                    },
                    e,
                ),
            ),
        },
    }
}

/// A line after leading whitespace.
pub open spec fn instruction_line(s: Seq<char>) -> Result<(RecordView, int), ParseError> {
    let i = skip_space(s, 0);
    if i >= s.len() {
        fail(i, Expected::Instruction)
    } else {
        line_at(s, i)
    }
}

/// How an exec token result stands for a spec one.
pub open spec fn lexed(r: Result<(Token, usize), ParseError>, t: Result<(TokenView, int), ParseError>) -> bool {
    match t {
        Ok((tok, e)) => r is Ok && r->Ok_0.0@ == tok && r->Ok_0.1 == e,
        Err(x) => r == Err::<(Token, usize), ParseError>(x),
    }
}

/// How an exec record result stands for a spec one.
pub open spec fn parsed(r: Result<(AssemblyInstruction, usize), ParseError>, t: Result<(RecordView, int), ParseError>) -> bool {
    match t {
        Ok((rec, e)) => r is Ok && r->Ok_0.0@ == rec && r->Ok_0.1 == e,
        Err(x) => r == Err::<(AssemblyInstruction, usize), ParseError>(x),
    }
}

/// How a public parser's result stands for a spec one: the value, and the
/// rest of the input without trailing whitespace.
pub open spec fn parsed_token(input: Seq<char>, r: Result<(&str, Token), ParseError>, t: Result<(TokenView, int), ParseError>) -> bool {
    match t {
        Ok((tok, e)) => r is Ok && r->Ok_0.1@ == tok && r->Ok_0.0@ == rest(input, e),
        Err(x) => r == Err::<(&str, Token), ParseError>(x),
    }
}

pub open spec fn parsed_record(input: Seq<char>, r: Result<(&str, AssemblyInstruction), ParseError>, t: Result<(RecordView, int), ParseError>) -> bool {
    match t {
        Ok((rec, e)) => r is Ok && r->Ok_0.1@ == rec && r->Ok_0.0@ == rest(input, e),
        Err(x) => r == Err::<(&str, AssemblyInstruction), ParseError>(x),
    }
}

fn class_member(c: char, k: CharClass) -> (r: bool)
    ensures
        r == in_class(c, k),
{
    match k {
        CharClass::Space => c == ' ' || c == '\t' || c == '\n' || c == '\r',
        CharClass::Alpha => ('a' <= c && c <= 'z') || ('A' <= c && c <= 'Z'),
        CharClass::Digit => '0' <= c && c <= '9',
        CharClass::Alnum => ('a' <= c && c <= 'z') || ('A' <= c && c <= 'Z') || ('0' <= c && c <= '9'),
    }
}

/// The end of the run of class-`k` characters from `i`.
fn scan(cs: &Vec<char>, i: usize, k: CharClass) -> (r: usize)
    requires
        i <= cs@.len(),
    ensures
        r == run_end(cs@, i as int, k),
        i <= r <= cs@.len(),
        i < cs@.len() && in_class(cs@[i as int], k) ==> r > i,
        forall|j: int| i <= j < r ==> in_class(#[trigger] cs@[j], k),
{
    let mut j: usize = i;
    while j < cs.len() && class_member(cs[j], k)
        invariant
            i <= j <= cs@.len(),
            run_end(cs@, i as int, k) == run_end(cs@, j as int, k),
            forall|m: int| i <= m < j ==> in_class(#[trigger] cs@[m], k),
        decreases cs@.len() - j,
    {
        j = j + 1;
    }
    j
}

/// The value of the digits `cs[i..j]` when it is at most `cap`; some value
/// above `cap` otherwise.
fn decimal_capped(cs: &Vec<char>, i: usize, j: usize, cap: u32) -> (r: u32)
    requires
        i <= j <= cs@.len(),
        cap <= 0x10000,
        forall|m: int| i <= m < j ==> is_digit(#[trigger] cs@[m]),
    ensures
        decimal(cs@.subrange(i as int, j as int)) <= cap ==> r == decimal(cs@.subrange(i as int, j as int)),
        decimal(cs@.subrange(i as int, j as int)) > cap ==> r > cap,
{
    let mut acc: u32 = 0;
    let mut k: usize = i;
    assert(cs@.subrange(i as int, i as int) =~= Seq::<char>::empty());
    while k < j
        invariant
            i <= k <= j <= cs@.len(),
            cap <= 0x10000,
            forall|m: int| i <= m < j ==> is_digit(#[trigger] cs@[m]),
            acc <= cap * 10 + 9,
            decimal(cs@.subrange(i as int, k as int)) >= 0,
            decimal(cs@.subrange(i as int, k as int)) <= cap ==> acc == decimal(cs@.subrange(i as int, k as int)),
            decimal(cs@.subrange(i as int, k as int)) > cap ==> acc > cap,
        decreases j - k,
    {
        proof {
            assert(cs@.subrange(i as int, k + 1).drop_last() =~= cs@.subrange(i as int, k as int));
            assert(is_digit(cs@[k as int]));
        }
        if acc <= cap {
            acc = acc * 10 + (cs[k] as u32 - '0' as u32);
        }
        k = k + 1;
    }
    acc
}

/// The text `src[a..b]`, counted in characters.
fn text_between(src: &str, a: usize, b: usize) -> (r: String)
    requires
        a <= b <= src@.len(),
    ensures
        r@ == src@.subrange(a as int, b as int),
{
    src.substring_char(a, b).to_owned()
}

/// The characters of `src`.
fn chars_of(src: &str) -> (r: Vec<char>)
    ensures
        r@ == src@,
{
    let mut cs: Vec<char> = Vec::new();
    for c in it: src.chars()
        invariant
            it.seq() == src@,
            cs@ == src@.take(it.index() as int),
    {
        proof {
            assert(src@.take(it.index() + 1) =~= src@.take(it.index() as int).push(c));
        }
        cs.push(c);
    }
    proof {
        assert(src@.take(src@.len() as int) =~= src@);
    }
    cs
}

fn exec_register_at(cs: &Vec<char>, k: usize) -> (r: Result<(Token, usize), ParseError>)
    requires
        k <= cs@.len(),
    ensures
        lexed(r, register_at(cs@, k as int)),
        r is Ok ==> k < r->Ok_0.1 <= cs@.len(),
{
    if !(k < cs.len() && cs[k] == '$') {
        return Err(ParseError { position: k, expected: Expected::Register });
    }
    let d = scan(cs, k + 1, CharClass::Digit);
    if d == k + 1 {
        return Err(ParseError { position: k + 1, expected: Expected::Digit });
    }
    let v = decimal_capped(cs, k + 1, d, 255);
    if v > 255 {
        return Err(ParseError { position: k + 1, expected: Expected::RegisterIndex });
    }
    Ok((Token::Register(v as u8), d))
}

fn exec_integer_at(cs: &Vec<char>, k: usize) -> (r: Result<(Token, usize), ParseError>)
    requires
        k <= cs@.len(),
    ensures
        lexed(r, integer_at(cs@, k as int)),
        r is Ok ==> k < r->Ok_0.1 <= cs@.len(),
{
    if !(k < cs.len() && cs[k] == '#') {
        return Err(ParseError { position: k, expected: Expected::Integer });
    }
    let negative = k + 1 < cs.len() && cs[k + 1] == '-';
    let start = if negative {
        k + 2
    } else {
        k + 1
    };
    let d = scan(cs, start, CharClass::Digit);
    if d == start {
        return Err(ParseError { position: start, expected: Expected::Digit });
    }
    let m = decimal_capped(cs, start, d, 0x8000);
    if negative {
        if m > 0x8000 {
            return Err(ParseError { position: start, expected: Expected::IntegerRange });
        }
        Ok((Token::IntegerOperand(-(m as i32)), d))
    } else {
        if m > 0x7FFF {
            return Err(ParseError { position: start, expected: Expected::IntegerRange });
        }
        Ok((Token::IntegerOperand(m as i32), d))
    }
}

fn exec_label_usage_at(src: &str, cs: &Vec<char>, k: usize) -> (r: Result<(Token, usize), ParseError>)
    requires
        cs@ == src@,
        k <= cs@.len(),
    ensures
        lexed(r, label_usage_at(cs@, k as int)),
        r is Ok ==> k < r->Ok_0.1 <= cs@.len(),
{
    if !(k < cs.len() && cs[k] == '@') {
        return Err(ParseError { position: k, expected: Expected::LabelUsage });
    }
    let d = scan(cs, k + 1, CharClass::Alnum);
    if d == k + 1 {
        return Err(ParseError { position: k + 1, expected: Expected::Name });
    }
    Ok((Token::LabelUsage(text_between(src, k + 1, d)), d))
}

fn exec_immediate_at(src: &str, cs: &Vec<char>, k: usize) -> (r: Result<(Token, usize), ParseError>)
    requires
        cs@ == src@,
        k <= cs@.len(),
    ensures
        lexed(r, immediate_at(cs@, k as int)),
        r is Ok ==> k < r->Ok_0.1 <= cs@.len(),
{
    if k < cs.len() && cs[k] == '@' {
        exec_label_usage_at(src, cs, k)
    } else {
        exec_integer_at(cs, k)
    }
}

fn exec_next_operand(src: &str, cs: &Vec<char>, e: usize, register: bool, immediate: bool) -> (r: Result<Option<(Token, usize)>, ParseError>)
    requires
        cs@ == src@,
        e <= cs@.len(),
    ensures
        match next_operand(cs@, e as int, register, immediate) {
            Err(x) => r == Err::<Option<(Token, usize)>, ParseError>(x),
            Ok(None) => r is Ok && r->Ok_0 is None,
            Ok(Some((t, d))) => r is Ok && r->Ok_0 is Some && ({
                let p = r->Ok_0->0;
                p.0@ == t && p.1 == d
            }),
        },
        r is Ok && r->Ok_0 is Some ==> ({
            let p = r->Ok_0->0;
            e < p.1 <= cs@.len()
        }),
{
    let k = scan(cs, e, CharClass::Space);
    if k == e || k >= cs.len() {
        return Ok(None);
    }
    let p = if register && cs[k] == '$' {
        exec_register_at(cs, k)
    } else if immediate && (cs[k] == '#' || cs[k] == '@') {
        exec_immediate_at(src, cs, k)
    } else {
        return Ok(None);
    };
    match p {
        Ok(p) => Ok(Some(p)),
        Err(x) => Err(x),
    }
}

fn exec_operands_at(src: &str, cs: &Vec<char>, e: usize) -> (r: Result<(Option<Token>, Option<Token>, Option<Token>, usize), ParseError>)
    requires
        cs@ == src@,
        e <= cs@.len(),
    ensures
        match operands_at(cs@, e as int) {
            Err(x) => r == Err::<(Option<Token>, Option<Token>, Option<Token>, usize), ParseError>(x),
            Ok((o1, o2, o3, d)) => r is Ok && token_view(r->Ok_0.0) == o1 && token_view(r->Ok_0.1) == o2
                && token_view(r->Ok_0.2) == o3 && r->Ok_0.3 == d,
        },
        r is Ok ==> e <= r->Ok_0.3 <= cs@.len(),
{
    let (t1, e1) = match exec_next_operand(src, cs, e, true, false)? {
        None => return Ok((None, None, None, e)),
        Some(p) => p,
    };
    let (t2, e2) = match exec_next_operand(src, cs, e1, true, true)? {
        None => return Ok((Some(t1), None, None, e1)),
        Some(p) => p,
    };
    let third_register = match t2 {
        Token::Register(_) => true,
        _ => false,
    };
    let (t3, e3) = match exec_next_operand(src, cs, e2, third_register, false)? {
        None => return Ok((Some(t1), Some(t2), None, e2)),
        Some(p) => p,
    };
    Ok((Some(t1), Some(t2), Some(t3), e3))
}

fn exec_line_at(src: &str, cs: &Vec<char>, i: usize) -> (r: Result<(AssemblyInstruction, usize), ParseError>)
    requires
        cs@ == src@,
        i <= cs@.len(),
    ensures
        parsed(r, line_at(cs@, i as int)),
        r is Ok ==> i < r->Ok_0.1 <= cs@.len(),
{
    let a = scan(cs, i, CharClass::Alnum);
    let has_label = a > i && a < cs.len() && cs[a] == ':';
    let (label, j) = if has_label {
        (Some(Token::LabelDeclaration(text_between(src, i, a))), scan(cs, a + 1, CharClass::Space))
    } else {
        (None, i)
    };
    if j < cs.len() && cs[j] == '.' {
        let n = scan(cs, j + 1, CharClass::Alnum);
        if n == j + 1 {
            return Err(ParseError { position: j + 1, expected: Expected::Name });
        }
        let name = text_between(src, j + 1, n);
        let (o1, o2, o3, e) = exec_operands_at(src, cs, n)?;
        Ok((AssemblyInstruction { opcode: None, label, directive: Some(Token::Directive(name)), operand1: o1, operand2: o2, operand3: o3 }, e))
    } else if j < cs.len() && class_member(cs[j], CharClass::Alpha) {
        let n = scan(cs, j, CharClass::Alpha);
        let word = text_between(src, j, n);
        let op = Opcode::from_name(word.as_str());
        let (o1, o2, o3, e) = exec_operands_at(src, cs, n)?;
        Ok((AssemblyInstruction { opcode: Some(Token::Opcode(op)), label, directive: None, operand1: o1, operand2: o2, operand3: o3 }, e))
    } else {
        Err(ParseError { position: j, expected: Expected::Instruction })
    }
}

/// The length of `cs` without its trailing whitespace.
fn exec_trimmed_len(cs: &Vec<char>) -> (r: usize)
    ensures
        r == trimmed_len(cs@),
        r <= cs@.len(),
{
    let mut n: usize = cs.len();
    assert(cs@.take(n as int) =~= cs@);
    while n > 0 && class_member(cs[n - 1], CharClass::Space)
        invariant
            n <= cs@.len(),
            trimmed_len(cs@) == trimmed_len(cs@.take(n as int)),
        decreases n,
    {
        proof {
            assert(cs@.take(n as int).drop_last() =~= cs@.take(n - 1));
        }
        n = n - 1;
    }
    proof {
        lemma_trimmed_len_bounded(cs@.take(n as int));
    }
    n
}

proof fn lemma_trimmed_len_bounded(s: Seq<char>)
    ensures
        0 <= trimmed_len(s) <= s.len(),
        s.len() == 0 || !is_space(s.last()) ==> trimmed_len(s) == s.len(),
    decreases s.len(),
{
    if s.len() > 0 && is_space(s.last()) {
        lemma_trimmed_len_bounded(s.drop_last());
    }
}

/// What is left of `src` after position `e`, without trailing whitespace.
fn rest_of<'a>(src: &'a str, cs: &Vec<char>, e: usize) -> (r: &'a str)
    requires
        cs@ == src@,
        e <= cs@.len(),
    ensures
        r@ == rest(cs@, e as int),
{
    let t = exec_trimmed_len(cs);
    if e < t {
        src.substring_char(e, t)
    } else {
        let r = src.substring_char(e, e);
        assert(r@ =~= Seq::<char>::empty());
        r
    }
}

/// Parses a whole program: one or more lines, with nothing but whitespace
/// left over. On success the remainder is empty.
pub fn parse_program(input: &str) -> (r: Result<(&str, Program), ParseError>)
    ensures
        match parse_program_spec(input@) {
            Ok(p) => r is Ok && r->Ok_0.1@ == p && r->Ok_0.0@ == Seq::<char>::empty(),
            Err(x) => r == Err::<(&str, Program), ParseError>(x),
        },
{
    let cs = chars_of(input);
    let mut i = scan(&cs, 0, CharClass::Space);
    if i >= cs.len() {
        return Err(ParseError { position: i, expected: Expected::Instruction });
    }
    let mut instructions: Vec<AssemblyInstruction> = Vec::new();
    assert(records_view(instructions@) =~= Seq::<RecordView>::empty());
    loop
        invariant
            cs@ == input@,
            i < cs@.len(),
            lines_from(cs@, i as int, records_view(instructions@)) == parse_program_spec(input@),
        decreases cs@.len() - i,
    {
        let (rec, e) = exec_line_at(input, &cs, i)?;
        let k = scan(&cs, e, CharClass::Space);
        let ghost before = records_view(instructions@);
        let ghost rv = rec@;
        instructions.push(rec);
        proof {
            assert(records_view(instructions@) =~= before.push(rv));
        }
        if k >= cs.len() {
            let empty = input.substring_char(cs.len(), cs.len());
            assert(empty@ =~= Seq::<char>::empty());
            return Ok((empty, Program { instructions }));
        }
        if k == e {
            return Err(ParseError { position: e, expected: Expected::Separator });
        }
        i = k;
    }
}

/// Parses one line, after leading whitespace.
pub fn parse_instruction(input: &str) -> (r: Result<(&str, AssemblyInstruction), ParseError>)
    ensures
        parsed_record(input@, r, instruction_line(input@)),
{
    let cs = chars_of(input);
    let i = scan(&cs, 0, CharClass::Space);
    if i >= cs.len() {
        return Err(ParseError { position: i, expected: Expected::Instruction });
    }
    let (rec, e) = exec_line_at(input, &cs, i)?;
    Ok((rest_of(input, &cs, e), rec))
}

/// Parses an opcode mnemonic, after leading whitespace.
pub fn parse_opcode(input: &str) -> (r: Result<(&str, Token), ParseError>)
    ensures
        parsed_token(input@, r, opcode_token(input@)),
{
    let cs = chars_of(input);
    let (t, e) = exec_opcode_token(input, &cs)?;
    Ok((rest_of(input, &cs, e), t))
}

fn exec_opcode_token(src: &str, cs: &Vec<char>) -> (r: Result<(Token, usize), ParseError>)
    requires
        cs@ == src@,
    ensures
        lexed(r, opcode_token(cs@)),
        r is Ok ==> r->Ok_0.1 <= cs@.len(),
{
    let i = scan(cs, 0, CharClass::Space);
    if i < cs.len() && class_member(cs[i], CharClass::Alpha) {
        let n = scan(cs, i, CharClass::Alpha);
        let word = text_between(src, i, n);
        Ok((Token::Opcode(Opcode::from_name(word.as_str())), n))
    } else {
        Err(ParseError { position: i, expected: Expected::Opcode })
    }
}

/// Parses a register operand `$n`, after leading whitespace.
pub fn parse_register(input: &str) -> (r: Result<(&str, Token), ParseError>)
    ensures
        parsed_token(input@, r, register_at(input@, skip_space(input@, 0))),
{
    let cs = chars_of(input);
    let k = scan(&cs, 0, CharClass::Space);
    let (t, e) = exec_register_at(&cs, k)?;
    Ok((rest_of(input, &cs, e), t))
}

/// Parses an immediate operand `#n`, after leading whitespace.
pub fn parse_number(input: &str) -> (r: Result<(&str, Token), ParseError>)
    ensures
        parsed_token(input@, r, integer_at(input@, skip_space(input@, 0))),
{
    let cs = chars_of(input);
    let k = scan(&cs, 0, CharClass::Space);
    let (t, e) = exec_integer_at(&cs, k)?;
    Ok((rest_of(input, &cs, e), t))
}

/// Parses an operand (register, immediate or label usage), after leading
/// whitespace.
pub fn parse_operand(input: &str) -> (r: Result<(&str, Token), ParseError>)
    ensures
        parsed_token(input@, r, operand_token(input@)),
{
    let cs = chars_of(input);
    let k = scan(&cs, 0, CharClass::Space);
    let (t, e) = if k < cs.len() && cs[k] == '$' {
        exec_register_at(&cs, k)?
    } else if k < cs.len() && (cs[k] == '#' || cs[k] == '@') {
        exec_immediate_at(input, &cs, k)?
    } else {
        return Err(ParseError { position: k, expected: Expected::Operand });
    };
    Ok((rest_of(input, &cs, e), t))
}

/// Parses a label declaration `name:`, after leading whitespace.
pub fn parse_label_declaration(input: &str) -> (r: Result<(&str, Token), ParseError>)
    ensures
        parsed_token(input@, r, label_declaration_token(input@)),
{
    let cs = chars_of(input);
    let i = scan(&cs, 0, CharClass::Space);
    let a = scan(&cs, i, CharClass::Alnum);
    if a == i {
        return Err(ParseError { position: i, expected: Expected::Name });
    }
    if a < cs.len() && cs[a] == ':' {
        Ok((rest_of(input, &cs, a + 1), Token::LabelDeclaration(text_between(input, i, a))))
    } else {
        Err(ParseError { position: a, expected: Expected::Colon })
    }
}

/// Parses a label usage `@name`, after leading whitespace.
pub fn parse_label_usage(input: &str) -> (r: Result<(&str, Token), ParseError>)
    ensures
        parsed_token(input@, r, label_usage_at(input@, skip_space(input@, 0))),
{
    let cs = chars_of(input);
    let k = scan(&cs, 0, CharClass::Space);
    let (t, e) = exec_label_usage_at(input, &cs, k)?;
    Ok((rest_of(input, &cs, e), t))
}

/// Parses a directive `.name`, after leading whitespace.
pub fn parse_directive_declaration(input: &str) -> (r: Result<(&str, Token), ParseError>)
    ensures
        parsed_token(input@, r, directive_token(input@)),
{
    let cs = chars_of(input);
    let i = scan(&cs, 0, CharClass::Space);
    if i < cs.len() && cs[i] == '.' {
        let n = scan(&cs, i + 1, CharClass::Alnum);
        if n == i + 1 {
            return Err(ParseError { position: i + 1, expected: Expected::Name });
        }
        Ok((rest_of(input, &cs, n), Token::Directive(text_between(input, i + 1, n))))
    } else {
        Err(ParseError { position: i, expected: Expected::Directive })
    }
}

/// Parses a directive line, optionally labelled, with its operands.
pub fn parse_directive_combined(input: &str) -> (r: Result<(&str, AssemblyInstruction), ParseError>)
    ensures
        parsed_record(input@, r, directive_line(input@)),
{
    let cs = chars_of(input);
    let i = scan(&cs, 0, CharClass::Space);
    let (rec, e) = exec_line_at(input, &cs, i)?;
    if rec.directive.is_some() {
        Ok((rest_of(input, &cs, e), rec))
    } else {
        Err(ParseError { position: i, expected: Expected::Directive })
    }
}

/// Operands of the given kinds (`true` for a register, `false` for an
/// immediate), in order, from `e`.
fn exec_form_operands(src: &str, cs: &Vec<char>, e: usize, kinds: &[bool]) -> (r: Result<(Vec<Token>, usize), ParseError>)
    requires
        cs@ == src@,
        e <= cs@.len(),
    ensures
        match form_operands(cs@, e as int, kinds@) {
            Ok((ops, d)) => r is Ok && r->Ok_0.0@.map_values(|t: Token| t@) == ops && r->Ok_0.1 == d,
            Err(x) => r == Err::<(Vec<Token>, usize), ParseError>(x),
        },
        r is Ok ==> r->Ok_0.1 <= cs@.len() && r->Ok_0.0@.len() == kinds@.len(),
{
    let mut ops: Vec<Token> = Vec::new();
    let mut pos: usize = e;
    let mut n: usize = 0;
    assert(kinds@.take(0) =~= Seq::<bool>::empty());
    assert(ops@.map_values(|t: Token| t@) =~= Seq::<TokenView>::empty());
    while n < kinds.len()
        invariant
            cs@ == src@,
            n <= kinds@.len(),
            pos <= cs@.len(),
            ops@.len() == n,
            form_operands(cs@, e as int, kinds@.take(n as int)) == Ok::<(Seq<TokenView>, int), ParseError>(
                (ops@.map_values(|t: Token| t@), pos as int),
            ),
        decreases kinds@.len() - n,
    {
        proof {
            assert(kinds@.take(n + 1).drop_last() =~= kinds@.take(n as int));
        }
        let k = scan(cs, pos, CharClass::Space);
        let register = kinds[n];
        if k == pos || k >= cs.len() {
            let x = ParseError { position: k, expected: if register { Expected::Register } else { Expected::Integer } };
            proof {
                lemma_form_error_stays(cs@, e as int, kinds@, n + 1);
            }
            return Err(x);
        }
        let p = if register {
            exec_register_at(cs, k)
        } else {
            exec_immediate_at(src, cs, k)
        };
        match p {
            Err(x) => {
                proof {
                    lemma_form_error_stays(cs@, e as int, kinds@, n + 1);
                }
                return Err(x);
            },
            Ok((t, d)) => {
                let ghost before = ops@.map_values(|t: Token| t@);
                let ghost tv = t@;
                ops.push(t);
                assert(ops@.map_values(|t: Token| t@) =~= before.push(tv));
                pos = d;
            },
        }
        n = n + 1;
    }
    assert(kinds@.take(n as int) =~= kinds@);
    Ok((ops, pos))
}

/// Once a prefix of the kinds fails, the whole form fails with that error.
proof fn lemma_form_error_stays(s: Seq<char>, e: int, kinds: Seq<bool>, n: int)
    requires
        0 <= n <= kinds.len(),
        form_operands(s, e, kinds.take(n)) is Err,
    ensures
        form_operands(s, e, kinds) == form_operands(s, e, kinds.take(n)),
    decreases kinds.len() - n,
{
    if n < kinds.len() {
        assert(kinds.take(n + 1).drop_last() =~= kinds.take(n));
        lemma_form_error_stays(s, e, kinds, n + 1);
    } else {
        assert(kinds.take(n) =~= kinds);
    }
}

/// An instruction of one fixed form, after leading whitespace.
fn exec_instruction_form<'a>(input: &'a str, kinds: &[bool]) -> (r: Result<(&'a str, AssemblyInstruction), ParseError>)
    requires
        kinds@.len() <= 3,
    ensures
        parsed_record(input@, r, instruction_form(input@, kinds@)),
{
    let cs = chars_of(input);
    let (op, n) = exec_opcode_token(input, &cs)?;
    let (mut ops, e) = exec_form_operands(input, &cs, n, kinds)?;
    let ghost views = ops@.map_values(|t: Token| t@);
    let ghost all = ops@;
    let o3 = if ops.len() == 3 {
        ops.pop()
    } else {
        None
    };
    assert(all.len() == 3 ==> o3 == Some(all[2]) && ops@ == all.take(2));
    assert(all.len() < 3 ==> o3 is None && ops@ == all);
    let o2 = if ops.len() == 2 {
        ops.pop()
    } else {
        None
    };
    assert(all.len() >= 2 ==> o2 == Some(all[1]) && ops@ == all.take(1));
    assert(all.len() < 2 ==> o2 is None && ops@ == all);
    let o1 = if ops.len() == 1 {
        ops.pop()
    } else {
        None
    };
    assert(all.len() >= 1 ==> o1 == Some(all[0]));
    assert(all.len() < 1 ==> o1 is None);
    let rec = AssemblyInstruction { opcode: Some(op), label: None, directive: None, operand1: o1, operand2: o2, operand3: o3 };
    assert(rec@.operand1 == nth_operand(views, 0));
    assert(rec@.operand2 == nth_operand(views, 1));
    assert(rec@.operand3 == nth_operand(views, 2));
    Ok((rest_of(input, &cs, e), rec))
}

/// Parses an instruction with no operands: `HLT`.
pub fn parse_instruction0(input: &str) -> (r: Result<(&str, AssemblyInstruction), ParseError>)
    ensures
        parsed_record(input@, r, instruction_form(input@, seq![])),
{
    let kinds: [bool; 0] = [];
    assert(kinds@ =~= seq![]);
    exec_instruction_form(input, &kinds)
}

/// Parses an instruction of the form `OPCODE $r #n`.
pub fn parse_instruction1(input: &str) -> (r: Result<(&str, AssemblyInstruction), ParseError>)
    ensures
        parsed_record(input@, r, instruction_form(input@, seq![true, false])),
{
    let kinds: [bool; 2] = [true, false];
    assert(kinds@ =~= seq![true, false]);
    exec_instruction_form(input, &kinds)
}

/// Parses an instruction of the form `OPCODE $r $r $r`.
pub fn parse_instruction2(input: &str) -> (r: Result<(&str, AssemblyInstruction), ParseError>)
    ensures
        parsed_record(input@, r, instruction_form(input@, seq![true, true, true])),
{
    let kinds: [bool; 3] = [true, true, true];
    assert(kinds@ =~= seq![true, true, true]);
    exec_instruction_form(input, &kinds)
}

/// Parses an instruction of the form `OPCODE $r $r`.
pub fn parse_instruction3(input: &str) -> (r: Result<(&str, AssemblyInstruction), ParseError>)
    ensures
        parsed_record(input@, r, instruction_form(input@, seq![true, true])),
{
    let kinds: [bool; 2] = [true, true];
    assert(kinds@ =~= seq![true, true]);
    exec_instruction_form(input, &kinds)
}

/// Parses an instruction of the form `OPCODE $r`.
pub fn parse_instruction4(input: &str) -> (r: Result<(&str, AssemblyInstruction), ParseError>)
    ensures
        parsed_record(input@, r, instruction_form(input@, seq![true])),
{
    let kinds: [bool; 1] = [true];
    assert(kinds@ =~= seq![true]);
    exec_instruction_form(input, &kinds)
}

} // verus!
