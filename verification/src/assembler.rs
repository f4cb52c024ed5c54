//! A two-pass assembler for the instruction set.
//!
//! The first pass walks the source line by line, strips comments
//! (everything from `;`), collects `label:` definitions with the current
//! instruction address, and parses each remaining instruction. The
//! second pass resolves label operands — offset by the stack region's
//! size, exactly as the engine's call handler translates call targets —
//! and encodes each instruction into its 16-bit word, emitted big-endian.

use vstd::prelude::*;
use vstd::slice::slice_subrange;
use crate::STACK_SIZE;
use crate::opcodes::Opcode;

verus! {

/// An address operand: either a numeric literal or a label name to be
/// resolved in the second pass.
#[derive(Debug, Clone, PartialEq, Eq)]
pub enum AddrOperand {
    Imm(u16),
    Label(Vec<u8>),
}

/// The abstract value of an address operand.
pub ghost enum AddrOperandView {
    Imm(u16),
    Label(Seq<u8>),
}

impl View for AddrOperand {
    type V = AddrOperandView;

    open spec fn view(&self) -> AddrOperandView {
        match self {
            AddrOperand::Imm(v) => AddrOperandView::Imm(*v),
            AddrOperand::Label(name) => AddrOperandView::Label(name@),
        }
    }
}

/// A parsed instruction, operands still unresolved.
#[derive(Debug, Clone, PartialEq, Eq)]
pub enum ParsedInstr {
    Nop,
    Halt(u8),
    Mov(u8, u8),
    Add(u8, u8),
    Sub(u8, u8),
    Ldi(u8, u8),
    Jmp(AddrOperand),
    Jz(AddrOperand),
    Jnz(AddrOperand),
    Call(AddrOperand),
    Ret,
    Push(u8),
    Pop(u8),
    Ld(AddrOperand),
    St(AddrOperand),
}

/// The abstract value of a parsed instruction.
pub ghost enum ParsedInstrView {
    Nop,
    Halt(u8),
    Mov(u8, u8),
    Add(u8, u8),
    Sub(u8, u8),
    Ldi(u8, u8),
    Jmp(AddrOperandView),
    Jz(AddrOperandView),
    Jnz(AddrOperandView),
    Call(AddrOperandView),
    Ret,
    Push(u8),
    Pop(u8),
    Ld(AddrOperandView),
    St(AddrOperandView),
}

impl View for ParsedInstr {
    type V = ParsedInstrView;

    open spec fn view(&self) -> ParsedInstrView {
        match self {
            ParsedInstr::Nop => ParsedInstrView::Nop,
            ParsedInstr::Halt(code) => ParsedInstrView::Halt(*code),
            ParsedInstr::Mov(dst, src) => ParsedInstrView::Mov(*dst, *src),
            ParsedInstr::Add(dst, src) => ParsedInstrView::Add(*dst, *src),
            ParsedInstr::Sub(dst, src) => ParsedInstrView::Sub(*dst, *src),
            ParsedInstr::Ldi(dst, imm) => ParsedInstrView::Ldi(*dst, *imm),
            ParsedInstr::Jmp(op) => ParsedInstrView::Jmp(op@),
            ParsedInstr::Jz(op) => ParsedInstrView::Jz(op@),
            ParsedInstr::Jnz(op) => ParsedInstrView::Jnz(op@),
            ParsedInstr::Call(op) => ParsedInstrView::Call(op@),
            ParsedInstr::Ret => ParsedInstrView::Ret,
            ParsedInstr::Push(r) => ParsedInstrView::Push(*r),
            ParsedInstr::Pop(r) => ParsedInstrView::Pop(*r),
            ParsedInstr::Ld(op) => ParsedInstrView::Ld(op@),
            ParsedInstr::St(op) => ParsedInstrView::St(op@),
        }
    }
}

/// A parsed instruction together with the source line it came from, for
/// error reporting in the second pass.
#[derive(Debug, Clone, PartialEq, Eq)]
pub struct InstrNode {
    pub line: usize,
    pub instr: ParsedInstr,
}

/// Everything the assembler can reject, each with the source line (from
/// 1) it was found on.
#[derive(Debug, Clone, Copy, PartialEq, Eq, Structural)]
pub enum AsmError {
    /// A `:` with no label name before it.
    EmptyLabel(usize),
    /// A label name defined twice.
    DuplicateLabel(usize),
    /// A line that holds no instruction after the label.
    EmptyInstruction(usize),
    /// A mnemonic that names no instruction.
    UnknownInstruction(usize),
    /// The wrong number of operands for the mnemonic.
    WrongArgumentCount(usize),
    /// An operand starting with `R` that is not a register number.
    InvalidRegister(usize),
    /// A register number outside `R0`-`R7`.
    RegisterOutOfRange(usize),
    /// An operand that is not a register at all.
    UnknownRegister(usize),
    /// An operand that is not a number.
    InvalidNumber(usize),
    /// A number that does not fit in 8 bits.
    NumberTooWide(usize),
    /// A resolved address that does not fit in the 12 address bits.
    AddressOutOfRange(usize),
    /// A label operand that no line defines.
    UnknownLabel(usize),
    /// More instructions than the address space holds.
    ProgramTooLarge,
}

/// ASCII decimal digit.
pub open spec fn is_digit(b: u8) -> bool {
    0x30 <= b <= 0x39
}

/// ASCII hexadecimal digit.
pub open spec fn is_hex_digit(b: u8) -> bool {
    is_digit(b) || (0x41 <= b <= 0x46) || (0x61 <= b <= 0x66)
}

/// The value of an ASCII hexadecimal digit.
pub open spec fn hex_digit_value(b: u8) -> int {
    if is_digit(b) {
        b - 0x30
    } else if 0x41 <= b <= 0x46 {
        b - 0x41 + 10
    } else {
        b - 0x61 + 10
    }
}

/// Whether every byte of `s` is an ASCII decimal digit.
pub open spec fn all_digits(s: Seq<u8>) -> bool {
    forall|i: int| 0 <= i < s.len() ==> is_digit(#[trigger] s[i])
}

/// Whether every byte of `s` is an ASCII hexadecimal digit.
pub open spec fn all_hex_digits(s: Seq<u8>) -> bool {
    forall|i: int| 0 <= i < s.len() ==> is_hex_digit(#[trigger] s[i])
}

/// The value of a decimal digit string.
pub open spec fn dec_value(s: Seq<u8>) -> int
    decreases s.len(),
{
    if s.len() == 0 {
        0
    } else {
        dec_value(s.drop_last()) * 10 + (s.last() - 0x30)
    }
}

/// The value of a hexadecimal digit string.
pub open spec fn hex_value(s: Seq<u8>) -> int
    decreases s.len(),
{
    if s.len() == 0 {
        0
    } else {
        hex_value(s.drop_last()) * 16 + hex_digit_value(s.last())
    }
}

/// The 16-bit value a numeric literal denotes, if any: `0x`/`0X`
/// followed by hexadecimal digits, or plain decimal digits, rejected
/// when empty, malformed or too large for 16 bits.
pub open spec fn spec_parse_u16_literal(s: Seq<u8>) -> Option<u16> {
    if s.len() >= 2 && s[0] == 0x30 && (s[1] == 0x78 || s[1] == 0x58) {
        let digits = s.skip(2);
        if digits.len() > 0 && all_hex_digits(digits) && hex_value(digits) <= 0xFFFF {
            Some(hex_value(digits) as u16)
        } else {
            None
        }
    } else if s.len() > 0 && all_digits(s) && dec_value(s) <= 0xFFFF {
        Some(dec_value(s) as u16)
    } else if s.len() > 0 && all_digits(s) {
        None
    } else {
        None
    }
}

/// A decimal digit string is nonnegative.
proof fn lemma_dec_value_nonneg(s: Seq<u8>)
    requires
        all_digits(s),
    ensures
        dec_value(s) >= 0,
    decreases s.len(),
{
    if s.len() > 0 {
        assert(all_digits(s.drop_last()));
        lemma_dec_value_nonneg(s.drop_last());
    }
}

/// A hexadecimal digit string is nonnegative.
proof fn lemma_hex_value_nonneg(s: Seq<u8>)
    requires
        all_hex_digits(s),
    ensures
        hex_value(s) >= 0,
    decreases s.len(),
{
    if s.len() > 0 {
        assert(all_hex_digits(s.drop_last()));
        lemma_hex_value_nonneg(s.drop_last());
    }
}

/// Parse a decimal digit string, rejecting values above `0xFFFF`.
fn parse_dec_digits(s: &[u8]) -> (r: Option<u16>)
    ensures
        r == (if s@.len() > 0 && all_digits(s@) && dec_value(s@) <= 0xFFFF {
            Some(dec_value(s@) as u16)
        } else {
            None::<u16>
        }),
{
    if s.len() == 0 {
        return None;
    }
    let mut acc: u32 = 0;
    let mut i: usize = 0;
    while i < s.len()
        invariant
            i <= s@.len(),
            s@.len() > 0,
            all_digits(s@.take(i as int)),
            acc == dec_value(s@.take(i as int)),
            acc <= 0xFFFF,
        decreases s@.len() - i,
    {
        let b = s[i];
        if !(0x30 <= b && b <= 0x39) {
            proof {
                assert(!is_digit(s@[i as int]));
            }
            return None;
        }
        let digit = (b - 0x30) as u32;
        let next = acc * 10 + digit;
        proof {
            assert(s@.take(i + 1).drop_last() =~= s@.take(i as int));
            assert(s@.take(i + 1).last() == s@[i as int]);
        }
        if next > 0xFFFF {
            proof {
                if all_digits(s@) {
                    lemma_dec_prefix_monotonic(s@, i + 1);
                }
            }
            return None;
        }
        acc = next;
        i = i + 1;
    }
    proof {
        assert(s@.take(s@.len() as int) =~= s@);
    }
    Some(acc as u16)
}

/// Once a decimal prefix exceeds 16 bits, the whole string does.
proof fn lemma_dec_prefix_monotonic(s: Seq<u8>, k: int)
    requires
        0 <= k <= s.len(),
        all_digits(s),
        dec_value(s.take(k)) > 0xFFFF,
    ensures
        dec_value(s) > 0xFFFF,
    decreases s.len() - k,
{
    if k < s.len() {
        assert(s.take(k + 1).drop_last() =~= s.take(k));
        assert(is_digit(s.take(k + 1).last()));
        lemma_dec_prefix_monotonic(s, k + 1);
    } else {
        assert(s.take(k) =~= s);
    }
}

/// Once a hexadecimal prefix exceeds 16 bits, the whole string does.
proof fn lemma_hex_prefix_monotonic(s: Seq<u8>, k: int)
    requires
        0 <= k <= s.len(),
        all_hex_digits(s),
        hex_value(s.take(k)) > 0xFFFF,
    ensures
        hex_value(s) > 0xFFFF,
    decreases s.len() - k,
{
    if k < s.len() {
        assert(s.take(k + 1).drop_last() =~= s.take(k));
        assert(is_hex_digit(s.take(k + 1).last()));
        lemma_hex_prefix_monotonic(s, k + 1);
    } else {
        assert(s.take(k) =~= s);
    }
}

/// Parse a hexadecimal digit string, rejecting values above `0xFFFF`.
fn parse_hex_digits(s: &[u8]) -> (r: Option<u16>)
    ensures
        r == (if s@.len() > 0 && all_hex_digits(s@) && hex_value(s@) <= 0xFFFF {
            Some(hex_value(s@) as u16)
        } else {
            None::<u16>
        }),
{
    if s.len() == 0 {
        return None;
    }
    let mut acc: u32 = 0;
    let mut i: usize = 0;
    while i < s.len()
        invariant
            i <= s@.len(),
            s@.len() > 0,
            all_hex_digits(s@.take(i as int)),
            acc == hex_value(s@.take(i as int)),
            acc <= 0xFFFF,
        decreases s@.len() - i,
    {
        let b = s[i];
        let digit: u32 = if 0x30 <= b && b <= 0x39 {
            (b - 0x30) as u32
        } else if 0x41 <= b && b <= 0x46 {
            (b - 0x41) as u32 + 10
        } else if 0x61 <= b && b <= 0x66 {
            (b - 0x61) as u32 + 10
        } else {
            proof {
                assert(!is_hex_digit(s@[i as int]));
            }
            return None;
        };
        let next = acc * 16 + digit;
        proof {
            assert(s@.take(i + 1).drop_last() =~= s@.take(i as int));
            assert(s@.take(i + 1).last() == s@[i as int]);
        }
        if next > 0xFFFF {
            proof {
                if all_hex_digits(s@) {
                    lemma_hex_prefix_monotonic(s@, i + 1);
                }
            }
            return None;
        }
        acc = next;
        i = i + 1;
    }
    proof {
        assert(s@.take(s@.len() as int) =~= s@);
    }
    Some(acc as u16)
}

/// Parse a 16-bit numeric literal: `0x`/`0X` hexadecimal or plain
/// decimal.
pub fn parse_u16_literal(s: &[u8]) -> (r: Option<u16>)
    ensures
        r == spec_parse_u16_literal(s@),
{
    if s.len() >= 2 && s[0] == 0x30 && (s[1] == 0x78 || s[1] == 0x58) {
        let digits = slice_subrange(s, 2, s.len());
        proof {
            assert(digits@ =~= s@.skip(2));
        }
        parse_hex_digits(digits)
    } else {
        parse_dec_digits(s)
    }
}

/// ASCII whitespace, as the tokenizer and trimmer treat it.
pub open spec fn is_space(b: u8) -> bool {
    b == 0x20 || (0x09 <= b <= 0x0D)
}

/// The ASCII byte uppercased.
pub open spec fn spec_upper(b: u8) -> u8 {
    if 0x61 <= b <= 0x7A {
        (b - 0x20) as u8
    } else {
        b
    }
}

/// The ASCII string uppercased.
pub open spec fn upper_seq(s: Seq<u8>) -> Seq<u8> {
    s.map_values(|b: u8| spec_upper(b))
}

/// The end of the whitespace-delimited token starting at `i`: the first
/// position at or after `i` holding whitespace, or the end of the input.
pub open spec fn spec_token_end(s: Seq<u8>, i: int) -> int
    decreases s.len() - i when 0 <= i <= s.len()
{
    if i >= s.len() || is_space(s[i]) {
        i
    } else {
        spec_token_end(s, i + 1)
    }
}

/// Token ends stay inside the input.
pub proof fn lemma_token_end_bounds(s: Seq<u8>, i: int)
    requires
        0 <= i <= s.len(),
    ensures
        i <= spec_token_end(s, i) <= s.len(),
    decreases s.len() - i,
{
    if !(i >= s.len() || is_space(s[i])) {
        lemma_token_end_bounds(s, i + 1);
    }
}

/// A token with the commas stripped from both ends.
pub open spec fn trim_commas(t: Seq<u8>) -> Seq<u8>
    decreases t.len(),
{
    if t.len() > 0 && t[0] == 0x2C {
        trim_commas(t.skip(1))
    } else if t.len() > 0 && t.last() == 0x2C {
        trim_commas(t.drop_last())
    } else {
        t
    }
}

/// The whitespace-delimited tokens of `s` from position `i` on, each
/// with commas stripped from its ends, empty tokens dropped.
pub open spec fn spec_tokens(s: Seq<u8>, i: int) -> Seq<Seq<u8>>
    decreases s.len() - i when 0 <= i <= s.len() via spec_tokens_decreases
{
    if i >= s.len() {
        Seq::empty()
    } else if is_space(s[i]) {
        spec_tokens(s, i + 1)
    } else {
        let e = spec_token_end(s, i);
        let t = trim_commas(s.subrange(i, e));
        let rest = spec_tokens(s, e);
        if t.len() > 0 {
            seq![t] + rest
        } else {
            rest
        }
    }
}

#[via_fn]
proof fn spec_tokens_decreases(s: Seq<u8>, i: int) {
    if 0 <= i < s.len() && !is_space(s[i]) {
        lemma_token_end_bounds(s, i + 1);
    }
}

/// The token sequence a vector of owned tokens stands for.
pub open spec fn tokens_view(tokens: Seq<Vec<u8>>) -> Seq<Seq<u8>> {
    tokens.map_values(|t: Vec<u8>| t@)
}

/// Whether `b` is ASCII whitespace.
fn byte_is_space(b: u8) -> (r: bool)
    ensures
        r == is_space(b),
{
    b == 0x20 || (0x09 <= b && b <= 0x0D)
}

/// The end of the token starting at `i`.
fn token_end(s: &[u8], i: usize) -> (r: usize)
    requires
        i <= s@.len(),
    ensures
        r == spec_token_end(s@, i as int),
        i <= r <= s@.len(),
{
    let mut j = i;
    while j < s.len() && !byte_is_space(s[j])
        invariant
            i <= j <= s@.len(),
            spec_token_end(s@, i as int) == spec_token_end(s@, j as int),
        decreases s@.len() - j,
    {
        j = j + 1;
    }
    j
}

/// Strip the commas from both ends of a token.
fn trim_commas_slice(t: &[u8]) -> (r: &[u8])
    ensures
        r@ == trim_commas(t@),
    decreases t@.len(),
{
    if t.len() > 0 && t[0] == 0x2C {
        let rest = slice_subrange(t, 1, t.len());
        proof {
            assert(rest@ =~= t@.skip(1));
        }
        trim_commas_slice(rest)
    } else if t.len() > 0 && t[t.len() - 1] == 0x2C {
        let rest = slice_subrange(t, 0, t.len() - 1);
        proof {
            assert(rest@ =~= t@.drop_last());
        }
        trim_commas_slice(rest)
    } else {
        t
    }
}

/// Split `text` into whitespace-delimited tokens, stripping commas from
/// the ends of each token and dropping tokens that were only commas.
pub fn tokenize(text: &[u8]) -> (r: Vec<Vec<u8>>)
    ensures
        tokens_view(r@) == spec_tokens(text@, 0),
{
    let mut out: Vec<Vec<u8>> = Vec::new();
    let mut i: usize = 0;
    proof {
        assert(tokens_view(out@) + spec_tokens(text@, 0) =~= spec_tokens(text@, 0));
    }
    while i < text.len()
        invariant
            i <= text@.len(),
            tokens_view(out@) + spec_tokens(text@, i as int) == spec_tokens(text@, 0),
        decreases text@.len() - i,
    {
        if byte_is_space(text[i]) {
            i = i + 1;
        } else {
            let e = token_end(text, i);
            proof {
                lemma_token_end_bounds(text@, i as int);
            }
            let raw = slice_subrange(text, i, e);
            let t = trim_commas_slice(raw);
            let ghost prev = out@;
            if t.len() > 0 {
                out.push(vstd::slice::slice_to_vec(t));
                proof {
                    assert(tokens_view(out@) =~= tokens_view(prev).push(t@));
                }
            }
            proof {
                assert(spec_token_end(text@, i as int) == spec_token_end(text@, i + 1));
                lemma_token_end_bounds(text@, i + 1);
                assert(e > i);
                assert(tokens_view(out@) + spec_tokens(text@, e as int) =~= spec_tokens(
                    text@,
                    0,
                ));
            }
            i = e;
        }
    }
    proof {
        assert(spec_tokens(text@, i as int) =~= Seq::<Seq<u8>>::empty());
        assert(tokens_view(out@) =~= spec_tokens(text@, 0));
    }
    out
}

/// The register number an operand names: `R`/`r` followed by a decimal
/// number up to 7. A malformed or oversized number is rejected; an
/// operand without the register prefix is rejected as no register.
pub open spec fn spec_parse_reg(s: Seq<u8>, line: usize) -> Result<u8, AsmError> {
    if s.len() >= 1 && (s[0] == 0x52 || s[0] == 0x72) {
        let num = s.skip(1);
        if num.len() == 0 || !all_digits(num) || dec_value(num) > 255 {
            Err(AsmError::InvalidRegister(line))
        } else if dec_value(num) <= 7 {
            Ok(dec_value(num) as u8)
        } else {
            Err(AsmError::RegisterOutOfRange(line))
        }
    } else {
        Err(AsmError::UnknownRegister(line))
    }
}

/// Parse a general-purpose register operand.
pub fn parse_reg(s: &[u8], line: usize) -> (r: Result<u8, AsmError>)
    ensures
        r == spec_parse_reg(s@, line),
{
    if s.len() >= 1 && (s[0] == 0x52 || s[0] == 0x72) {
        let num = slice_subrange(s, 1, s.len());
        proof {
            assert(num@ =~= s@.skip(1));
            if all_digits(num@) {
                lemma_dec_value_nonneg(num@);
            }
        }
        match parse_dec_digits(num) {
            Option::None => {
                proof {
                    if num@.len() > 0 && all_digits(num@) {
                        assert(dec_value(num@) > 0xFFFF);
                    }
                }
                Err(AsmError::InvalidRegister(line))
            },
            Option::Some(n) => {
                if n > 255 {
                    Err(AsmError::InvalidRegister(line))
                } else if n <= 7 {
                    Ok(n as u8)
                } else {
                    Err(AsmError::RegisterOutOfRange(line))
                }
            },
        }
    } else {
        Err(AsmError::UnknownRegister(line))
    }
}

/// The 8-bit value a numeric operand denotes: a 16-bit literal that must
/// fit in 8 bits.
pub open spec fn spec_parse_u8(s: Seq<u8>, line: usize) -> Result<u8, AsmError> {
    match spec_parse_u16_literal(s) {
        Option::Some(v) => if v <= 0xFF {
            Ok(v as u8)
        } else {
            Err(AsmError::NumberTooWide(line))
        },
        Option::None => Err(AsmError::InvalidNumber(line)),
    }
}

/// Parse an 8-bit numeric operand.
pub fn parse_u8(s: &[u8], line: usize) -> (r: Result<u8, AsmError>)
    ensures
        r == spec_parse_u8(s@, line),
{
    match parse_u16_literal(s) {
        Option::Some(v) => if v <= 0xFF {
            Ok(v as u8)
        } else {
            Err(AsmError::NumberTooWide(line))
        },
        Option::None => Err(AsmError::InvalidNumber(line)),
    }
}

/// An address operand: a numeric literal, or otherwise a label name.
pub open spec fn spec_parse_addr_operand(s: Seq<u8>) -> AddrOperandView {
    match spec_parse_u16_literal(s) {
        Option::Some(v) => AddrOperandView::Imm(v),
        Option::None => AddrOperandView::Label(s),
    }
}

/// Parse an address operand.
pub fn parse_addr_operand(s: &[u8]) -> (r: AddrOperand)
    ensures
        r@ == spec_parse_addr_operand(s@),
{
    match parse_u16_literal(s) {
        Option::Some(v) => AddrOperand::Imm(v),
        Option::None => AddrOperand::Label(vstd::slice::slice_to_vec(s)),
    }
}

/// Uppercase an ASCII token.
fn to_upper_vec(t: &[u8]) -> (r: Vec<u8>)
    ensures
        r@ == upper_seq(t@),
{
    let mut out: Vec<u8> = Vec::new();
    let mut i: usize = 0;
    while i < t.len()
        invariant
            i <= t@.len(),
            out@ == upper_seq(t@.take(i as int)),
        decreases t@.len() - i,
    {
        let b = t[i];
        let u: u8 = if 0x61 <= b && b <= 0x7A {
            b - 0x20
        } else {
            b
        };
        out.push(u);
        proof {
            assert(out@ =~= upper_seq(t@.take(i + 1)));
        }
        i = i + 1;
    }
    proof {
        assert(t@.take(t@.len() as int) =~= t@);
    }
    out
}

/// Whether two byte strings are equal.
fn bytes_eq(a: &[u8], b: &[u8]) -> (r: bool)
    ensures
        r == (a@ == b@),
{
    if a.len() != b.len() {
        proof {
            assert(a@ != b@);
        }
        return false;
    }
    let mut i: usize = 0;
    while i < a.len()
        invariant
            i <= a@.len(),
            a@.len() == b@.len(),
            forall|j: int| 0 <= j < i ==> a@[j] == b@[j],
        decreases a@.len() - i,
    {
        if a[i] != b[i] {
            return false;
        }
        i = i + 1;
    }
    proof {
        assert(a@ =~= b@);
    }
    true
}

/// Whether a token is a given three-byte string.
fn matches2(m: &[u8], a: u8, b: u8) -> (r: bool)
    ensures
        r == (m@ == seq![a, b]),
{
    let eq = m.len() == 2 && m[0] == a && m[1] == b;
    proof {
        if eq {
            assert(m@ =~= seq![a, b]);
        }
    }
    eq
}

/// Whether a token is a given three-byte string.
fn matches3(m: &[u8], a: u8, b: u8, c: u8) -> (r: bool)
    ensures
        r == (m@ == seq![a, b, c]),
{
    let eq = m.len() == 3 && m[0] == a && m[1] == b && m[2] == c;
    proof {
        if eq {
            assert(m@ =~= seq![a, b, c]);
        }
    }
    eq
}

/// Whether a token is a given four-byte string.
fn matches4(m: &[u8], a: u8, b: u8, c: u8, d: u8) -> (r: bool)
    ensures
        r == (m@ == seq![a, b, c, d]),
{
    let eq = m.len() == 4 && m[0] == a && m[1] == b && m[2] == c && m[3] == d;
    proof {
        if eq {
            assert(m@ =~= seq![a, b, c, d]);
        }
    }
    eq
}

/// The instruction a token list denotes. The first token, uppercased, is
/// the mnemonic; the rest are its operands. Unknown mnemonics, wrong
/// operand counts and malformed operands are rejected, the leftmost
/// malformed operand first.
#[verifier::opaque]
pub open spec fn spec_parse_instruction(toks: Seq<Seq<u8>>, line: usize) -> Result<
    ParsedInstrView,
    AsmError,
> {
    if toks.len() == 0 {
        Err(AsmError::EmptyInstruction(line))
    } else {
        let m = upper_seq(toks[0]);
        let argc = toks.len() - 1;
        if m == seq![0x4Eu8, 0x4F, 0x50] {  // NOP
            if argc != 0 {
                Err(AsmError::WrongArgumentCount(line))
            } else {
                Ok(ParsedInstrView::Nop)
            }
        } else if m == seq![0x48u8, 0x41, 0x4C, 0x54] {  // HALT
            if argc == 0 {
                Ok(ParsedInstrView::Halt(0))
            } else if argc == 1 {
                match spec_parse_u8(toks[1], line) {
                    Ok(code) => Ok(ParsedInstrView::Halt(code)),
                    Err(e) => Err(e),
                }
            } else {
                Err(AsmError::WrongArgumentCount(line))
            }
        } else if m == seq![0x4Du8, 0x4F, 0x56] {  // MOV
            if argc != 2 {
                Err(AsmError::WrongArgumentCount(line))
            } else {
                match (spec_parse_reg(toks[1], line), spec_parse_reg(toks[2], line)) {
                    (Ok(dst), Ok(src)) => Ok(ParsedInstrView::Mov(dst, src)),
                    (Err(e), _) => Err(e),
                    (_, Err(e)) => Err(e),
                }
            }
        } else if m == seq![0x41u8, 0x44, 0x44] {  // ADD
            if argc != 2 {
                Err(AsmError::WrongArgumentCount(line))
            } else {
                match (spec_parse_reg(toks[1], line), spec_parse_reg(toks[2], line)) {
                    (Ok(dst), Ok(src)) => Ok(ParsedInstrView::Add(dst, src)),
                    (Err(e), _) => Err(e),
                    (_, Err(e)) => Err(e),
                }
            }
        } else if m == seq![0x53u8, 0x55, 0x42] {  // SUB
            if argc != 2 {
                Err(AsmError::WrongArgumentCount(line))
            } else {
                match (spec_parse_reg(toks[1], line), spec_parse_reg(toks[2], line)) {
                    (Ok(dst), Ok(src)) => Ok(ParsedInstrView::Sub(dst, src)),
                    (Err(e), _) => Err(e),
                    (_, Err(e)) => Err(e),
                }
            }
        } else if m == seq![0x4Cu8, 0x44, 0x49] {  // LDI
            if argc != 2 {
                Err(AsmError::WrongArgumentCount(line))
            } else {
                match (spec_parse_reg(toks[1], line), spec_parse_u8(toks[2], line)) {
                    (Ok(dst), Ok(imm)) => Ok(ParsedInstrView::Ldi(dst, imm)),
                    (Err(e), _) => Err(e),
                    (_, Err(e)) => Err(e),
                }
            }
        } else if m == seq![0x4Au8, 0x4D, 0x50] {  // JMP
            if argc != 1 {
                Err(AsmError::WrongArgumentCount(line))
            } else {
                Ok(ParsedInstrView::Jmp(spec_parse_addr_operand(toks[1])))
            }
        } else if m == seq![0x4Au8, 0x5A] {  // JZ
            if argc != 1 {
                Err(AsmError::WrongArgumentCount(line))
            } else {
                Ok(ParsedInstrView::Jz(spec_parse_addr_operand(toks[1])))
            }
        } else if m == seq![0x4Au8, 0x4E, 0x5A] {  // JNZ
            if argc != 1 {
                Err(AsmError::WrongArgumentCount(line))
            } else {
                Ok(ParsedInstrView::Jnz(spec_parse_addr_operand(toks[1])))
            }
        } else if m == seq![0x43u8, 0x41, 0x4C, 0x4C] {  // CALL
            if argc != 1 {
                Err(AsmError::WrongArgumentCount(line))
            } else {
                Ok(ParsedInstrView::Call(spec_parse_addr_operand(toks[1])))
            }
        } else if m == seq![0x52u8, 0x45, 0x54] {  // RET
            if argc != 0 {
                Err(AsmError::WrongArgumentCount(line))
            } else {
                Ok(ParsedInstrView::Ret)
            }
        } else if m == seq![0x50u8, 0x55, 0x53, 0x48] {  // PUSH
            if argc != 1 {
                Err(AsmError::WrongArgumentCount(line))
            } else {
                match spec_parse_reg(toks[1], line) {
                    Ok(r) => Ok(ParsedInstrView::Push(r)),
                    Err(e) => Err(e),
                }
            }
        } else if m == seq![0x50u8, 0x4F, 0x50] {  // POP
            if argc != 1 {
                Err(AsmError::WrongArgumentCount(line))
            } else {
                match spec_parse_reg(toks[1], line) {
                    Ok(r) => Ok(ParsedInstrView::Pop(r)),
                    Err(e) => Err(e),
                }
            }
        } else if m == seq![0x4Cu8, 0x44] {  // LD
            if argc != 1 {
                Err(AsmError::WrongArgumentCount(line))
            } else {
                Ok(ParsedInstrView::Ld(spec_parse_addr_operand(toks[1])))
            }
        } else if m == seq![0x53u8, 0x54] {  // ST
            if argc != 1 {
                Err(AsmError::WrongArgumentCount(line))
            } else {
                Ok(ParsedInstrView::St(spec_parse_addr_operand(toks[1])))
            }
        } else {
            Err(AsmError::UnknownInstruction(line))
        }
    }
}

/// The abstract value of a parse result.
pub open spec fn instr_result_view(r: Result<ParsedInstr, AsmError>) -> Result<
    ParsedInstrView,
    AsmError,
> {
    match r {
        Ok(i) => Ok(i@),
        Err(e) => Err(e),
    }
}

/// Parse one instruction line (already stripped of comments and label):
/// tokenize it, read the first token as the mnemonic and the rest as
/// operands.
pub fn parse_instruction(text: &[u8], line: usize) -> (r: Result<ParsedInstr, AsmError>)
    ensures
        instr_result_view(r) == spec_parse_instruction(spec_tokens(text@, 0), line),
{
    proof {
        reveal(spec_parse_instruction);
    }
    let tokens = tokenize(text);
    let ghost toks = spec_tokens(text@, 0);
    if tokens.len() == 0 {
        return Err(AsmError::EmptyInstruction(line));
    }
    let m = to_upper_vec(tokens[0].as_slice());
    proof {
        assert(m@ == upper_seq(toks[0]));
    }
    let argc = tokens.len() - 1;
    if matches3(m.as_slice(), 0x4E, 0x4F, 0x50) {  // NOP
        if argc != 0 {
            Err(AsmError::WrongArgumentCount(line))
        } else {
            Ok(ParsedInstr::Nop)
        }
    } else if matches4(m.as_slice(), 0x48, 0x41, 0x4C, 0x54) {  // HALT
        if argc == 0 {
            Ok(ParsedInstr::Halt(0))
        } else if argc == 1 {
            match parse_u8(tokens[1].as_slice(), line) {
                Ok(code) => Ok(ParsedInstr::Halt(code)),
                Err(e) => Err(e),
            }
        } else {
            Err(AsmError::WrongArgumentCount(line))
        }
    } else if matches3(m.as_slice(), 0x4D, 0x4F, 0x56) {  // MOV
        if argc != 2 {
            Err(AsmError::WrongArgumentCount(line))
        } else {
            match parse_reg(tokens[1].as_slice(), line) {
                Ok(dst) => match parse_reg(tokens[2].as_slice(), line) {
                    Ok(src) => Ok(ParsedInstr::Mov(dst, src)),
                    Err(e) => Err(e),
                },
                Err(e) => Err(e),
            }
        }
    } else if matches3(m.as_slice(), 0x41, 0x44, 0x44) {  // ADD
        if argc != 2 {
            Err(AsmError::WrongArgumentCount(line))
        } else {
            match parse_reg(tokens[1].as_slice(), line) {
                Ok(dst) => match parse_reg(tokens[2].as_slice(), line) {
                    Ok(src) => Ok(ParsedInstr::Add(dst, src)),
                    Err(e) => Err(e),
                },
                Err(e) => Err(e),
            }
        }
    } else if matches3(m.as_slice(), 0x53, 0x55, 0x42) {  // SUB
        if argc != 2 {
            Err(AsmError::WrongArgumentCount(line))
        } else {
            match parse_reg(tokens[1].as_slice(), line) {
                Ok(dst) => match parse_reg(tokens[2].as_slice(), line) {
                    Ok(src) => Ok(ParsedInstr::Sub(dst, src)),
                    Err(e) => Err(e),
                },
                Err(e) => Err(e),
            }
        }
    } else if matches3(m.as_slice(), 0x4C, 0x44, 0x49) {  // LDI
        if argc != 2 {
            Err(AsmError::WrongArgumentCount(line))
        } else {
            match parse_reg(tokens[1].as_slice(), line) {
                Ok(dst) => match parse_u8(tokens[2].as_slice(), line) {
                    Ok(imm) => Ok(ParsedInstr::Ldi(dst, imm)),
                    Err(e) => Err(e),
                },
                Err(e) => Err(e),
            }
        }
    } else if matches3(m.as_slice(), 0x4A, 0x4D, 0x50) {  // JMP
        if argc != 1 {
            Err(AsmError::WrongArgumentCount(line))
        } else {
            Ok(ParsedInstr::Jmp(parse_addr_operand(tokens[1].as_slice())))
        }
    } else if matches2(m.as_slice(), 0x4A, 0x5A) {  // JZ
        if argc != 1 {
            Err(AsmError::WrongArgumentCount(line))
        } else {
            Ok(ParsedInstr::Jz(parse_addr_operand(tokens[1].as_slice())))
        }
    } else if matches3(m.as_slice(), 0x4A, 0x4E, 0x5A) {  // JNZ
        if argc != 1 {
            Err(AsmError::WrongArgumentCount(line))
        } else {
            Ok(ParsedInstr::Jnz(parse_addr_operand(tokens[1].as_slice())))
        }
    } else if matches4(m.as_slice(), 0x43, 0x41, 0x4C, 0x4C) {  // CALL
        if argc != 1 {
            Err(AsmError::WrongArgumentCount(line))
        } else {
            Ok(ParsedInstr::Call(parse_addr_operand(tokens[1].as_slice())))
        }
    } else if matches3(m.as_slice(), 0x52, 0x45, 0x54) {  // RET
        if argc != 0 {
            Err(AsmError::WrongArgumentCount(line))
        } else {
            Ok(ParsedInstr::Ret)
        }
    } else if matches4(m.as_slice(), 0x50, 0x55, 0x53, 0x48) {  // PUSH
        if argc != 1 {
            Err(AsmError::WrongArgumentCount(line))
        } else {
            match parse_reg(tokens[1].as_slice(), line) {
                Ok(r) => Ok(ParsedInstr::Push(r)),
                Err(e) => Err(e),
            }
        }
    } else if matches3(m.as_slice(), 0x50, 0x4F, 0x50) {  // POP
        if argc != 1 {
            Err(AsmError::WrongArgumentCount(line))
        } else {
            match parse_reg(tokens[1].as_slice(), line) {
                Ok(r) => Ok(ParsedInstr::Pop(r)),
                Err(e) => Err(e),
            }
        }
    } else if matches2(m.as_slice(), 0x4C, 0x44) {  // LD
        if argc != 1 {
            Err(AsmError::WrongArgumentCount(line))
        } else {
            Ok(ParsedInstr::Ld(parse_addr_operand(tokens[1].as_slice())))
        }
    } else if matches2(m.as_slice(), 0x53, 0x54) {  // ST
        if argc != 1 {
            Err(AsmError::WrongArgumentCount(line))
        } else {
            Ok(ParsedInstr::St(parse_addr_operand(tokens[1].as_slice())))
        }
    } else {
        Err(AsmError::UnknownInstruction(line))
    }
}

/// The label map: each defined label with its instruction address.
pub open spec fn labels_view(labels: Seq<(Vec<u8>, u16)>) -> Seq<(Seq<u8>, u16)> {
    labels.map_values(|p: (Vec<u8>, u16)| (p.0@, p.1))
}

/// The address recorded for a label, if the label is defined: the first
/// entry with that name (the assembler never defines a name twice).
pub open spec fn spec_lookup(labels: Seq<(Seq<u8>, u16)>, name: Seq<u8>) -> Option<u16>
    decreases labels.len(),
{
    if labels.len() == 0 {
        None
    } else if labels[0].0 == name {
        Some(labels[0].1)
    } else {
        spec_lookup(labels.skip(1), name)
    }
}

/// Look a label up in the label map.
fn lookup_label(labels: &Vec<(Vec<u8>, u16)>, name: &[u8]) -> (r: Option<u16>)
    ensures
        r == spec_lookup(labels_view(labels@), name@),
{
    let mut i: usize = 0;
    proof {
        assert(labels_view(labels@).skip(0) =~= labels_view(labels@));
    }
    while i < labels.len()
        invariant
            i <= labels@.len(),
            spec_lookup(labels_view(labels@), name@) == spec_lookup(
                labels_view(labels@).skip(i as int),
                name@,
            ),
        decreases labels@.len() - i,
    {
        let entry = &labels[i];
        proof {
            assert(labels_view(labels@).skip(i as int)[0] == (labels@[i as int].0@, labels@[
                i as int].1));
            assert(labels_view(labels@).skip(i as int).skip(1) =~= labels_view(labels@).skip(
                i + 1,
            ));
        }
        if bytes_eq(entry.0.as_slice(), name) {
            return Some(entry.1);
        }
        i = i + 1;
    }
    proof {
        assert(labels_view(labels@).skip(i as int) =~= Seq::<(Seq<u8>, u16)>::empty());
    }
    None
}

/// The address an operand resolves to. A numeric operand stands for
/// itself; a label resolves to the address recorded in the first pass
/// offset by the stack region's size, exactly the translation the
/// engine's call handler applies to call targets.
pub open spec fn spec_resolve_addr(
    op: AddrOperandView,
    labels: Seq<(Seq<u8>, u16)>,
    line: usize,
) -> Result<u16, AsmError> {
    match op {
        AddrOperandView::Imm(v) => Ok(v),
        AddrOperandView::Label(name) => match spec_lookup(labels, name) {
            Some(a) => if a + STACK_SIZE <= 0xFFFF {
                Ok((a + STACK_SIZE) as u16)
            } else {
                Err(AsmError::AddressOutOfRange(line))
            },
            None => Err(AsmError::UnknownLabel(line)),
        },
    }
}

/// Resolve an address operand against the label map.
pub fn resolve_addr(op: &AddrOperand, labels: &Vec<(Vec<u8>, u16)>, line: usize) -> (r: Result<
    u16,
    AsmError,
>)
    ensures
        r == spec_resolve_addr(op@, labels_view(labels@), line),
{
    match op {
        AddrOperand::Imm(v) => Ok(*v),
        AddrOperand::Label(name) => match lookup_label(labels, name.as_slice()) {
            Some(a) => if a <= 0xFFFF - STACK_SIZE {
                Ok(a + STACK_SIZE)
            } else {
                Err(AsmError::AddressOutOfRange(line))
            },
            None => Err(AsmError::UnknownLabel(line)),
        },
    }
}

/// The 16-bit word a parsed instruction encodes to once its address
/// operand is resolved. A resolved address that does not fit in the 12
/// address bits is rejected. The layout is the engine's: see
/// `lemma_assembled_word_matches_engine`.
pub open spec fn spec_encode_instruction(
    instr: ParsedInstrView,
    labels: Seq<(Seq<u8>, u16)>,
    line: usize,
) -> Result<u16, AsmError> {
    match instr {
        ParsedInstrView::Nop => Ok(0x0000),
        ParsedInstrView::Halt(code) => Ok(0x0100 | code as u16),
        ParsedInstrView::Mov(dst, src) => Ok(
            0x1000 | ((dst & 0xF) as u16) << 4 | (src & 0xF) as u16,
        ),
        ParsedInstrView::Add(dst, src) => Ok(
            0x1100 | ((dst & 0xF) as u16) << 4 | (src & 0xF) as u16,
        ),
        ParsedInstrView::Sub(dst, src) => Ok(
            0x1200 | ((dst & 0xF) as u16) << 4 | (src & 0xF) as u16,
        ),
        ParsedInstrView::Ldi(dst, imm) => Ok(0x2000 | ((dst & 0xF) as u16) << 8 | imm as u16),
        ParsedInstrView::Jmp(op) => spec_encode_addr_word(0x3000, op, labels, line),
        ParsedInstrView::Jz(op) => spec_encode_addr_word(0x4000, op, labels, line),
        ParsedInstrView::Jnz(op) => spec_encode_addr_word(0x5000, op, labels, line),
        ParsedInstrView::Call(op) => spec_encode_addr_word(0x6000, op, labels, line),
        ParsedInstrView::Ret => Ok(0x7000),
        ParsedInstrView::Push(r) => Ok(0x7100 | ((r & 0xF) as u16) << 4),
        ParsedInstrView::Pop(r) => Ok(0x7200 | ((r & 0xF) as u16) << 4),
        ParsedInstrView::Ld(op) => spec_encode_addr_word(0x8000, op, labels, line),
        ParsedInstrView::St(op) => spec_encode_addr_word(0x9000, op, labels, line),
    }
}

/// The word of an address-carrying instruction: the group bits or-ed
/// with the resolved 12-bit address.
pub open spec fn spec_encode_addr_word(
    group: u16,
    op: AddrOperandView,
    labels: Seq<(Seq<u8>, u16)>,
    line: usize,
) -> Result<u16, AsmError> {
    match spec_resolve_addr(op, labels, line) {
        Ok(addr) => if addr > 0xFFF {
            Err(AsmError::AddressOutOfRange(line))
        } else {
            Ok(group | (addr & 0xFFF))
        },
        Err(e) => Err(e),
    }
}

/// Encode one parsed instruction against the label map.
pub fn encode_instruction(node: &InstrNode, labels: &Vec<(Vec<u8>, u16)>) -> (r: Result<
    u16,
    AsmError,
>)
    ensures
        r == spec_encode_instruction(node.instr@, labels_view(labels@), node.line),
{
    let line = node.line;
    match &node.instr {
        ParsedInstr::Nop => Ok(0x0000),
        ParsedInstr::Halt(code) => Ok(0x0100 | *code as u16),
        ParsedInstr::Mov(dst, src) => Ok(
            0x1000 | ((*dst & 0xF) as u16) << 4 | (*src & 0xF) as u16,
        ),
        ParsedInstr::Add(dst, src) => Ok(
            0x1100 | ((*dst & 0xF) as u16) << 4 | (*src & 0xF) as u16,
        ),
        ParsedInstr::Sub(dst, src) => Ok(
            0x1200 | ((*dst & 0xF) as u16) << 4 | (*src & 0xF) as u16,
        ),
        ParsedInstr::Ldi(dst, imm) => Ok(0x2000 | ((*dst & 0xF) as u16) << 8 | *imm as u16),
        ParsedInstr::Jmp(op) => encode_addr_word(0x3000, op, labels, line),
        ParsedInstr::Jz(op) => encode_addr_word(0x4000, op, labels, line),
        ParsedInstr::Jnz(op) => encode_addr_word(0x5000, op, labels, line),
        ParsedInstr::Call(op) => encode_addr_word(0x6000, op, labels, line),
        ParsedInstr::Ret => Ok(0x7000),
        ParsedInstr::Push(r) => Ok(0x7100 | ((*r & 0xF) as u16) << 4),
        ParsedInstr::Pop(r) => Ok(0x7200 | ((*r & 0xF) as u16) << 4),
        ParsedInstr::Ld(op) => encode_addr_word(0x8000, op, labels, line),
        ParsedInstr::St(op) => encode_addr_word(0x9000, op, labels, line),
    }
}

/// Encode an address-carrying instruction word.
fn encode_addr_word(group: u16, op: &AddrOperand, labels: &Vec<(Vec<u8>, u16)>, line: usize) -> (r:
    Result<u16, AsmError>)
    ensures
        r == spec_encode_addr_word(group, op@, labels_view(labels@), line),
{
    match resolve_addr(op, labels, line) {
        Ok(addr) => if addr > 0xFFF {
            Err(AsmError::AddressOutOfRange(line))
        } else {
            Ok(group | (addr & 0xFFF))
        },
        Err(e) => Err(e),
    }
}

/// The general-purpose register a parsed register number names.
pub open spec fn gp_register(n: u8) -> crate::registers::Register {
    if n == 0 {
        crate::registers::Register::R0
    } else if n == 1 {
        crate::registers::Register::R1
    } else if n == 2 {
        crate::registers::Register::R2
    } else if n == 3 {
        crate::registers::Register::R3
    } else if n == 4 {
        crate::registers::Register::R4
    } else if n == 5 {
        crate::registers::Register::R5
    } else if n == 6 {
        crate::registers::Register::R6
    } else {
        crate::registers::Register::R7
    }
}

/// The engine instruction a parsed instruction stands for, once its
/// address operand resolves to `addr`.
pub open spec fn instr_opcode(instr: ParsedInstrView, addr: u16) -> Opcode {
    match instr {
        ParsedInstrView::Nop => Opcode::Nop,
        ParsedInstrView::Halt(code) => Opcode::Halt { code },
        ParsedInstrView::Mov(dst, src) => Opcode::Mov {
            dst: gp_register(dst),
            src: gp_register(src),
        },
        ParsedInstrView::Add(dst, src) => Opcode::Add {
            dst: gp_register(dst),
            src: gp_register(src),
        },
        ParsedInstrView::Sub(dst, src) => Opcode::Sub {
            dst: gp_register(dst),
            src: gp_register(src),
        },
        ParsedInstrView::Ldi(dst, imm) => Opcode::Ldi { dst: gp_register(dst), value: imm },
        ParsedInstrView::Jmp(_) => Opcode::Jmp { addr },
        ParsedInstrView::Jz(_) => Opcode::Jz { addr },
        ParsedInstrView::Jnz(_) => Opcode::Jnz { addr },
        ParsedInstrView::Call(_) => Opcode::Call { addr },
        ParsedInstrView::Ret => Opcode::Ret,
        ParsedInstrView::Push(r) => Opcode::Push { src: gp_register(r) },
        ParsedInstrView::Pop(r) => Opcode::Pop { dst: gp_register(r) },
        ParsedInstrView::Ld(_) => Opcode::Ld { addr },
        ParsedInstrView::St(_) => Opcode::St { addr },
    }
}

/// Whether every register number in a parsed instruction names a
/// general-purpose register. Everything `parse_instruction` accepts
/// satisfies this.
pub open spec fn instr_regs_wf(instr: ParsedInstrView) -> bool {
    match instr {
        ParsedInstrView::Mov(dst, src) => dst <= 7 && src <= 7,
        ParsedInstrView::Add(dst, src) => dst <= 7 && src <= 7,
        ParsedInstrView::Sub(dst, src) => dst <= 7 && src <= 7,
        ParsedInstrView::Ldi(dst, _) => dst <= 7,
        ParsedInstrView::Push(r) => r <= 7,
        ParsedInstrView::Pop(r) => r <= 7,
        _ => true,
    }
}

/// Every instruction the parser accepts carries only general-purpose
/// register numbers, so `lemma_assembled_word_matches_engine` applies to
/// everything a successful first pass collects.
#[verifier::rlimit(50)]
pub proof fn lemma_parsed_regs_wf(toks: Seq<Seq<u8>>, line: usize)
    requires
        spec_parse_instruction(toks, line) is Ok,
    ensures
        instr_regs_wf(spec_parse_instruction(toks, line).unwrap()),
{
    reveal(spec_parse_instruction);
    assert forall|s: Seq<u8>, l: usize| spec_parse_reg(s, l) is Ok implies #[trigger] spec_parse_reg(
        s,
        l,
    ).unwrap() <= 7 by {
        if s.len() >= 1 && (s[0] == 0x52 || s[0] == 0x72) && all_digits(s.skip(1)) {
            lemma_dec_value_nonneg(s.skip(1));
        }
    }
}

/// The assembler honors the engine's binary contract: every word it
/// emits for an instruction with well-formed register numbers is the
/// engine's canonical encoding of that instruction with its operand
/// resolved — so, by the codec round-trip law, the engine decodes the
/// assembled word back to exactly the intended instruction.
pub proof fn lemma_assembled_word_matches_engine(
    instr: ParsedInstrView,
    labels: Seq<(Seq<u8>, u16)>,
    line: usize,
    word: u16,
)
    requires
        instr_regs_wf(instr),
        spec_encode_instruction(instr, labels, line) == Ok::<u16, AsmError>(word),
    ensures
        exists|addr: u16|
            addr <= 0xFFF && word == crate::encode::spec_encode(
                #[trigger] instr_opcode(instr, addr),
            ),
{
    assert(forall|n: u8|
        n <= 7 ==> crate::encode::spec_encode_register(#[trigger] gp_register(n)) == n);
    assert(forall|n: u8| n <= 7 ==> #[trigger] (n & 0xF) == n) by (bit_vector);
    match instr {
        ParsedInstrView::Jmp(op) => {
            let addr = spec_resolve_addr(op, labels, line).unwrap();
            assert(addr <= 0xFFF && word == crate::encode::spec_encode(instr_opcode(instr, addr)));
        },
        ParsedInstrView::Jz(op) => {
            let addr = spec_resolve_addr(op, labels, line).unwrap();
            assert(addr <= 0xFFF && word == crate::encode::spec_encode(instr_opcode(instr, addr)));
        },
        ParsedInstrView::Jnz(op) => {
            let addr = spec_resolve_addr(op, labels, line).unwrap();
            assert(addr <= 0xFFF && word == crate::encode::spec_encode(instr_opcode(instr, addr)));
        },
        ParsedInstrView::Call(op) => {
            let addr = spec_resolve_addr(op, labels, line).unwrap();
            assert(addr <= 0xFFF && word == crate::encode::spec_encode(instr_opcode(instr, addr)));
        },
        ParsedInstrView::Ld(op) => {
            let addr = spec_resolve_addr(op, labels, line).unwrap();
            assert(addr <= 0xFFF && word == crate::encode::spec_encode(instr_opcode(instr, addr)));
        },
        ParsedInstrView::St(op) => {
            let addr = spec_resolve_addr(op, labels, line).unwrap();
            assert(addr <= 0xFFF && word == crate::encode::spec_encode(instr_opcode(instr, addr)));
        },
        _ => {
            assert(0u16 <= 0xFFF && word == crate::encode::spec_encode(instr_opcode(instr, 0)));
        },
    }
}

/// The first position at or after `i` holding byte `target`, or the end
/// of the input.
pub open spec fn spec_find(s: Seq<u8>, i: int, target: u8) -> int
    decreases s.len() - i when 0 <= i <= s.len()
{
    if i >= s.len() || s[i] == target {
        i
    } else {
        spec_find(s, i + 1, target)
    }
}

/// Find positions stay inside the input.
pub proof fn lemma_find_bounds(s: Seq<u8>, i: int, target: u8)
    requires
        0 <= i <= s.len(),
    ensures
        i <= spec_find(s, i, target) <= s.len(),
    decreases s.len() - i,
{
    if !(i >= s.len() || s[i] == target) {
        lemma_find_bounds(s, i + 1, target);
    }
}

/// Find the first occurrence of `target` at or after `i`.
fn find_byte(s: &[u8], i: usize, target: u8) -> (r: usize)
    requires
        i <= s@.len(),
    ensures
        r == spec_find(s@, i as int, target),
        i <= r <= s@.len(),
{
    let mut j = i;
    while j < s.len() && s[j] != target
        invariant
            i <= j <= s@.len(),
            spec_find(s@, i as int, target) == spec_find(s@, j as int, target),
        decreases s@.len() - j,
    {
        j = j + 1;
    }
    j
}

/// A string with the whitespace stripped from both ends.
pub open spec fn trim_spaces(t: Seq<u8>) -> Seq<u8>
    decreases t.len(),
{
    if t.len() > 0 && is_space(t[0]) {
        trim_spaces(t.skip(1))
    } else if t.len() > 0 && is_space(t.last()) {
        trim_spaces(t.drop_last())
    } else {
        t
    }
}

/// Strip the whitespace from both ends of a string.
fn trim_spaces_slice(t: &[u8]) -> (r: &[u8])
    ensures
        r@ == trim_spaces(t@),
    decreases t@.len(),
{
    if t.len() > 0 && byte_is_space(t[0]) {
        let rest = slice_subrange(t, 1, t.len());
        proof {
            assert(rest@ =~= t@.skip(1));
        }
        trim_spaces_slice(rest)
    } else if t.len() > 0 && byte_is_space(t[t.len() - 1]) {
        let rest = slice_subrange(t, 0, t.len() - 1);
        proof {
            assert(rest@ =~= t@.drop_last());
        }
        trim_spaces_slice(rest)
    } else {
        t
    }
}

/// The accumulated state of the assembler's first pass: the labels
/// defined so far, the instructions collected so far with their source
/// lines, and the address of the next instruction.
#[verifier::ext_equal]
pub ghost struct PassState {
    pub labels: Seq<(Seq<u8>, u16)>,
    pub nodes: Seq<(usize, ParsedInstrView)>,
    pub pc: u16,
}

/// The collected instructions a vector of nodes stands for.
pub open spec fn nodes_view(nodes: Seq<InstrNode>) -> Seq<(usize, ParsedInstrView)> {
    nodes.map_values(|n: InstrNode| (n.line, n.instr@))
}

/// One instruction appended in the first pass: the text parses, the
/// instruction is collected, and the next address advances by one word —
/// unless the program no longer fits the address space.
pub open spec fn spec_append_instr(text: Seq<u8>, line_no: usize, st: PassState) -> Result<
    PassState,
    AsmError,
> {
    match spec_parse_instruction(spec_tokens(text, 0), line_no) {
        Err(e) => Err(e),
        Ok(instr) => if st.pc + 2 > 0xFFFF {
            Err(AsmError::ProgramTooLarge)
        } else {
            Ok(
                PassState {
                    nodes: st.nodes.push((line_no, instr)),
                    pc: (st.pc + 2) as u16,
                    ..st
                },
            )
        },
    }
}

/// One source line of the first pass: the comment (everything from `;`)
/// is stripped and the line trimmed; an empty line changes nothing; a
/// leading `label:` is recorded at the current instruction address,
/// rejecting empty and duplicate names; whatever follows is an
/// instruction.
#[verifier::opaque]
pub open spec fn spec_process_line(line: Seq<u8>, line_no: usize, st: PassState) -> Result<
    PassState,
    AsmError,
> {
    let code = line.take(spec_find(line, 0, 0x3B));
    let trimmed = trim_spaces(code);
    if trimmed.len() == 0 {
        Ok(st)
    } else {
        let colon = spec_find(trimmed, 0, 0x3A);
        if colon < trimmed.len() {
            let label = trim_spaces(trimmed.take(colon));
            if label.len() == 0 {
                Err(AsmError::EmptyLabel(line_no))
            } else if spec_lookup(st.labels, label) is Some {
                Err(AsmError::DuplicateLabel(line_no))
            } else {
                let st1 = PassState { labels: st.labels.push((label, st.pc)), ..st };
                let rest = trim_spaces(trimmed.skip(colon + 1));
                if rest.len() == 0 {
                    Ok(st1)
                } else {
                    spec_append_instr(rest, line_no, st1)
                }
            }
        } else {
            spec_append_instr(trimmed, line_no, st)
        }
    }
}

/// The whole first pass from position `i` on, one line (up to the next
/// newline) at a time.
pub open spec fn spec_first_pass(s: Seq<u8>, i: int, line_no: usize, st: PassState) -> Result<
    PassState,
    AsmError,
>
    decreases s.len() + 1 - i when 0 <= i <= s.len() + 1 via spec_first_pass_decreases
{
    if i >= s.len() {
        Ok(st)
    } else {
        let e = spec_find(s, i, 0x0A);
        let line = s.subrange(i, e);
        match spec_process_line(line, line_no, st) {
            Err(x) => Err(x),
            Ok(st2) => spec_first_pass(s, e + 1, (line_no + 1) as usize, st2),
        }
    }
}

#[via_fn]
proof fn spec_first_pass_decreases(s: Seq<u8>, i: int, line_no: usize, st: PassState) {
    if 0 <= i < s.len() {
        lemma_find_bounds(s, i, 0x0A);
    }
}

/// The second pass: each collected instruction encoded against the label
/// map and emitted as a big-endian word, stopping at the first
/// instruction that does not encode.
pub open spec fn spec_emit(
    nodes: Seq<(usize, ParsedInstrView)>,
    labels: Seq<(Seq<u8>, u16)>,
) -> Result<Seq<u8>, AsmError>
    decreases nodes.len(),
{
    if nodes.len() == 0 {
        Ok(Seq::empty())
    } else {
        match spec_encode_instruction(nodes[0].1, labels, nodes[0].0) {
            Err(e) => Err(e),
            Ok(word) => match spec_emit(nodes.skip(1), labels) {
                Err(e) => Err(e),
                Ok(rest) => Ok(seq![(word >> 8) as u8, (word & 0xFF) as u8] + rest),
            },
        }
    }
}

/// What assembling a source text yields: the first pass collects labels
/// and instructions, the second encodes them.
pub open spec fn spec_assemble(s: Seq<u8>) -> Result<Seq<u8>, AsmError> {
    let init = PassState { labels: Seq::empty(), nodes: Seq::empty(), pc: 0 };
    match spec_first_pass(s, 0, 1, init) {
        Err(e) => Err(e),
        Ok(st) => spec_emit(st.nodes, st.labels),
    }
}

/// How `spec_assemble` evaluates, spelled out.
proof fn lemma_assemble_unfold(s: Seq<u8>)
    ensures
        spec_assemble(s) == ({
            let init = PassState { labels: Seq::empty(), nodes: Seq::empty(), pc: 0 };
            match spec_first_pass(s, 0, 1, init) {
                Err(e) => Err::<Seq<u8>, AsmError>(e),
                Ok(st) => spec_emit(st.nodes, st.labels),
            }
        }),
{
}

/// The abstract value of an emitted byte vector.
pub open spec fn bytes_result_view(r: Result<Vec<u8>, AsmError>) -> Result<Seq<u8>, AsmError> {
    match r {
        Ok(v) => Ok(v@),
        Err(e) => Err(e),
    }
}

/// The emitted binary holds one 16-bit word per collected instruction.
pub proof fn lemma_emit_length(nodes: Seq<(usize, ParsedInstrView)>, labels: Seq<(Seq<u8>, u16)>)
    requires
        spec_emit(nodes, labels) is Ok,
    ensures
        spec_emit(nodes, labels).unwrap().len() == 2 * nodes.len(),
    decreases nodes.len(),
{
    if nodes.len() > 0 {
        lemma_emit_length(nodes.skip(1), labels);
    }
}

/// Append one parsed instruction in the first pass.
fn append_instr(
    text: &[u8],
    line_no: usize,
    nodes: &mut Vec<InstrNode>,
    pc: &mut u16,
    labels: &Vec<(Vec<u8>, u16)>,
) -> (r: Result<(), AsmError>)
    ensures
        ({
            let st = PassState {
                labels: labels_view(labels@),
                nodes: nodes_view(old(nodes)@),
                pc: *old(pc),
            };
            match spec_append_instr(text@, line_no, st) {
                Ok(st2) => r is Ok && st2 == (PassState {
                    labels: labels_view(labels@),
                    nodes: nodes_view(final(nodes)@),
                    pc: *final(pc),
                }),
                Err(e) => r == Err::<(), AsmError>(e),
            }
        }),
{
    match parse_instruction(text, line_no) {
        Err(e) => Err(e),
        Ok(instr) => {
            if *pc > 0xFFFD {
                Err(AsmError::ProgramTooLarge)
            } else {
                let ghost prev = nodes@;
                nodes.push(InstrNode { line: line_no, instr });
                *pc = *pc + 2;
                proof {
                    assert(nodes_view(nodes@) =~= nodes_view(prev).push(
                        (line_no, nodes@[prev.len() as int].instr@),
                    ));
                }
                Ok(())
            }
        },
    }
}

/// Process one source line of the first pass.
fn process_line(
    line: &[u8],
    line_no: usize,
    labels: &mut Vec<(Vec<u8>, u16)>,
    nodes: &mut Vec<InstrNode>,
    pc: &mut u16,
) -> (r: Result<(), AsmError>)
    ensures
        ({
            let st = PassState {
                labels: labels_view(old(labels)@),
                nodes: nodes_view(old(nodes)@),
                pc: *old(pc),
            };
            match spec_process_line(line@, line_no, st) {
                Ok(st2) => r is Ok && st2 == (PassState {
                    labels: labels_view(final(labels)@),
                    nodes: nodes_view(final(nodes)@),
                    pc: *final(pc),
                }),
                Err(e) => r == Err::<(), AsmError>(e),
            }
        }),
{
    proof {
        reveal(spec_process_line);
    }
    let semi = find_byte(line, 0, 0x3B);
    let code = slice_subrange(line, 0, semi);
    proof {
        assert(code@ =~= line@.take(spec_find(line@, 0, 0x3B)));
    }
    let trimmed = trim_spaces_slice(code);
    if trimmed.len() == 0 {
        return Ok(());
    }
    let colon = find_byte(trimmed, 0, 0x3A);
    if colon < trimmed.len() {
        let left = slice_subrange(trimmed, 0, colon);
        proof {
            assert(left@ =~= trimmed@.take(colon as int));
        }
        let label = trim_spaces_slice(left);
        if label.len() == 0 {
            return Err(AsmError::EmptyLabel(line_no));
        }
        if lookup_label(labels, label).is_some() {
            return Err(AsmError::DuplicateLabel(line_no));
        }
        let ghost prev = labels@;
        labels.push((vstd::slice::slice_to_vec(label), *pc));
        proof {
            assert(labels_view(labels@) =~= labels_view(prev).push((label@, *pc)));
        }
        let right = slice_subrange(trimmed, colon + 1, trimmed.len());
        proof {
            assert(right@ =~= trimmed@.skip(colon + 1));
        }
        let rest = trim_spaces_slice(right);
        if rest.len() == 0 {
            return Ok(());
        }
        append_instr(rest, line_no, nodes, pc, labels)
    } else {
        append_instr(trimmed, line_no, nodes, pc, labels)
    }
}

/// The second pass: encode every collected instruction and emit the
/// binary, a flat sequence of 16-bit big-endian instruction words.
fn emit(nodes: &Vec<InstrNode>, labels: &Vec<(Vec<u8>, u16)>) -> (r: Result<Vec<u8>, AsmError>)
    ensures
        bytes_result_view(r) == spec_emit(nodes_view(nodes@), labels_view(labels@)),
{
    let ghost nv = nodes_view(nodes@);
    let ghost lv = labels_view(labels@);
    let mut out: Vec<u8> = Vec::new();
    let mut i: usize = 0;
    proof {
        assert(nv.skip(0) =~= nv);
    }
    while i < nodes.len()
        invariant
            i <= nodes@.len(),
            nv == nodes_view(nodes@),
            lv == labels_view(labels@),
            spec_emit(nv, lv) == (match spec_emit(nv.skip(i as int), lv) {
                Ok(rest) => Ok::<Seq<u8>, AsmError>(out@ + rest),
                Err(e) => Err::<Seq<u8>, AsmError>(e),
            }),
        decreases nodes@.len() - i,
    {
        let node = &nodes[i];
        proof {
            assert(nv.skip(i as int)[0] == (node.line, node.instr@));
            assert(nv.skip(i as int).skip(1) =~= nv.skip(i + 1));
        }
        match encode_instruction(node, labels) {
            Err(e) => {
                return Err(e);
            },
            Ok(word) => {
                let ghost prev_out = out@;
                out.push((word / 256) as u8);
                out.push((word % 256) as u8);
                proof {
                    assert((word / 256) as u8 == (word >> 8) as u8) by (bit_vector);
                    assert((word % 256) as u8 == (word & 0xFF) as u8) by (bit_vector);
                    assert(out@ =~= prev_out + seq![(word >> 8) as u8, (word & 0xFF) as u8]);
                    if spec_emit(nv.skip(i + 1), lv) is Ok {
                        assert(out@ + spec_emit(nv.skip(i + 1), lv).unwrap() =~= prev_out + (seq![
                            (word >> 8) as u8,
                            (word & 0xFF) as u8,
                        ] + spec_emit(nv.skip(i + 1), lv).unwrap()));
                    }
                }
                i = i + 1;
            },
        }
    }
    proof {
        assert(nv.skip(nv.len() as int) =~= Seq::<(usize, ParsedInstrView)>::empty());
        assert(spec_emit(nv.skip(nv.len() as int), lv) == Ok::<Seq<u8>, AsmError>(
            Seq::<u8>::empty(),
        ));
        assert(out@ + Seq::<u8>::empty() =~= out@);
        assert(spec_emit(nv, lv) == Ok::<Seq<u8>, AsmError>(out@));
    }
    Ok(out)
}

/// Assemble a source text: collect labels and instructions in a first
/// pass, then encode each instruction, resolving labels with the code
/// region offset. The emitted binary is a flat sequence of 16-bit
/// big-endian instruction words, so its length is always even.
#[verifier::rlimit(100)]
pub fn assemble(source: &[u8]) -> (r: Result<Vec<u8>, AsmError>)
    ensures
        bytes_result_view(r) == spec_assemble(source@),
        r is Ok ==> r.unwrap()@.len() % 2 == 0,
{
    let ghost init = PassState {
        labels: Seq::<(Seq<u8>, u16)>::empty(),
        nodes: Seq::<(usize, ParsedInstrView)>::empty(),
        pc: 0,
    };
    let mut labels: Vec<(Vec<u8>, u16)> = Vec::new();
    let mut nodes: Vec<InstrNode> = Vec::new();
    let mut pc: u16 = 0;
    let mut i: usize = 0;
    let mut line_no: usize = 1;
    proof {
        assert(labels_view(labels@) =~= init.labels);
        assert(nodes_view(nodes@) =~= init.nodes);
    }
    while i < source.len()
        invariant
            i <= source@.len(),
            line_no <= i + 1,
            init == (PassState {
                labels: Seq::<(Seq<u8>, u16)>::empty(),
                nodes: Seq::<(usize, ParsedInstrView)>::empty(),
                pc: 0,
            }),
            spec_first_pass(source@, 0, 1, init) == spec_first_pass(
                source@,
                i as int,
                line_no,
                PassState {
                    labels: labels_view(labels@),
                    nodes: nodes_view(nodes@),
                    pc: pc,
                },
            ),
        decreases source@.len() - i,
    {
        let e = find_byte(source, i, 0x0A);
        let line = slice_subrange(source, i, e);
        let ghost st_before = PassState {
            labels: labels_view(labels@),
            nodes: nodes_view(nodes@),
            pc: pc,
        };
        proof {
            assert(line@ == source@.subrange(i as int, e as int));
        }
        match process_line(line, line_no, &mut labels, &mut nodes, &mut pc) {
            Err(x) => {
                proof {
                    assert(spec_process_line(line@, line_no, st_before) == Err::<
                        PassState,
                        AsmError,
                    >(x));
                    assert(spec_first_pass(source@, i as int, line_no, st_before) == Err::<
                        PassState,
                        AsmError,
                    >(x));
                    assert(spec_first_pass(source@, 0, 1, init) == Err::<PassState, AsmError>(x));
                    lemma_assemble_unfold(source@);
                }
                return Err(x);
            },
            Ok(()) => {
                proof {
                    let st_after = PassState {
                        labels: labels_view(labels@),
                        nodes: nodes_view(nodes@),
                        pc: pc,
                    };
                    assert(spec_process_line(line@, line_no, st_before) == Ok::<
                        PassState,
                        AsmError,
                    >(st_after));
                    assert(spec_first_pass(source@, i as int, line_no, st_before)
                        == spec_first_pass(source@, e + 1, (line_no + 1) as usize, st_after));
                }
            },
        }
        proof {
            let st2 = PassState {
                labels: labels_view(labels@),
                nodes: nodes_view(nodes@),
                pc: pc,
            };
            if e == source@.len() {
                assert(spec_first_pass(source@, e + 1, (line_no + 1) as usize, st2)
                    == spec_first_pass(source@, source@.len() as int, (line_no + 1) as usize, st2));
            }
        }
        if e < source.len() {
            i = e + 1;
        } else {
            i = source.len();
        }
        line_no = if line_no == usize::MAX {
            0
        } else {
            line_no + 1
        };
    }
    proof {
        lemma_assemble_unfold(source@);
        let st = PassState { labels: labels_view(labels@), nodes: nodes_view(nodes@), pc: pc };
        assert(spec_first_pass(source@, 0, 1, init) == Ok::<PassState, AsmError>(st));
    }
    let r = emit(&nodes, &labels);
    proof {
        if bytes_result_view(r) is Ok {
            lemma_emit_length(nodes_view(nodes@), labels_view(labels@));
        }
    }
    r
}

} // verus!
