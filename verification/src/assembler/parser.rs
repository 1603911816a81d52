use vstd::prelude::*;

use crate::assembler::instruction::{AssemblerInstruction, InstructionV, Program};
use crate::assembler::{AssemblerError, Token, TokenV};
use crate::opcode::{spec_opcode_of_ident, Opcode};

verus! {

// ---------------------------------------------------------------------------
// Character classes
// ---------------------------------------------------------------------------
/// Whitespace separates tokens and is otherwise insignificant.
pub open spec fn is_ws(b: u8) -> bool {
    b == 32 || b == 9 || b == 10 || b == 13
}

/// An ASCII decimal digit.
pub open spec fn is_digit(b: u8) -> bool {
    48 <= b <= 57
}

/// An ASCII letter.
pub open spec fn is_alpha(b: u8) -> bool {
    (65 <= b <= 90) || (97 <= b <= 122)
}

/// A letter, digit or underscore: the characters of an identifier.
pub open spec fn is_ident_char(b: u8) -> bool {
    is_alpha(b) || is_digit(b) || b == 95
}

// ---------------------------------------------------------------------------
// Scanners
// ---------------------------------------------------------------------------
/// The first position at or after `i` holding a byte that is not
/// whitespace, or the end of the input.
pub open spec fn spec_skip_ws(s: Seq<u8>, i: int) -> int
    decreases s.len() - i,
{
    if 0 <= i < s.len() && is_ws(s[i]) {
        spec_skip_ws(s, i + 1)
    } else {
        i
    }
}

/// The first position at or after `i` holding a byte that cannot stand in
/// an identifier, or the end of the input.
pub open spec fn spec_scan_ident(s: Seq<u8>, i: int) -> int
    decreases s.len() - i,
{
    if 0 <= i < s.len() && is_ident_char(s[i]) {
        spec_scan_ident(s, i + 1)
    } else {
        i
    }
}

/// The first position at or after `i` holding a byte that is not a digit,
/// or the end of the input.
pub open spec fn spec_scan_digits(s: Seq<u8>, i: int) -> int
    decreases s.len() - i,
{
    if 0 <= i < s.len() && is_digit(s[i]) {
        spec_scan_digits(s, i + 1)
    } else {
        i
    }
}

/// The first position at or after `i` holding a single quote, or the end
/// of the input.
pub open spec fn spec_scan_to_quote(s: Seq<u8>, i: int) -> int
    decreases s.len() - i,
{
    if 0 <= i < s.len() && s[i] != 39 {
        spec_scan_to_quote(s, i + 1)
    } else {
        i
    }
}

/// The numeric value of the decimal digits from `i` up to `j`.
pub open spec fn spec_digits_value(s: Seq<u8>, i: int, j: int) -> int
    decreases j - i,
{
    if i >= j {
        0
    } else {
        spec_digits_value(s, i, j - 1) * 10 + (s[j - 1] - 48)
    }
}

/// Scanners stay between their starting point and the end of the input.
pub proof fn lemma_scan_bounds(s: Seq<u8>, i: int)
    requires
        0 <= i <= s.len(),
    ensures
        i <= spec_skip_ws(s, i) <= s.len(),
        i <= spec_scan_ident(s, i) <= s.len(),
        i <= spec_scan_digits(s, i) <= s.len(),
        i <= spec_scan_to_quote(s, i) <= s.len(),
    decreases s.len() - i,
{
    if i < s.len() {
        lemma_scan_bounds(s, i + 1);
    }
}

// ---------------------------------------------------------------------------
// Token productions
// ---------------------------------------------------------------------------
// Each production is given a position where its first significant byte is
// expected (the caller skips whitespace) and yields the token together with
// the position just past what it consumed, or nothing when the input does
// not match.
/// `register := '$' decimal_digits`, with the register number below 32.
pub open spec fn spec_parse_register(s: Seq<u8>, i: int) -> Option<(TokenV, int)> {
    if 0 <= i < s.len() && s[i] == 36 {
        let j = spec_scan_digits(s, i + 1);
        if j > i + 1 && spec_digits_value(s, i + 1, j) < 32 {
            Some((TokenV::Register { reg_num: spec_digits_value(s, i + 1, j) as u8 }, j))
        } else {
            None
        }
    } else {
        None
    }
}

/// `integer_operand := '#' decimal_digits`, with the value within the
/// signed 32-bit range.
pub open spec fn spec_parse_integer(s: Seq<u8>, i: int) -> Option<(TokenV, int)> {
    if 0 <= i < s.len() && s[i] == 35 {
        let j = spec_scan_digits(s, i + 1);
        if j > i + 1 && spec_digits_value(s, i + 1, j) <= 0x7fffffff {
            Some((TokenV::IntegerOperand { value: spec_digits_value(s, i + 1, j) as i32 }, j))
        } else {
            None
        }
    } else {
        None
    }
}

/// `string_literal := "'" (any byte except "'")* "'"`, kept raw and
/// without escapes.
pub open spec fn spec_parse_string(s: Seq<u8>, i: int) -> Option<(TokenV, int)> {
    if 0 <= i < s.len() && s[i] == 39 {
        let j = spec_scan_to_quote(s, i + 1);
        if j < s.len() {
            Some((TokenV::IrString { name: s.subrange(i + 1, j) }, j + 1))
        } else {
            None
        }
    } else {
        None
    }
}

/// An identifier: a leading letter, then letters, digits or underscores.
pub open spec fn spec_parse_ident(s: Seq<u8>, i: int) -> Option<(Seq<u8>, int)> {
    if 0 <= i < s.len() && is_alpha(s[i]) {
        let j = spec_scan_ident(s, i);
        Some((s.subrange(i, j), j))
    } else {
        None
    }
}

/// `label_usage := '@' identifier`.
pub open spec fn spec_parse_label_usage(s: Seq<u8>, i: int) -> Option<(TokenV, int)> {
    if 0 <= i < s.len() && s[i] == 64 {
        match spec_parse_ident(s, i + 1) {
            Some((name, j)) => Some((TokenV::LabelUsage { name }, j)),
            None => None,
        }
    } else {
        None
    }
}

/// `label_declaration := identifier ':'`, with the colon directly after
/// the name.
pub open spec fn spec_parse_label_decl(s: Seq<u8>, i: int) -> Option<(TokenV, int)> {
    match spec_parse_ident(s, i) {
        Some((name, j)) => {
            if j < s.len() && s[j] == 58 {
                Some((TokenV::LabelDeclaration { name }, j + 1))
            } else {
                None
            }
        },
        None => None,
    }
}

/// `directive_declaration := '.' identifier`, named without the dot.
pub open spec fn spec_parse_directive(s: Seq<u8>, i: int) -> Option<(TokenV, int)> {
    if 0 <= i < s.len() && s[i] == 46 {
        match spec_parse_ident(s, i + 1) {
            Some((name, j)) => Some((TokenV::Directive { name }, j)),
            None => None,
        }
    } else {
        None
    }
}

/// An opcode mnemonic: an identifier, looked up case-insensitively;
/// unknown mnemonics name `IGL`.
pub open spec fn spec_parse_opcode(s: Seq<u8>, i: int) -> Option<(TokenV, int)> {
    match spec_parse_ident(s, i) {
        Some((name, j)) => Some((TokenV::Op { code: spec_opcode_of_ident(name) }, j)),
        None => None,
    }
}

/// `operand := integer_operand | register | string_literal | label_usage`,
/// tried in that order.
pub open spec fn spec_parse_operand(s: Seq<u8>, i: int) -> Option<(TokenV, int)> {
    match spec_parse_integer(s, i) {
        Some(r) => Some(r),
        None => match spec_parse_register(s, i) {
            Some(r) => Some(r),
            None => match spec_parse_string(s, i) {
                Some(r) => Some(r),
                None => spec_parse_label_usage(s, i),
            },
        },
    }
}

// ---------------------------------------------------------------------------
// Instructions and programs
// ---------------------------------------------------------------------------
/// Up to three operands, each preceded by insignificant whitespace, added
/// to `ins` in order; the position stays just past the last operand taken.
pub open spec fn spec_add_operands(s: Seq<u8>, i: int, ins: InstructionV, slot: int) -> (
    InstructionV,
    int,
)
    decreases 3 - slot,
{
    if slot >= 3 {
        (ins, i)
    } else {
        match spec_parse_operand(s, spec_skip_ws(s, i)) {
            None => (ins, i),
            Some((t, j)) => {
                let ins2 = if slot == 0 {
                    InstructionV { operand_one: Some(t), ..ins }
                } else if slot == 1 {
                    InstructionV { operand_two: Some(t), ..ins }
                } else {
                    InstructionV { operand_three: Some(t), ..ins }
                };
                spec_add_operands(s, j, ins2, slot + 1)
            },
        }
    }
}

/// An instruction with no fields filled in.
pub open spec fn spec_empty_instruction() -> InstructionV {
    InstructionV {
        opcode: None,
        label: None,
        directive: None,
        operand_one: None,
        operand_two: None,
        operand_three: None,
    }
}

/// `instruction := label_declaration? (directive_declaration | opcode)
/// operand{0,3}`, with whitespace between the pieces.
pub open spec fn spec_parse_instruction(s: Seq<u8>, i: int) -> Option<(InstructionV, int)> {
    let i1 = spec_skip_ws(s, i);
    let (label, i2) = match spec_parse_label_decl(s, i1) {
        Some((t, j)) => (Some(t), j),
        None => (None, i1),
    };
    let i3 = spec_skip_ws(s, i2);
    if 0 <= i3 < s.len() && s[i3] == 46 {
        match spec_parse_directive(s, i3) {
            Some((t, j)) => {
                let ins = InstructionV { label, directive: Some(t), ..spec_empty_instruction() };
                Some(spec_add_operands(s, j, ins, 0))
            },
            None => None,
        }
    } else {
        match spec_parse_opcode(s, i3) {
            Some((t, j)) => {
                let ins = InstructionV { label, opcode: Some(t), ..spec_empty_instruction() };
                Some(spec_add_operands(s, j, ins, 0))
            },
            None => None,
        }
    }
}

/// As many instructions as parse from `i` on, with the position where the
/// first failure stopped the sequence.
pub open spec fn spec_parse_instructions(s: Seq<u8>, i: int) -> (Seq<InstructionV>, int)
    decreases s.len() - i,
{
    match spec_parse_instruction(s, i) {
        None => (Seq::<InstructionV>::empty(), i),
        Some((ins, j)) => {
            if i < j <= s.len() {
                let (rest, k) = spec_parse_instructions(s, j);
                (seq![ins] + rest, k)
            } else {
                (seq![ins], j)
            }
        },
    }
}

/// `program := instruction+`, consuming the whole input up to trailing
/// whitespace. A failure reports the position where parsing stopped.
pub open spec fn spec_parse_program(s: Seq<u8>) -> Result<Seq<InstructionV>, int> {
    let (instrs, j) = spec_parse_instructions(s, 0);
    let k = spec_skip_ws(s, j);
    if instrs.len() > 0 && k == s.len() {
        Ok(instrs)
    } else {
        Err(k)
    }
}

// ---------------------------------------------------------------------------
// Supporting lemmas
// ---------------------------------------------------------------------------
/// Every byte a digit scan passes over is a digit.
pub proof fn lemma_scan_digits_chars(s: Seq<u8>, i: int)
    requires
        0 <= i <= s.len(),
    ensures
        forall|k: int| i <= k < spec_scan_digits(s, i) ==> is_digit(s[k]),
    decreases s.len() - i,
{
    lemma_scan_bounds(s, i);
    if i < s.len() && is_digit(s[i]) {
        lemma_scan_digits_chars(s, i + 1);
    }
}

/// The value of a digit string is never negative.
pub proof fn lemma_digits_value_nonneg(s: Seq<u8>, i: int, j: int)
    requires
        0 <= i,
        forall|k: int| i <= k < j ==> is_digit(s[k]),
    ensures
        spec_digits_value(s, i, j) >= 0,
    decreases j - i,
{
    if i < j {
        lemma_digits_value_nonneg(s, i, j - 1);
    }
}

// ---------------------------------------------------------------------------
// Executable scanners
// ---------------------------------------------------------------------------
fn ws_end(s: &[u8], from: usize) -> (r: usize)
    requires
        from <= s@.len(),
    ensures
        r == spec_skip_ws(s@, from as int),
        from <= r <= s@.len(),
{
    let mut i = from;
    while i < s.len() && (s[i] == 32 || s[i] == 9 || s[i] == 10 || s[i] == 13)
        invariant
            from <= i <= s@.len(),
            spec_skip_ws(s@, from as int) == spec_skip_ws(s@, i as int),
        decreases s@.len() - i,
    {
        i = i + 1;
    }
    i
}

fn ident_end(s: &[u8], from: usize) -> (r: usize)
    requires
        from <= s@.len(),
    ensures
        r == spec_scan_ident(s@, from as int),
        from <= r <= s@.len(),
{
    let mut i = from;
    while i < s.len() && ((65 <= s[i] && s[i] <= 90) || (97 <= s[i] && s[i] <= 122) || (48 <= s[i]
        && s[i] <= 57) || s[i] == 95)
        invariant
            from <= i <= s@.len(),
            spec_scan_ident(s@, from as int) == spec_scan_ident(s@, i as int),
        decreases s@.len() - i,
    {
        i = i + 1;
    }
    i
}

fn digits_end(s: &[u8], from: usize) -> (r: usize)
    requires
        from <= s@.len(),
    ensures
        r == spec_scan_digits(s@, from as int),
        from <= r <= s@.len(),
{
    let mut i = from;
    while i < s.len() && 48 <= s[i] && s[i] <= 57
        invariant
            from <= i <= s@.len(),
            spec_scan_digits(s@, from as int) == spec_scan_digits(s@, i as int),
        decreases s@.len() - i,
    {
        i = i + 1;
    }
    i
}

fn quote_end(s: &[u8], from: usize) -> (r: usize)
    requires
        from <= s@.len(),
    ensures
        r == spec_scan_to_quote(s@, from as int),
        from <= r <= s@.len(),
{
    let mut i = from;
    while i < s.len() && s[i] != 39
        invariant
            from <= i <= s@.len(),
            spec_scan_to_quote(s@, from as int) == spec_scan_to_quote(s@, i as int),
        decreases s@.len() - i,
    {
        i = i + 1;
    }
    i
}

/// The value of a digit string, clamped at 2^31; the clamp preserves every
/// comparison against bounds below it.
pub open spec fn spec_digits_capped(s: Seq<u8>, i: int, j: int) -> int {
    if spec_digits_value(s, i, j) >= 0x80000000 {
        0x80000000
    } else {
        spec_digits_value(s, i, j)
    }
}

fn digits_value_capped(s: &[u8], from: usize, to: usize) -> (r: u64)
    requires
        from <= to <= s@.len(),
        forall|k: int| from <= k < to ==> is_digit(s@[k]),
    ensures
        r == spec_digits_capped(s@, from as int, to as int),
{
    let mut acc: u64 = 0;
    let mut i = from;
    while i < to
        invariant
            from <= i <= to <= s@.len(),
            forall|k: int| from <= k < to ==> is_digit(s@[k]),
            acc == spec_digits_capped(s@, from as int, i as int),
            acc <= 0x80000000,
        decreases to - i,
    {
        proof {
            lemma_digits_value_nonneg(s@, from as int, i as int);
            lemma_digits_value_nonneg(s@, from as int, i + 1);
        }
        let d = s[i];
        if acc >= 0x80000000 {
            acc = 0x80000000;
        } else {
            acc = acc * 10 + ((d - 48) as u64);
        }
        if acc > 0x80000000 {
            acc = 0x80000000;
        }
        i = i + 1;
    }
    acc
}

fn copy_range(s: &[u8], from: usize, to: usize) -> (r: Vec<u8>)
    requires
        from <= to <= s@.len(),
    ensures
        r@ == s@.subrange(from as int, to as int),
{
    let mut out: Vec<u8> = Vec::new();
    let mut i = from;
    while i < to
        invariant
            from <= i <= to <= s@.len(),
            out@ =~= s@.subrange(from as int, i as int),
        decreases to - i,
    {
        out.push(s[i]);
        i = i + 1;
    }
    proof {
        assert(out@ =~= s@.subrange(from as int, to as int));
    }
    out
}

// ---------------------------------------------------------------------------
// Executable token productions
// ---------------------------------------------------------------------------
/// Parse a register reference `$n` with `n` below 32.
pub fn register(s: &[u8], at: usize) -> (r: Option<(Token, usize)>)
    requires
        at <= s@.len(),
    ensures
        match spec_parse_register(s@, at as int) {
            Some((tv, j)) => r matches Some(p) && p.0@ == tv && p.1 == j && at < j <= s@.len(),
            None => r is None,
        },
{
    if at < s.len() && s[at] == 36 {
        let j = digits_end(s, at + 1);
        proof {
            lemma_scan_digits_chars(s@, at + 1);
        }
        if j > at + 1 {
            let v = digits_value_capped(s, at + 1, j);
            if v < 32 {
                return Some((Token::Register { reg_num: v as u8 }, j));
            }
        }
        None
    } else {
        None
    }
}

/// Parse an integer immediate `#n` within the signed 32-bit range.
pub fn integer_operand(s: &[u8], at: usize) -> (r: Option<(Token, usize)>)
    requires
        at <= s@.len(),
    ensures
        match spec_parse_integer(s@, at as int) {
            Some((tv, j)) => r matches Some(p) && p.0@ == tv && p.1 == j && at < j <= s@.len(),
            None => r is None,
        },
{
    if at < s.len() && s[at] == 35 {
        let j = digits_end(s, at + 1);
        proof {
            lemma_scan_digits_chars(s@, at + 1);
        }
        if j > at + 1 {
            let v = digits_value_capped(s, at + 1, j);
            if v <= 0x7fffffff {
                return Some((Token::IntegerOperand { value: v as i32 }, j));
            }
        }
        None
    } else {
        None
    }
}

/// Parse a string literal between single quotes, kept raw.
pub fn irstring(s: &[u8], at: usize) -> (r: Option<(Token, usize)>)
    requires
        at <= s@.len(),
    ensures
        match spec_parse_string(s@, at as int) {
            Some((tv, j)) => r matches Some(p) && p.0@ == tv && p.1 == j && at < j <= s@.len(),
            None => r is None,
        },
{
    if at < s.len() && s[at] == 39 {
        let j = quote_end(s, at + 1);
        if j < s.len() {
            let name = copy_range(s, at + 1, j);
            Some((Token::IrString { name }, j + 1))
        } else {
            None
        }
    } else {
        None
    }
}

fn ident(s: &[u8], at: usize) -> (r: Option<(Vec<u8>, usize)>)
    requires
        at <= s@.len(),
    ensures
        match spec_parse_ident(s@, at as int) {
            Some((nm, j)) => r matches Some(p) && p.0@ == nm && p.1 == j && at < j <= s@.len(),
            None => r is None,
        },
{
    if at < s.len() && ((65 <= s[at] && s[at] <= 90) || (97 <= s[at] && s[at] <= 122)) {
        let j = ident_end(s, at);
        proof {
            lemma_scan_bounds(s@, at + 1);
        }
        let name = copy_range(s, at, j);
        Some((name, j))
    } else {
        None
    }
}

/// Parse a label usage `@name`.
pub fn label_usage(s: &[u8], at: usize) -> (r: Option<(Token, usize)>)
    requires
        at <= s@.len(),
    ensures
        match spec_parse_label_usage(s@, at as int) {
            Some((tv, j)) => r matches Some(p) && p.0@ == tv && p.1 == j && at < j <= s@.len(),
            None => r is None,
        },
{
    if at < s.len() && s[at] == 64 {
        match ident(s, at + 1) {
            Some((name, j)) => Some((Token::LabelUsage { name }, j)),
            None => None,
        }
    } else {
        None
    }
}

/// Parse a label declaration `name:`.
pub fn label_declaration(s: &[u8], at: usize) -> (r: Option<(Token, usize)>)
    requires
        at <= s@.len(),
    ensures
        match spec_parse_label_decl(s@, at as int) {
            Some((tv, j)) => r matches Some(p) && p.0@ == tv && p.1 == j && at < j <= s@.len(),
            None => r is None,
        },
{
    match ident(s, at) {
        Some((name, j)) => {
            if j < s.len() && s[j] == 58 {
                Some((Token::LabelDeclaration { name }, j + 1))
            } else {
                None
            }
        },
        None => None,
    }
}

/// Parse a directive name `.name`, kept without the dot.
pub fn directive_declaration(s: &[u8], at: usize) -> (r: Option<(Token, usize)>)
    requires
        at <= s@.len(),
    ensures
        match spec_parse_directive(s@, at as int) {
            Some((tv, j)) => r matches Some(p) && p.0@ == tv && p.1 == j && at < j <= s@.len(),
            None => r is None,
        },
{
    if at < s.len() && s[at] == 46 {
        match ident(s, at + 1) {
            Some((name, j)) => Some((Token::Directive { name }, j)),
            None => None,
        }
    } else {
        None
    }
}

fn opcode_token(s: &[u8], at: usize) -> (r: Option<(Token, usize)>)
    requires
        at <= s@.len(),
    ensures
        match spec_parse_opcode(s@, at as int) {
            Some((tv, j)) => r matches Some(p) && p.0@ == tv && p.1 == j && at < j <= s@.len(),
            None => r is None,
        },
{
    match ident(s, at) {
        Some((name, j)) => Some((
            Token::Op { code: crate::opcode::opcode_of_ident(name.as_slice()) },
            j,
        )),
        None => None,
    }
}

/// Parse one operand: an immediate, a register, a string, or a label
/// usage, tried in that order.
pub fn operand(s: &[u8], at: usize) -> (r: Option<(Token, usize)>)
    requires
        at <= s@.len(),
    ensures
        match spec_parse_operand(s@, at as int) {
            Some((tv, j)) => r matches Some(p) && p.0@ == tv && p.1 == j && at < j <= s@.len(),
            None => r is None,
        },
{
    match integer_operand(s, at) {
        Some(p) => Some(p),
        None => match register(s, at) {
            Some(p) => Some(p),
            None => match irstring(s, at) {
                Some(p) => Some(p),
                None => label_usage(s, at),
            },
        },
    }
}

// ---------------------------------------------------------------------------
// Executable instruction and program parsers
// ---------------------------------------------------------------------------
/// Parse one instruction: an optional label, then a directive or an
/// opcode, then up to three operands.
pub fn instruction(s: &[u8], at: usize) -> (r: Option<(AssemblerInstruction, usize)>)
    requires
        at <= s@.len(),
    ensures
        match spec_parse_instruction(s@, at as int) {
            Some((iv, j)) => r matches Some(p) && p.0@ == iv && p.1 == j && at < j <= s@.len(),
            None => r is None,
        },
{
    let i1 = ws_end(s, at);
    let (label, i2) = match label_declaration(s, i1) {
        Some((t, j)) => (Some(t), j),
        None => (None, i1),
    };
    let i3 = ws_end(s, i2);
    let mut ins = AssemblerInstruction {
        opcode: None,
        label,
        directive: None,
        operand_one: None,
        operand_two: None,
        operand_three: None,
    };
    let body_end: usize;
    if i3 < s.len() && s[i3] == 46 {
        match directive_declaration(s, i3) {
            Some((t, j)) => {
                ins.directive = Some(t);
                body_end = j;
            },
            None => {
                return None;
            },
        }
    } else {
        match opcode_token(s, i3) {
            Some((t, j)) => {
                ins.opcode = Some(t);
                body_end = j;
            },
            None => {
                return None;
            },
        }
    }
    let ghost base = ins@;
    let ghost spec_end = spec_add_operands(s@, body_end as int, base, 0);
    let mut pos = body_end;
    // first operand
    let a1 = ws_end(s, pos);
    match operand(s, a1) {
        None => {
            return Some((ins, pos));
        },
        Some((t, j)) => {
            ins.operand_one = Some(t);
            pos = j;
        },
    }
    proof {
        assert(spec_end == spec_add_operands(s@, pos as int, ins@, 1));
    }
    // second operand
    let a2 = ws_end(s, pos);
    match operand(s, a2) {
        None => {
            return Some((ins, pos));
        },
        Some((t, j)) => {
            ins.operand_two = Some(t);
            pos = j;
        },
    }
    proof {
        assert(spec_end == spec_add_operands(s@, pos as int, ins@, 2));
    }
    // third operand
    let a3 = ws_end(s, pos);
    match operand(s, a3) {
        None => {
            return Some((ins, pos));
        },
        Some((t, j)) => {
            ins.operand_three = Some(t);
            pos = j;
        },
    }
    proof {
        assert(spec_end == spec_add_operands(s@, pos as int, ins@, 3));
    }
    Some((ins, pos))
}

/// Parse a whole source text as `instruction+`; trailing whitespace is
/// tolerated and anything else left over is a parse error, reported with
/// the position where parsing stopped.
pub fn program(s: &[u8]) -> (r: Result<Program, AssemblerError>)
    ensures
        match spec_parse_program(s@) {
            Ok(ivs) => r matches Ok(p) && p@ == ivs,
            Err(pos) => r == Err::<Program, AssemblerError>(
                AssemblerError::ParseError { at: pos as usize },
            ),
        },
{
    let mut instrs: Vec<AssemblerInstruction> = Vec::new();
    let mut pos: usize = 0;
    proof {
        assert(instrs@.map_values(|ai: AssemblerInstruction| ai@) =~= Seq::<
            InstructionV,
        >::empty());
    }
    loop
        invariant_except_break
            pos <= s@.len(),
            spec_parse_instructions(s@, 0).0 =~= instrs@.map_values(|ai: AssemblerInstruction| ai@)
                + spec_parse_instructions(s@, pos as int).0,
            spec_parse_instructions(s@, 0).1 == spec_parse_instructions(s@, pos as int).1,
        ensures
            pos <= s@.len(),
            spec_parse_instruction(s@, pos as int) is None,
            spec_parse_instructions(s@, 0).0 =~= instrs@.map_values(
                |ai: AssemblerInstruction| ai@,
            ),
            spec_parse_instructions(s@, 0).1 == pos,
        decreases s@.len() - pos,
    {
        let ghost pre = instrs@.map_values(|ai: AssemblerInstruction| ai@);
        match instruction(s, pos) {
            Some((ins, j)) => {
                let ghost iv = ins@;
                instrs.push(ins);
                proof {
                    assert(instrs@.map_values(|ai: AssemblerInstruction| ai@) =~= pre + seq![iv]);
                    assert((pre + seq![iv]) + spec_parse_instructions(s@, j as int).0 =~= pre + (
                    seq![iv] + spec_parse_instructions(s@, j as int).0));
                }
                pos = j;
            },
            None => {
                break;
            },
        }
    }
    let k = ws_end(s, pos);
    if instrs.len() > 0 && k == s.len() {
        Ok(Program { instructions: instrs })
    } else {
        Err(AssemblerError::ParseError { at: k })
    }
}

} // verus!
