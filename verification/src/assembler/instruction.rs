use vstd::prelude::*;

use crate::assembler::symbols::{spec_symbol_value, SymbolTable, SymbolV};
use crate::assembler::{AssemblerError, Token, TokenV};
use crate::bytes::{be16_bytes, push_be16};
use crate::opcode::{byte_of_opcode, Opcode};

verus! {

/// The mathematical content of one parsed instruction.
pub ghost struct InstructionV {
    pub opcode: Option<TokenV>,
    pub label: Option<TokenV>,
    pub directive: Option<TokenV>,
    pub operand_one: Option<TokenV>,
    pub operand_two: Option<TokenV>,
    pub operand_three: Option<TokenV>,
}

/// The view of an optional token.
pub open spec fn opt_tok(t: Option<Token>) -> Option<TokenV> {
    match t {
        None => None,
        Some(tk) => Some(tk@),
    }
}

/// One parsed line of assembly: an optional label, exactly one of an opcode
/// or a directive, and up to three operands.
#[derive(Debug, PartialEq)]
pub struct AssemblerInstruction {
    pub opcode: Option<Token>,
    pub label: Option<Token>,
    pub directive: Option<Token>,
    pub operand_one: Option<Token>,
    pub operand_two: Option<Token>,
    pub operand_three: Option<Token>,
}

impl View for AssemblerInstruction {
    type V = InstructionV;

    open spec fn view(&self) -> InstructionV {
        InstructionV {
            opcode: opt_tok(self.opcode),
            label: opt_tok(self.label),
            directive: opt_tok(self.directive),
            operand_one: opt_tok(self.operand_one),
            operand_two: opt_tok(self.operand_two),
            operand_three: opt_tok(self.operand_three),
        }
    }
}

/// The bytes one operand token contributes to an encoded instruction: one
/// byte for a register, two big-endian bytes for an immediate (its value
/// modulo 2^16), and two big-endian bytes holding the low 16 bits of a
/// label's resolved offset. Any other token cannot stand as an operand.
pub open spec fn spec_operand_bytes(t: TokenV, symbols: Seq<SymbolV>) -> Result<
    Seq<u8>,
    AssemblerError,
> {
    match t {
        TokenV::Register { reg_num } => Ok(seq![reg_num]),
        TokenV::IntegerOperand { value } => Ok(be16_bytes(value as u16)),
        TokenV::LabelUsage { name } => match spec_symbol_value(symbols, name) {
            Some(v) => Ok(be16_bytes(v as u16)),
            None => Err(AssemblerError::UnknownSymbol),
        },
        _ => Err(AssemblerError::OpcodeInOperandField),
    }
}

/// `acc` extended with the bytes of one optional operand; an error already
/// met, or met here, is kept.
pub open spec fn spec_operand_append(
    acc: Result<Seq<u8>, AssemblerError>,
    t: Option<TokenV>,
    symbols: Seq<SymbolV>,
) -> Result<Seq<u8>, AssemblerError> {
    match acc {
        Err(e) => Err(e),
        Ok(bs) => match t {
            None => Ok(bs),
            Some(tv) => match spec_operand_bytes(tv, symbols) {
                Ok(obs) => Ok(bs + obs),
                Err(e) => Err(e),
            },
        },
    }
}

/// A byte string right-padded with zeros to four bytes; a longer one is
/// kept as it is.
pub open spec fn zero_pad4(bs: Seq<u8>) -> Seq<u8> {
    if bs.len() >= 4 {
        bs
    } else {
        bs + Seq::new((4 - bs.len()) as nat, |i: int| 0u8)
    }
}

/// The encoded bytes of one instruction: the opcode's byte, the present
/// operands' bytes in order, zero-padded to the four-byte fetch unit. An
/// instruction without an opcode cannot be emitted.
pub open spec fn spec_instruction_bytes(i: InstructionV, symbols: Seq<SymbolV>) -> Result<
    Seq<u8>,
    AssemblerError,
> {
    match i.opcode {
        Some(TokenV::Op { code }) => match spec_operand_append(
            spec_operand_append(
                spec_operand_append(Ok(seq![byte_of_opcode(code)]), i.operand_one, symbols),
                i.operand_two,
                symbols,
            ),
            i.operand_three,
            symbols,
        ) {
            Ok(bs) => Ok(zero_pad4(bs)),
            Err(e) => Err(e),
        },
        _ => Err(AssemblerError::NonOpcodeInOpcodeField),
    }
}

/// How many bytes an operand token contributes when it can be encoded:
/// one for a register, two for an immediate or a label usage.
pub open spec fn spec_operand_width(t: TokenV) -> int {
    match t {
        TokenV::Register { .. } => 1,
        TokenV::IntegerOperand { .. } => 2,
        TokenV::LabelUsage { .. } => 2,
        _ => 0,
    }
}

/// How many bytes an optional operand contributes.
pub open spec fn spec_opt_width(t: Option<TokenV>) -> int {
    match t {
        None => 0,
        Some(tv) => spec_operand_width(tv),
    }
}

/// How many bytes an instruction needs before padding: its opcode byte
/// and its operands' bytes.
pub open spec fn spec_encoded_width(i: InstructionV) -> int {
    1 + spec_opt_width(i.operand_one) + spec_opt_width(i.operand_two) + spec_opt_width(
        i.operand_three,
    )
}

/// An encodable operand's bytes are exactly as wide as its kind says.
pub proof fn lemma_operand_bytes_len(t: TokenV, symbols: Seq<SymbolV>)
    ensures
        spec_operand_bytes(t, symbols) matches Ok(bs) ==> bs.len() == spec_operand_width(t),
{
}

/// An encodable instruction's bytes are its pre-padding width, raised to
/// the four-byte slot where it falls short.
pub proof fn lemma_instruction_bytes_len(i: InstructionV, symbols: Seq<SymbolV>)
    ensures
        spec_instruction_bytes(i, symbols) matches Ok(bs) ==> bs.len() == (
        if spec_encoded_width(i) >= 4 {
            spec_encoded_width(i)
        } else {
            4
        }),
{
    match i.opcode {
        Some(TokenV::Op { code }) => {
            let s1 = spec_operand_append(
                Ok(seq![byte_of_opcode(code)]),
                i.operand_one,
                symbols,
            );
            let s2 = spec_operand_append(s1, i.operand_two, symbols);
            let s3 = spec_operand_append(s2, i.operand_three, symbols);
            match i.operand_one {
                Some(t) => lemma_operand_bytes_len(t, symbols),
                None => (),
            }
            match i.operand_two {
                Some(t) => lemma_operand_bytes_len(t, symbols),
                None => (),
            }
            match i.operand_three {
                Some(t) => lemma_operand_bytes_len(t, symbols),
                None => (),
            }
            assert(s1 matches Ok(b) ==> b.len() == 1 + spec_opt_width(i.operand_one));
            assert(s2 matches Ok(b) ==> b.len() == 1 + spec_opt_width(i.operand_one)
                + spec_opt_width(i.operand_two));
            assert(s3 matches Ok(b) ==> b.len() == spec_encoded_width(i));
        },
        _ => (),
    }
}

/// Law: an instruction whose operands fit the four-byte slot emits
/// exactly four bytes — never more.
pub proof fn lemma_no_overlong_instruction(i: InstructionV, symbols: Seq<SymbolV>)
    requires
        spec_encoded_width(i) <= 4,
    ensures
        spec_instruction_bytes(i, symbols) matches Ok(bs) ==> bs.len() == 4,
{
    lemma_instruction_bytes_len(i, symbols);
}

/// Whether a `LOAD` carries an immediate too wide for its two-byte slot:
/// one above 65535 or below -32768 must be split into a `LOAD` of the low
/// half and a `LUI` of the high half.
pub open spec fn spec_needs_splitting(i: InstructionV) -> bool {
    &&& i.opcode == Some(TokenV::Op { code: Opcode::LOAD })
    &&& (i.operand_two matches Some(TokenV::IntegerOperand { value }) && (value > 65535 || value
        < -32768))
}

impl AssemblerInstruction {
    /// Whether this line declares a label.
    pub fn is_label(&self) -> (r: bool)
        ensures
            r == (self@.label is Some),
    {
        self.label.is_some()
    }

    /// Whether this line carries an opcode.
    pub fn is_opcode(&self) -> (r: bool)
        ensures
            r == (self@.opcode is Some),
    {
        self.opcode.is_some()
    }

    /// Whether this line carries a directive.
    pub fn is_directive(&self) -> (r: bool)
        ensures
            r == (self@.directive is Some),
    {
        self.directive.is_some()
    }

    /// Whether any operand slot is filled.
    pub fn has_operands(&self) -> (r: bool)
        ensures
            r == (self@.operand_one is Some || self@.operand_two is Some || self@.operand_three
                is Some),
    {
        self.operand_one.is_some() || self.operand_two.is_some() || self.operand_three.is_some()
    }

    /// Whether this is a `LOAD` whose immediate must be split across
    /// `LOAD` and `LUI`.
    pub fn is_integer_needs_splitting(&self) -> (r: bool)
        ensures
            r == spec_needs_splitting(self@),
    {
        match (&self.opcode, &self.operand_two) {
            (Some(Token::Op { code: Opcode::LOAD }), Some(Token::IntegerOperand { value })) => {
                *value > 65535 || *value < -32768
            },
            _ => false,
        }
    }

    /// The integer immediate in the second operand slot, truncated to 16
    /// bits, if one is there.
    pub fn get_integer_value(&self) -> (r: Option<i16>)
        ensures
            r == match self@.operand_two {
                Some(TokenV::IntegerOperand { value }) => Some(value as i16),
                _ => None::<i16>,
            },
    {
        match &self.operand_two {
            Some(Token::IntegerOperand { value }) => Some(#[verifier::truncate] (*value as i16)),
            _ => None,
        }
    }

    /// The register number in the first operand slot, if one is there.
    pub fn get_register_number(&self) -> (r: Option<u8>)
        ensures
            r == match self@.operand_one {
                Some(TokenV::Register { reg_num }) => Some(reg_num),
                _ => None::<u8>,
            },
    {
        match &self.operand_one {
            Some(Token::Register { reg_num }) => Some(*reg_num),
            _ => None,
        }
    }

    /// Put `t` in the second operand slot.
    pub fn set_operand_two(&mut self, t: Token)
        ensures
            final(self)@ == (InstructionV { operand_two: Some(t@), ..old(self)@ }),
    {
        self.operand_two = Some(t);
    }

    /// Put `t` in the third operand slot.
    pub fn set_operand_three(&mut self, t: Token)
        ensures
            final(self)@ == (InstructionV { operand_three: Some(t@), ..old(self)@ }),
    {
        self.operand_three = Some(t);
    }

    /// The directive's name, if this line carries one.
    pub fn get_directive_name(&self) -> (r: Option<Vec<u8>>)
        ensures
            match self@.directive {
                Some(TokenV::Directive { name }) => r matches Some(v) && v@ == name,
                _ => r is None,
            },
    {
        match &self.directive {
            Some(Token::Directive { name }) => Some(crate::bytes::clone_bytes(name)),
            _ => None,
        }
    }

    /// The quoted string in the first operand slot, if one is there.
    pub fn get_string_constant(&self) -> (r: Option<Vec<u8>>)
        ensures
            match self@.operand_one {
                Some(TokenV::IrString { name }) => r matches Some(v) && v@ == name,
                _ => r is None,
            },
    {
        match &self.operand_one {
            Some(Token::IrString { name }) => Some(crate::bytes::clone_bytes(name)),
            _ => None,
        }
    }

    /// The integer constant in the first operand slot, if one is there.
    pub fn get_i32_constant(&self) -> (r: Option<i32>)
        ensures
            r == match self@.operand_one {
                Some(TokenV::IntegerOperand { value }) => Some(value),
                _ => None::<i32>,
            },
    {
        match &self.operand_one {
            Some(Token::IntegerOperand { value }) => Some(*value),
            _ => None,
        }
    }

    /// The declared label's name, if this line declares one.
    pub fn get_label_name(&self) -> (r: Option<Vec<u8>>)
        ensures
            match self@.label {
                Some(TokenV::LabelDeclaration { name }) => r matches Some(v) && v@ == name,
                _ => r is None,
            },
    {
        match &self.label {
            Some(Token::LabelDeclaration { name }) => Some(crate::bytes::clone_bytes(name)),
            _ => None,
        }
    }

    fn extract_operand(t: &Token, results: &mut Vec<u8>, symbols: &SymbolTable) -> (r: Result<
        (),
        AssemblerError,
    >)
        ensures
            match spec_operand_bytes(t@, symbols@) {
                Ok(bs) => r is Ok && final(results)@ == old(results)@ + bs,
                Err(e) => r == Err::<(), AssemblerError>(e) && final(results)@ == old(results)@,
            },
    {
        match t {
            Token::Register { reg_num } => {
                results.push(*reg_num);
                proof {
                    assert(results@ =~= old(results)@ + seq![*reg_num]);
                }
                Ok(())
            },
            Token::IntegerOperand { value } => {
                push_be16(results, #[verifier::truncate] (*value as u16));
                Ok(())
            },
            Token::LabelUsage { name } => {
                match symbols.symbol_value(name.as_slice()) {
                    Some(v) => {
                        push_be16(results, #[verifier::truncate] (v as u16));
                        Ok(())
                    },
                    None => Err(AssemblerError::UnknownSymbol),
                }
            },
            _ => Err(AssemblerError::OpcodeInOperandField),
        }
    }

    /// Encode this instruction against the symbol table: the opcode's byte,
    /// then each present operand's bytes in order, zero-padded to the
    /// four-byte fetch unit.
    pub fn to_bytes(&self, symbols: &SymbolTable) -> (r: Result<Vec<u8>, AssemblerError>)
        ensures
            ({
                let s = spec_instruction_bytes(self@, symbols@);
                match r {
                    Ok(v) => s matches Ok(bs) && v@ == bs,
                    Err(e) => s == Err::<Seq<u8>, AssemblerError>(e),
                }
            }),
    {
        let mut results: Vec<u8> = Vec::new();
        match &self.opcode {
            Some(Token::Op { code }) => {
                results.push(code.to_byte());
            },
            _ => {
                return Err(AssemblerError::NonOpcodeInOpcodeField);
            },
        }
        if let Some(t) = &self.operand_one {
            match Self::extract_operand(t, &mut results, symbols) {
                Ok(_) => {},
                Err(e) => {
                    return Err(e);
                },
            }
        }
        if let Some(t) = &self.operand_two {
            match Self::extract_operand(t, &mut results, symbols) {
                Ok(_) => {},
                Err(e) => {
                    return Err(e);
                },
            }
        }
        if let Some(t) = &self.operand_three {
            match Self::extract_operand(t, &mut results, symbols) {
                Ok(_) => {},
                Err(e) => {
                    return Err(e);
                },
            }
        }
        let ghost unpadded = results@;
        while results.len() < 4
            invariant
                zero_pad4(results@) =~= zero_pad4(unpadded),
            decreases 4 - results@.len(),
        {
            results.push(0);
            proof {
                assert(zero_pad4(results@) =~= zero_pad4(unpadded));
            }
        }
        Ok(results)
    }
}

/// An ordered sequence of parsed instructions; the order fixes emission
/// order and label offsets.
#[derive(Debug, PartialEq)]
pub struct Program {
    pub instructions: Vec<AssemblerInstruction>,
}

impl View for Program {
    type V = Seq<InstructionV>;

    open spec fn view(&self) -> Seq<InstructionV> {
        self.instructions@.map_values(|i: AssemblerInstruction| i@)
    }
}

/// The concatenated bytes of every instruction in order; the first
/// instruction that cannot be encoded decides the error.
pub open spec fn spec_program_bytes(instrs: Seq<InstructionV>, symbols: Seq<SymbolV>) -> Result<
    Seq<u8>,
    AssemblerError,
>
    decreases instrs.len(),
{
    if instrs.len() == 0 {
        Ok(Seq::<u8>::empty())
    } else {
        match spec_instruction_bytes(instrs[0], symbols) {
            Err(e) => Err(e),
            Ok(bs) => match spec_program_bytes(instrs.drop_first(), symbols) {
                Err(e) => Err(e),
                Ok(rest) => Ok(bs + rest),
            },
        }
    }
}

impl Program {
    /// Encode every instruction in order against the symbol table.
    pub fn to_bytes(&self, symbols: &SymbolTable) -> (r: Result<Vec<u8>, AssemblerError>)
        ensures
            ({
                let s = spec_program_bytes(self@, symbols@);
                match r {
                    Ok(v) => s matches Ok(bs) && v@ == bs,
                    Err(e) => s == Err::<Seq<u8>, AssemblerError>(e),
                }
            }),
    {
        let mut out: Vec<u8> = Vec::new();
        let n = self.instructions.len();
        let mut i: usize = 0;
        proof {
            assert(self@.skip(0) =~= self@);
            match spec_program_bytes(self@, symbols@) {
                Ok(rest) => assert(out@ + rest =~= rest),
                Err(_) => (),
            }
        }
        while i < n
            invariant
                n == self.instructions@.len(),
                i <= n,
                spec_program_bytes(self@, symbols@) == match spec_program_bytes(
                    self@.skip(i as int),
                    symbols@,
                ) {
                    Ok(rest) => Ok::<Seq<u8>, AssemblerError>(out@ + rest),
                    Err(e) => Err::<Seq<u8>, AssemblerError>(e),
                },
            decreases n - i,
        {
            proof {
                assert(self@.skip(i as int).drop_first() =~= self@.skip(i + 1));
                assert(self@.skip(i as int)[0] == self@[i as int]);
                assert(self@[i as int] == self.instructions@[i as int]@);
            }
            let ghost pre_out = out@;
            match self.instructions[i].to_bytes(symbols) {
                Ok(mut bs) => {
                    let ghost bsv = bs@;
                    out.append(&mut bs);
                    proof {
                        match spec_program_bytes(self@.skip(i + 1), symbols@) {
                            Ok(rest) => assert((pre_out + bsv) + rest =~= pre_out + (bsv + rest)),
                            Err(_) => (),
                        }
                    }
                },
                Err(e) => {
                    return Err(e);
                },
            }
            i = i + 1;
        }
        proof {
            assert(self@.skip(n as int) =~= Seq::<InstructionV>::empty());
            assert(out@ + Seq::<u8>::empty() =~= out@);
        }
        Ok(out)
    }
}

} // verus!
