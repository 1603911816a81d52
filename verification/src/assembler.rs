pub mod instruction;
pub mod parser;
pub mod symbols;

use vstd::prelude::*;

use crate::assembler::instruction::{
    spec_encoded_width, spec_instruction_bytes, spec_needs_splitting, AssemblerInstruction,
    InstructionV, Program,
};
use crate::assembler::parser::spec_parse_program;
use crate::assembler::symbols::{
    spec_has_name, spec_set_offset, Symbol, SymbolType, SymbolV, SymbolTable,
};
use crate::bytes::{bytes_equal, clone_bytes, le32_bytes, push_bytes, push_le32};
use crate::opcode::Opcode;
use vstd::string::StringSliceAdditionalSpecFns;
use vstd::wrapping::u32_specs;

verus! {

/// A lexical fragment of the assembly language: an opcode mnemonic, a
/// register reference, an integer immediate, a label declaration or usage, a
/// directive name (without its leading dot), or a quoted string.
#[derive(Debug, Clone, PartialEq)]
pub enum Token {
    Op { code: Opcode },
    Register { reg_num: u8 },
    IntegerOperand { value: i32 },
    LabelDeclaration { name: Vec<u8> },
    LabelUsage { name: Vec<u8> },
    Directive { name: Vec<u8> },
    IrString { name: Vec<u8> },
}

/// The mathematical content of a token, with names as byte strings.
pub ghost enum TokenV {
    Op { code: Opcode },
    Register { reg_num: u8 },
    IntegerOperand { value: i32 },
    LabelDeclaration { name: Seq<u8> },
    LabelUsage { name: Seq<u8> },
    Directive { name: Seq<u8> },
    IrString { name: Seq<u8> },
}

impl View for Token {
    type V = TokenV;

    open spec fn view(&self) -> TokenV {
        match self {
            Token::Op { code } => TokenV::Op { code: *code },
            Token::Register { reg_num } => TokenV::Register { reg_num: *reg_num },
            Token::IntegerOperand { value } => TokenV::IntegerOperand { value: *value },
            Token::LabelDeclaration { name } => TokenV::LabelDeclaration { name: name@ },
            Token::LabelUsage { name } => TokenV::LabelUsage { name: name@ },
            Token::Directive { name } => TokenV::Directive { name: name@ },
            Token::IrString { name } => TokenV::IrString { name: name@ },
        }
    }
}

/// An exact copy of a token.
pub fn clone_token(t: &Token) -> (r: Token)
    ensures
        r@ == t@,
{
    match t {
        Token::Op { code } => Token::Op { code: *code },
        Token::Register { reg_num } => Token::Register { reg_num: *reg_num },
        Token::IntegerOperand { value } => Token::IntegerOperand { value: *value },
        Token::LabelDeclaration { name } => Token::LabelDeclaration { name: clone_bytes(name) },
        Token::LabelUsage { name } => Token::LabelUsage { name: clone_bytes(name) },
        Token::Directive { name } => Token::Directive { name: clone_bytes(name) },
        Token::IrString { name } => Token::IrString { name: clone_bytes(name) },
    }
}

/// An exact copy of an optional token.
pub fn clone_opt_token(t: &Option<Token>) -> (r: Option<Token>)
    ensures
        match t {
            Some(tk) => r matches Some(rk) && rk@ == tk@,
            None => r is None,
        },
{
    match t {
        Some(tk) => Some(clone_token(tk)),
        None => None,
    }
}

/// What can go wrong while assembling, phase by phase. The `instruction`
/// fields carry the code-slot counter at the point of failure.
#[derive(Debug, Clone, Copy, PartialEq, Eq, Structural)]
pub enum AssemblerError {
    /// The grammar rejected the source at byte position `at`.
    ParseError { at: usize },
    /// A label or datum appeared before any section header.
    NoSegmentDeclarationFound { instruction: u32 },
    /// A read-only datum carried no label to name it.
    StringConstantDeclaredWithoutLabel { instruction: u32 },
    /// A second symbol was declared under an already-taken name.
    SymbolAlreadyDeclared { instruction: u32 },
    /// A directive with operands was neither `.asciiz` nor `.integer`.
    UnknownDirective { instruction: u32 },
    /// A section header was neither `.data` nor `.code`.
    UnknownSectionHeader { instruction: u32 },
    /// A label usage referenced a name with no resolved offset.
    UnknownSymbol,
    /// Fewer or more than the two required sections were declared.
    InsufficientSections,
    /// An instruction carried no opcode where one had to be emitted.
    NonOpcodeInOpcodeField,
    /// An operand slot held a token that cannot be an operand.
    OpcodeInOperandField,
}

/// Which of the assembler's two phases is under way.
#[derive(Debug, Clone, Copy, PartialEq, Eq, Structural)]
pub enum AssemblerPhase {
    First,
    Second,
}

impl Default for AssemblerPhase {
    /// Assembly starts in the first phase.
    fn default() -> (r: Self)
        ensures
            r == AssemblerPhase::First,
    {
        AssemblerPhase::First
    }
}

/// A section of the program: read-only data, code, or an unrecognised
/// header. `starting_instruction` records the code-slot byte offset at
/// which the section was opened.
#[derive(Debug, Clone, Copy, PartialEq, Eq, Structural)]
pub enum AssemblerSection {
    Data { starting_instruction: Option<u32> },
    Code { starting_instruction: Option<u32> },
    Unknown,
}

impl Default for AssemblerSection {
    /// A section of no recognised kind.
    fn default() -> (r: Self)
        ensures
            r == AssemblerSection::Unknown,
    {
        AssemblerSection::Unknown
    }
}

/// The section a header name declares: `data` and `code` name their
/// sections, anything else is unknown.
pub open spec fn spec_section_of_name(name: Seq<u8>) -> AssemblerSection {
    if name == seq![100u8, 97u8, 116u8, 97u8] {
        AssemblerSection::Data { starting_instruction: None }
    } else if name == seq![99u8, 111u8, 100u8, 101u8] {
        AssemblerSection::Code { starting_instruction: None }
    } else {
        AssemblerSection::Unknown
    }
}

impl AssemblerSection {
    /// The section a header name declares.
    pub fn from_name(name: &[u8]) -> (s: Self)
        ensures
            s == spec_section_of_name(name@),
    {
        let data: [u8; 4] = [100, 97, 116, 97];
        let code: [u8; 4] = [99, 111, 100, 101];
        if bytes_equal(name, data.as_slice()) {
            proof {
                assert(data@ =~= seq![100u8, 97u8, 116u8, 97u8]);
            }
            AssemblerSection::Data { starting_instruction: None }
        } else if bytes_equal(name, code.as_slice()) {
            proof {
                assert(code@ =~= seq![99u8, 111u8, 100u8, 101u8]);
            }
            AssemblerSection::Code { starting_instruction: None }
        } else {
            proof {
                assert(data@ =~= seq![100u8, 97u8, 116u8, 97u8]);
                assert(code@ =~= seq![99u8, 111u8, 100u8, 101u8]);
            }
            AssemblerSection::Unknown
        }
    }
}

/// The fixed length of the reserved header that opens every image.
pub const PIE_HEADER_LENGTH: usize = 64;

/// The four magic bytes that open every image: 'E', 'P', 'I', 'E'.
pub open spec fn spec_pie_magic() -> Seq<u8> {
    seq![0x45u8, 0x50u8, 0x49u8, 0x45u8]
}

/// The 64-byte reserved header: the magic, then sixty zero bytes.
pub open spec fn spec_pie_header() -> Seq<u8> {
    spec_pie_magic() + Seq::new(60, |i: int| 0u8)
}

/// The name of the `.asciiz` directive, as bytes.
pub open spec fn spec_asciiz_name() -> Seq<u8> {
    seq![97u8, 115u8, 99u8, 105u8, 105u8, 122u8]
}

/// The name of the `.integer` directive, as bytes.
pub open spec fn spec_integer_name() -> Seq<u8> {
    seq![105u8, 110u8, 116u8, 101u8, 103u8, 101u8, 114u8]
}

// ---------------------------------------------------------------------------
// The first phase as a mathematical walk
// ---------------------------------------------------------------------------
/// Everything the first phase accumulates while it walks the program.
pub ghost struct Phase1State {
    pub symbols: Seq<SymbolV>,
    pub sections: Seq<AssemblerSection>,
    pub current_section: Option<AssemblerSection>,
    pub ro: Seq<u8>,
    pub ro_offset: u32,
    pub current_instruction: u32,
    pub errors: Seq<AssemblerError>,
}

/// Label handling: outside any section a label is an error; inside one it
/// is recorded at the current code offset, unless its name is taken.
pub open spec fn spec_label_step(st: Phase1State, ins: InstructionV) -> Phase1State {
    if ins.label is Some {
        if st.current_section is Some {
            match ins.label {
                Some(TokenV::LabelDeclaration { name }) => {
                    if spec_has_name(st.symbols, name) {
                        Phase1State {
                            errors: st.errors.push(
                                AssemblerError::SymbolAlreadyDeclared {
                                    instruction: st.current_instruction,
                                },
                            ),
                            ..st
                        }
                    } else {
                        Phase1State {
                            symbols: st.symbols.push(
                                SymbolV {
                                    name,
                                    offset: Some(
                                        u32_specs::wrapping_mul(st.current_instruction, 4),
                                    ),
                                    symbol_type: SymbolType::Label,
                                },
                            ),
                            ..st
                        }
                    }
                },
                _ => st,
            }
        } else {
            Phase1State {
                errors: st.errors.push(
                    AssemblerError::NoSegmentDeclarationFound {
                        instruction: st.current_instruction,
                    },
                ),
                ..st
            }
        }
    } else {
        st
    }
}

/// `.asciiz` handling: the quoted bytes and a terminating NUL go to the
/// read-only area, and the line's label is resolved to where they begin. A
/// datum without a label is an error.
pub open spec fn spec_asciiz_step(st: Phase1State, ins: InstructionV) -> Phase1State {
    match ins.operand_one {
        Some(TokenV::IrString { name: content }) => match ins.label {
            Some(TokenV::LabelDeclaration { name }) => Phase1State {
                symbols: spec_set_offset(st.symbols, name, st.ro_offset),
                ro: st.ro + content + seq![0u8],
                ro_offset: u32_specs::wrapping_add(
                    u32_specs::wrapping_add(st.ro_offset, content.len() as u32),
                    1,
                ),
                ..st
            },
            _ => Phase1State {
                errors: st.errors.push(
                    AssemblerError::StringConstantDeclaredWithoutLabel {
                        instruction: st.current_instruction,
                    },
                ),
                ..st
            },
        },
        _ => st,
    }
}

/// `.integer` handling: the value goes to the read-only area as four
/// little-endian bytes, and the line's label is resolved to its start. A
/// datum without a label is an error.
pub open spec fn spec_integer_step(st: Phase1State, ins: InstructionV) -> Phase1State {
    match ins.operand_one {
        Some(TokenV::IntegerOperand { value }) => match ins.label {
            Some(TokenV::LabelDeclaration { name }) => Phase1State {
                symbols: spec_set_offset(st.symbols, name, st.ro_offset),
                ro: st.ro + le32_bytes(value as u32),
                ro_offset: u32_specs::wrapping_add(st.ro_offset, 4),
                ..st
            },
            _ => Phase1State {
                errors: st.errors.push(
                    AssemblerError::StringConstantDeclaredWithoutLabel {
                        instruction: st.current_instruction,
                    },
                ),
                ..st
            },
        },
        _ => st,
    }
}

/// Section-header handling: `.data` and `.code` open their section at the
/// current code offset; any other name is an error.
pub open spec fn spec_section_step(st: Phase1State, name: Seq<u8>) -> Phase1State {
    match spec_section_of_name(name) {
        AssemblerSection::Unknown => Phase1State {
            errors: st.errors.push(
                AssemblerError::UnknownSectionHeader { instruction: st.current_instruction },
            ),
            ..st
        },
        AssemblerSection::Data { .. } => {
            let sec = AssemblerSection::Data {
                starting_instruction: Some(u32_specs::wrapping_mul(st.current_instruction, 4)),
            };
            Phase1State { sections: st.sections.push(sec), current_section: Some(sec), ..st }
        },
        AssemblerSection::Code { .. } => {
            let sec = AssemblerSection::Code {
                starting_instruction: Some(u32_specs::wrapping_mul(st.current_instruction, 4)),
            };
            Phase1State { sections: st.sections.push(sec), current_section: Some(sec), ..st }
        },
    }
}

/// Directive handling: with operands the directive declares a read-only
/// datum (`.asciiz` or `.integer`; anything else is an error); without
/// them it is a section header.
pub open spec fn spec_directive_step(st: Phase1State, ins: InstructionV) -> Phase1State {
    match ins.directive {
        Some(TokenV::Directive { name }) => {
            if ins.operand_one is Some || ins.operand_two is Some || ins.operand_three is Some {
                if name == spec_asciiz_name() {
                    spec_asciiz_step(st, ins)
                } else if name == spec_integer_name() {
                    spec_integer_step(st, ins)
                } else {
                    Phase1State {
                        errors: st.errors.push(
                            AssemblerError::UnknownDirective {
                                instruction: st.current_instruction,
                            },
                        ),
                        ..st
                    }
                }
            } else {
                spec_section_step(st, name)
            }
        },
        _ => st,
    }
}

/// Every instruction that is not a pure directive occupies a code slot.
pub open spec fn spec_count_step(st: Phase1State, ins: InstructionV) -> Phase1State {
    if ins.directive is None {
        Phase1State {
            current_instruction: u32_specs::wrapping_add(st.current_instruction, 1),
            ..st
        }
    } else {
        st
    }
}

/// One instruction's full effect on the first phase: its label, then its
/// directive, then the code-slot count.
pub open spec fn spec_phase1_step(st: Phase1State, ins: InstructionV) -> Phase1State {
    spec_count_step(spec_directive_step(spec_label_step(st, ins), ins), ins)
}

/// The whole first-phase walk over a program.
pub open spec fn spec_phase1_walk(st: Phase1State, instrs: Seq<InstructionV>) -> Phase1State
    decreases instrs.len(),
{
    if instrs.len() == 0 {
        st
    } else {
        spec_phase1_walk(spec_phase1_step(st, instrs[0]), instrs.drop_first())
    }
}

// ---------------------------------------------------------------------------
// LOAD splitting
// ---------------------------------------------------------------------------
/// The low 16 bits of an oversized immediate, as the `LOAD` keeps them.
pub open spec fn spec_low_half(v: i32) -> i32 {
    ((v as u32) & 0xffff) as i32
}

/// The high 16 bits of an oversized immediate, as the inserted `LUI`
/// carries them.
pub open spec fn spec_high_half(v: i32) -> i32 {
    (((v as u32) >> 16) & 0xffff) as i32
}

/// A `LOAD` with an oversized immediate becomes a `LOAD` of the low half
/// followed by a `LUI` of the high half into the same register; every
/// other instruction stands unchanged.
pub open spec fn spec_split_one(i: InstructionV) -> Seq<InstructionV> {
    if spec_needs_splitting(i) {
        match i.operand_two {
            Some(TokenV::IntegerOperand { value }) => {
                let load = InstructionV {
                    operand_two: Some(TokenV::IntegerOperand { value: spec_low_half(value) }),
                    ..i
                };
                let lui = InstructionV {
                    opcode: Some(TokenV::Op { code: Opcode::LUI }),
                    label: None,
                    directive: None,
                    operand_one: i.operand_one,
                    operand_two: Some(TokenV::IntegerOperand { value: spec_high_half(value) }),
                    operand_three: None,
                };
                seq![load, lui]
            },
            _ => seq![i],
        }
    } else {
        seq![i]
    }
}

/// The program with every oversized `LOAD` split, order preserved.
pub open spec fn spec_split_program(s: Seq<InstructionV>) -> Seq<InstructionV>
    decreases s.len(),
{
    if s.len() == 0 {
        Seq::<InstructionV>::empty()
    } else {
        spec_split_one(s[0]) + spec_split_program(s.drop_first())
    }
}

// ---------------------------------------------------------------------------
// The second phase
// ---------------------------------------------------------------------------
/// How many instructions occupy code slots.
pub open spec fn spec_code_count(instrs: Seq<InstructionV>) -> int
    decreases instrs.len(),
{
    if instrs.len() == 0 {
        0
    } else {
        (if instrs[0].directive is Some {
            0int
        } else {
            1int
        }) + spec_code_count(instrs.drop_first())
    }
}

/// The code-slot counter as the second phase leaves it, counting from
/// `acc` with 32-bit wrap-around.
pub open spec fn spec_count32_from(acc: u32, instrs: Seq<InstructionV>) -> u32
    decreases instrs.len(),
{
    if instrs.len() == 0 {
        acc
    } else {
        spec_count32_from(
            if instrs[0].directive is Some {
                acc
            } else {
                u32_specs::wrapping_add(acc, 1)
            },
            instrs.drop_first(),
        )
    }
}

/// The emitted code section: pure directives are skipped, every
/// opcode-bearing instruction contributes its encoded bytes in order, and
/// the first instruction that cannot be encoded decides the error.
pub open spec fn spec_emit_code(instrs: Seq<InstructionV>, symbols: Seq<SymbolV>) -> Result<
    Seq<u8>,
    AssemblerError,
>
    decreases instrs.len(),
{
    if instrs.len() == 0 {
        Ok(Seq::<u8>::empty())
    } else if instrs[0].directive is Some {
        spec_emit_code(instrs.drop_first(), symbols)
    } else if instrs[0].opcode is Some {
        match spec_instruction_bytes(instrs[0], symbols) {
            Err(e) => Err(e),
            Ok(bs) => match spec_emit_code(instrs.drop_first(), symbols) {
                Err(e) => Err(e),
                Ok(more) => Ok(bs + more),
            },
        }
    } else {
        spec_emit_code(instrs.drop_first(), symbols)
    }
}

// ---------------------------------------------------------------------------
// The assembler
// ---------------------------------------------------------------------------
/// The two-phase assembler: it parses a source text, collects symbols,
/// sections and read-only data in its first phase, and emits the
/// header-prefixed image in its second.
#[derive(Debug)]
pub struct Assembler {
    pub phase: AssemblerPhase,
    pub symbols: SymbolTable,
    pub ro: Vec<u8>,
    pub bytecode: Vec<u8>,
    pub ro_offset: u32,
    pub sections: Vec<AssemblerSection>,
    pub current_section: Option<AssemblerSection>,
    pub current_instruction: u32,
    pub errors: Vec<AssemblerError>,
}

/// The first-phase content of an assembler value.
pub open spec fn state_of(a: Assembler) -> Phase1State {
    Phase1State {
        symbols: a.symbols@,
        sections: a.sections@,
        current_section: a.current_section,
        ro: a.ro@,
        ro_offset: a.ro_offset,
        current_instruction: a.current_instruction,
        errors: a.errors@,
    }
}

/// The state a fresh assembler starts from.
pub open spec fn spec_initial_state() -> Phase1State {
    Phase1State {
        symbols: Seq::<SymbolV>::empty(),
        sections: Seq::<AssemblerSection>::empty(),
        current_section: None,
        ro: Seq::<u8>::empty(),
        ro_offset: 0,
        current_instruction: 0,
        errors: Seq::<AssemblerError>::empty(),
    }
}

/// The whole of assembly as one function of the source bytes and the
/// starting state: parse, split, walk, validate the sections, emit, and
/// prefix the header and the entry offset.
pub open spec fn spec_assemble(src: Seq<u8>, st0: Phase1State) -> Result<
    Seq<u8>,
    Seq<AssemblerError>,
> {
    match crate::assembler::parser::spec_parse_program(src) {
        Err(pos) => Err(seq![AssemblerError::ParseError { at: pos as usize }]),
        Ok(ivs) => {
            let split = spec_split_program(ivs);
            let st = spec_phase1_walk(st0, split);
            if st.errors.len() > 0 {
                Err(st.errors)
            } else if st.sections.len() != 2 {
                Err(st.errors.push(AssemblerError::InsufficientSections))
            } else {
                match spec_emit_code(split, st.symbols) {
                    Err(e) => Err(seq![e]),
                    Ok(body) => Ok(
                        spec_pie_header() + le32_bytes(st.ro.len() as u32) + st.ro + body,
                    ),
                }
            }
        },
    }
}

impl Assembler {
    /// A fresh assembler, in its first phase with nothing collected.
    pub fn new() -> (r: Self)
        ensures
            r.phase == AssemblerPhase::First,
            r.bytecode@ == Seq::<u8>::empty(),
            state_of(r) == spec_initial_state(),
    {
        Assembler {
            phase: AssemblerPhase::First,
            symbols: SymbolTable::new(),
            current_instruction: 0,
            ro_offset: 0,
            ro: Vec::new(),
            bytecode: Vec::new(),
            sections: Vec::new(),
            errors: Vec::new(),
            current_section: None,
        }
    }

    fn process_label_declaration(&mut self, i: &AssemblerInstruction)
        ensures
            state_of(*final(self)) == spec_label_step(state_of(*old(self)), i@),
            final(self).phase == old(self).phase,
            final(self).bytecode == old(self).bytecode,
    {
        if i.is_label() {
            if self.current_section.is_some() {
                match i.get_label_name() {
                    Some(name) => {
                        if self.symbols.has_symbol(name.as_slice()) {
                            self.errors.push(
                                AssemblerError::SymbolAlreadyDeclared {
                                    instruction: self.current_instruction,
                                },
                            );
                        } else {
                            let off = self.current_instruction.wrapping_mul(4);
                            self.symbols.add_symbol(
                                Symbol::new_with_offset(name, SymbolType::Label, off),
                            );
                        }
                    },
                    None => {},
                }
            } else {
                self.errors.push(
                    AssemblerError::NoSegmentDeclarationFound {
                        instruction: self.current_instruction,
                    },
                );
            }
        }
    }

    fn handle_asciiz(&mut self, i: &AssemblerInstruction)
        ensures
            state_of(*final(self)) == spec_asciiz_step(state_of(*old(self)), i@),
            final(self).phase == old(self).phase,
            final(self).bytecode == old(self).bytecode,
    {
        match i.get_string_constant() {
            Some(content) => {
                match i.get_label_name() {
                    Some(name) => {
                        let off = self.ro_offset;
                        self.symbols.set_symbol_offset(name.as_slice(), off);
                        push_bytes(&mut self.ro, content.as_slice());
                        self.ro.push(0);
                        self.ro_offset = self.ro_offset.wrapping_add(
                            #[verifier::truncate] (content.len() as u32),
                        ).wrapping_add(1);
                        proof {
                            assert(self.ro@ =~= old(self).ro@ + content@ + seq![0u8]);
                        }
                    },
                    None => {
                        self.errors.push(
                            AssemblerError::StringConstantDeclaredWithoutLabel {
                                instruction: self.current_instruction,
                            },
                        );
                    },
                }
            },
            None => {},
        }
    }

    fn handle_integer(&mut self, i: &AssemblerInstruction)
        ensures
            state_of(*final(self)) == spec_integer_step(state_of(*old(self)), i@),
            final(self).phase == old(self).phase,
            final(self).bytecode == old(self).bytecode,
    {
        match i.get_i32_constant() {
            Some(value) => {
                match i.get_label_name() {
                    Some(name) => {
                        let off = self.ro_offset;
                        self.symbols.set_symbol_offset(name.as_slice(), off);
                        push_le32(&mut self.ro, #[verifier::truncate] (value as u32));
                        self.ro_offset = self.ro_offset.wrapping_add(4);
                    },
                    None => {
                        self.errors.push(
                            AssemblerError::StringConstantDeclaredWithoutLabel {
                                instruction: self.current_instruction,
                            },
                        );
                    },
                }
            },
            None => {},
        }
    }

    fn process_section_header(&mut self, name: &[u8])
        ensures
            state_of(*final(self)) == spec_section_step(state_of(*old(self)), name@),
            final(self).phase == old(self).phase,
            final(self).bytecode == old(self).bytecode,
    {
        let sec = AssemblerSection::from_name(name);
        match sec {
            AssemblerSection::Unknown => {
                self.errors.push(
                    AssemblerError::UnknownSectionHeader {
                        instruction: self.current_instruction,
                    },
                );
            },
            AssemblerSection::Data { .. } => {
                let s2 = AssemblerSection::Data {
                    starting_instruction: Some(self.current_instruction.wrapping_mul(4)),
                };
                self.sections.push(s2);
                self.current_section = Some(s2);
            },
            AssemblerSection::Code { .. } => {
                let s2 = AssemblerSection::Code {
                    starting_instruction: Some(self.current_instruction.wrapping_mul(4)),
                };
                self.sections.push(s2);
                self.current_section = Some(s2);
            },
        }
    }

    fn process_directive(&mut self, i: &AssemblerInstruction)
        ensures
            state_of(*final(self)) == spec_directive_step(state_of(*old(self)), i@),
            final(self).phase == old(self).phase,
            final(self).bytecode == old(self).bytecode,
    {
        match i.get_directive_name() {
            Some(name) => {
                if i.has_operands() {
                    let asciiz: [u8; 6] = [97, 115, 99, 105, 105, 122];
                    let integer: [u8; 7] = [105, 110, 116, 101, 103, 101, 114];
                    proof {
                        assert(asciiz@ =~= spec_asciiz_name());
                        assert(integer@ =~= spec_integer_name());
                    }
                    if bytes_equal(name.as_slice(), asciiz.as_slice()) {
                        self.handle_asciiz(i);
                    } else if bytes_equal(name.as_slice(), integer.as_slice()) {
                        self.handle_integer(i);
                    } else {
                        self.errors.push(
                            AssemblerError::UnknownDirective {
                                instruction: self.current_instruction,
                            },
                        );
                    }
                } else {
                    self.process_section_header(name.as_slice());
                }
            },
            None => {},
        }
    }

    fn process_instruction(&mut self, i: &AssemblerInstruction)
        ensures
            state_of(*final(self)) == spec_phase1_step(state_of(*old(self)), i@),
            final(self).phase == old(self).phase,
            final(self).bytecode == old(self).bytecode,
    {
        self.process_label_declaration(i);
        if i.is_directive() {
            self.process_directive(i);
        } else {
            self.current_instruction = self.current_instruction.wrapping_add(1);
        }
    }

    /// The first phase: split oversized `LOAD`s, then walk the program
    /// collecting labels, sections, read-only data and errors. Afterwards
    /// the assembler stands in its second phase.
    pub fn process_first_phase(&mut self, p: &mut Program)
        ensures
            final(p)@ == spec_split_program(old(p)@),
            state_of(*final(self)) == spec_phase1_walk(
                state_of(*old(self)),
                spec_split_program(old(p)@),
            ),
            final(self).phase == AssemblerPhase::Second,
            final(self).bytecode == old(self).bytecode,
    {
        let mut out: Vec<AssemblerInstruction> = Vec::new();
        proof {
            assert(out@.map_values(|ai: AssemblerInstruction| ai@) =~= Seq::<
                InstructionV,
            >::empty());
            assert(p.instructions@.map_values(|ai: AssemblerInstruction| ai@) =~= old(p)@);
        }
        while p.instructions.len() > 0
            invariant
                spec_split_program(old(p)@) =~= out@.map_values(|ai: AssemblerInstruction| ai@)
                    + spec_split_program(
                    p.instructions@.map_values(|ai: AssemblerInstruction| ai@),
                ),
            decreases p.instructions@.len(),
        {
            let ghost prev = p.instructions@.map_values(|ai: AssemblerInstruction| ai@);
            let ghost outv = out@.map_values(|ai: AssemblerInstruction| ai@);
            let ins = p.instructions.remove(0);
            proof {
                assert(p.instructions@.map_values(|ai: AssemblerInstruction| ai@)
                    =~= prev.drop_first());
                assert(prev[0] == ins@);
            }
            if ins.is_integer_needs_splitting() {
                let reg = clone_opt_token(&ins.operand_one);
                let value: i32 = match &ins.operand_two {
                    Some(Token::IntegerOperand { value }) => *value,
                    _ => 0,
                };
                let mut load = ins;
                load.operand_two = Some(
                    Token::IntegerOperand {
                        value: #[verifier::truncate] (((value as u32) & 0xffff) as i32),
                    },
                );
                let lui = AssemblerInstruction {
                    opcode: Some(Token::Op { code: Opcode::LUI }),
                    label: None,
                    directive: None,
                    operand_one: reg,
                    operand_two: Some(
                        Token::IntegerOperand {
                            value: #[verifier::truncate] ((((value as u32) >> 16)
                                & 0xffff) as i32),
                        },
                    ),
                    operand_three: None,
                };
                let ghost loadv = load@;
                let ghost luiv = lui@;
                out.push(load);
                out.push(lui);
                proof {
                    assert(spec_split_one(prev[0]) =~= seq![loadv, luiv]);
                    assert(out@.map_values(|ai: AssemblerInstruction| ai@) =~= outv + seq![
                        loadv,
                        luiv,
                    ]);
                    assert((outv + seq![loadv, luiv]) + spec_split_program(prev.drop_first())
                        =~= outv + (seq![loadv, luiv] + spec_split_program(prev.drop_first())));
                    assert(seq![loadv, luiv] + spec_split_program(prev.drop_first())
                        =~= spec_split_one(prev[0]) + spec_split_program(prev.drop_first()));
                }
            } else {
                let ghost insv = ins@;
                out.push(ins);
                proof {
                    assert(spec_split_one(prev[0]) =~= seq![insv]);
                    assert(out@.map_values(|ai: AssemblerInstruction| ai@) =~= outv + seq![insv]);
                    assert((outv + seq![insv]) + spec_split_program(prev.drop_first()) =~= outv + (
                    seq![insv] + spec_split_program(prev.drop_first())));
                    assert(seq![insv] + spec_split_program(prev.drop_first())
                        =~= spec_split_one(prev[0]) + spec_split_program(prev.drop_first()));
                }
            }
        }
        proof {
            assert(p.instructions@.map_values(|ai: AssemblerInstruction| ai@) =~= Seq::<
                InstructionV,
            >::empty());
            assert(spec_split_program(old(p)@) =~= out@.map_values(
                |ai: AssemblerInstruction| ai@,
            ));
        }
        p.instructions = out;
        let ghost split = spec_split_program(old(p)@);
        let ghost st0 = state_of(*self);
        let n = p.instructions.len();
        let mut idx: usize = 0;
        proof {
            assert(p@ =~= split);
            assert(split.skip(0) =~= split);
        }
        while idx < n
            invariant
                n == p.instructions@.len(),
                idx <= n,
                p@ =~= split,
                spec_phase1_walk(st0, split) == spec_phase1_walk(
                    state_of(*self),
                    split.skip(idx as int),
                ),
                self.phase == old(self).phase,
                self.bytecode == old(self).bytecode,
            decreases n - idx,
        {
            proof {
                assert(split.skip(idx as int).drop_first() =~= split.skip(idx + 1));
                assert(split.skip(idx as int)[0] == split[idx as int]);
                assert(split[idx as int] == p.instructions@[idx as int]@);
            }
            self.process_instruction(&p.instructions[idx]);
            idx = idx + 1;
        }
        proof {
            assert(split.skip(n as int) =~= Seq::<InstructionV>::empty());
        }
        self.phase = AssemblerPhase::Second;
    }

    /// The second phase: skip pure directives and emit every
    /// opcode-bearing instruction's bytes in order, counting the code
    /// slots passed.
    pub fn process_second_phase(&mut self, p: &Program) -> (r: Result<Vec<u8>, AssemblerError>)
        ensures
            ({
                let s = spec_emit_code(p@, old(self).symbols@);
                match r {
                    Ok(v) => s matches Ok(bs) && v@ == bs && *final(self) == (Assembler {
                        current_instruction: spec_count32_from(0, p@),
                        ..*old(self)
                    }),
                    Err(e) => s == Err::<Seq<u8>, AssemblerError>(e) && *final(self) == *old(
                        self,
                    ),
                }
            }),
    {
        let mut out: Vec<u8> = Vec::new();
        let mut counter: u32 = 0;
        let n = p.instructions.len();
        let mut i: usize = 0;
        proof {
            assert(p@.skip(0) =~= p@);
            match spec_emit_code(p@, self.symbols@) {
                Ok(rest) => assert(out@ + rest =~= rest),
                Err(_) => (),
            }
        }
        while i < n
            invariant
                n == p.instructions@.len(),
                i <= n,
                *self == *old(self),
                spec_emit_code(p@, self.symbols@) == match spec_emit_code(
                    p@.skip(i as int),
                    self.symbols@,
                ) {
                    Ok(rest) => Ok::<Seq<u8>, AssemblerError>(out@ + rest),
                    Err(e) => Err::<Seq<u8>, AssemblerError>(e),
                },
                spec_count32_from(0, p@) == spec_count32_from(counter, p@.skip(i as int)),
            decreases n - i,
        {
            proof {
                assert(p@.skip(i as int).drop_first() =~= p@.skip(i + 1));
                assert(p@.skip(i as int)[0] == p@[i as int]);
                assert(p@[i as int] == p.instructions@[i as int]@);
            }
            let ins = &p.instructions[i];
            if ins.is_directive() {
                i = i + 1;
                continue ;
            }
            if ins.is_opcode() {
                match ins.to_bytes(&self.symbols) {
                    Ok(bs) => {
                        let ghost pre_out = out@;
                        let ghost bsv = bs@;
                        push_bytes(&mut out, bs.as_slice());
                        proof {
                            match spec_emit_code(p@.skip(i + 1), self.symbols@) {
                                Ok(rest) => assert((pre_out + bsv) + rest =~= pre_out + (bsv
                                    + rest)),
                                Err(_) => (),
                            }
                        }
                    },
                    Err(e) => {
                        return Err(e);
                    },
                }
            }
            counter = counter.wrapping_add(1);
            i = i + 1;
        }
        proof {
            assert(p@.skip(n as int) =~= Seq::<InstructionV>::empty());
            assert(out@ + Seq::<u8>::empty() =~= out@);
        }
        self.current_instruction = counter;
        Ok(out)
    }

    /// The 64-byte reserved header: the magic, then zero padding.
    pub fn write_pie_header(&self) -> (r: Vec<u8>)
        ensures
            r@ == spec_pie_header(),
    {
        let mut header: Vec<u8> = Vec::new();
        header.push(0x45);
        header.push(0x50);
        header.push(0x49);
        header.push(0x45);
        while header.len() < PIE_HEADER_LENGTH
            invariant
                4 <= header@.len() <= 64,
                header@.subrange(0, 4) =~= spec_pie_magic(),
                forall|k: int| 4 <= k < header@.len() ==> header@[k] == 0u8,
            decreases 64 - header@.len(),
        {
            header.push(0);
        }
        proof {
            assert(header@ =~= spec_pie_header());
        }
        header
    }

    /// Assemble a source text into a complete image: parse it, run both
    /// phases, and return the header, the entry offset, the read-only
    /// data and the code in one byte vector, or every error found.
    pub fn assemble(&mut self, raw: &str) -> (r: Result<Vec<u8>, Vec<AssemblerError>>)
        ensures
            ({
                let s = spec_assemble(raw.spec_bytes(), state_of(*old(self)));
                match r {
                    Ok(v) => s matches Ok(img) && v@ == img,
                    Err(es) => s matches Err(se) && es@ == se,
                }
            }),
            ({
                match spec_parse_program(raw.spec_bytes()) {
                    Err(_) => *final(self) == *old(self),
                    Ok(ivs) => {
                        let split = spec_split_program(ivs);
                        let st = spec_phase1_walk(state_of(*old(self)), split);
                        &&& final(self).phase == AssemblerPhase::Second
                        &&& final(self).bytecode == old(self).bytecode
                        &&& if st.errors.len() > 0 {
                            state_of(*final(self)) == st
                        } else if st.sections.len() != 2 {
                            state_of(*final(self)) == (Phase1State {
                                errors: st.errors.push(AssemblerError::InsufficientSections),
                                ..st
                            })
                        } else {
                            match spec_emit_code(split, st.symbols) {
                                Err(_) => state_of(*final(self)) == st,
                                Ok(_) => state_of(*final(self)) == (Phase1State {
                                    current_instruction: spec_count32_from(0, split),
                                    ..st
                                }),
                            }
                        }
                    },
                }
            }),
    {
        let bytes: &[u8] = raw.as_bytes();
        match crate::assembler::parser::program(bytes) {
            Err(e) => Err(vec![e]),
            Ok(mut prog) => {
                self.process_first_phase(&mut prog);
                if self.errors.len() > 0 {
                    return Err(clone_errors(&self.errors));
                }
                if self.sections.len() != 2 {
                    self.errors.push(AssemblerError::InsufficientSections);
                    return Err(clone_errors(&self.errors));
                }
                match self.process_second_phase(&prog) {
                    Err(e) => Err(vec![e]),
                    Ok(body) => {
                        let mut image = self.write_pie_header();
                        push_le32(&mut image, #[verifier::truncate] (self.ro.len() as u32));
                        push_bytes(&mut image, self.ro.as_slice());
                        push_bytes(&mut image, body.as_slice());
                        Ok(image)
                    },
                }
            },
        }
    }
}

impl Default for Assembler {
    /// A fresh assembler, as `new` builds it.
    fn default() -> (r: Self)
        ensures
            r.phase == AssemblerPhase::First,
            r.bytecode@ == Seq::<u8>::empty(),
            state_of(r) == spec_initial_state(),
    {
        Assembler::new()
    }
}

// ---------------------------------------------------------------------------
// Laws of the assembler
// ---------------------------------------------------------------------------
/// Law: a successfully assembled image holds at least the 68-byte frame
/// and opens with the magic bytes 45 50 49 45.
pub proof fn lemma_image_starts_with_magic(src: Seq<u8>, st0: Phase1State)
    requires
        spec_assemble(src, st0) is Ok,
    ensures
        ({
            let img = spec_assemble(src, st0)->Ok_0;
            &&& img.len() >= 68
            &&& img[0] == 0x45
            &&& img[1] == 0x50
            &&& img[2] == 0x49
            &&& img[3] == 0x45
        }),
{
    assert(spec_pie_header().len() == 64);
    assert(spec_pie_header()[0] == 0x45);
    assert(spec_pie_header()[1] == 0x50);
    assert(spec_pie_header()[2] == 0x49);
    assert(spec_pie_header()[3] == 0x45);
}

/// Law: bytes 4 through 63 of a successfully assembled image — the
/// reserved remainder of the header — are zero.
pub proof fn lemma_image_reserved_zero(src: Seq<u8>, st0: Phase1State)
    requires
        spec_assemble(src, st0) is Ok,
    ensures
        forall|k: int| 4 <= k < 64 ==> spec_assemble(src, st0)->Ok_0[k] == 0,
{
    assert(spec_pie_header().len() == 64);
    assert forall|k: int| 4 <= k < 64 implies spec_assemble(src, st0)->Ok_0[k] == 0 by {
        assert(spec_pie_header()[k] == 0);
        assert(spec_assemble(src, st0)->Ok_0[k] == spec_pie_header()[k]);
    }
}

/// Every code-slot count is a count.
pub proof fn lemma_code_count_nonneg(instrs: Seq<InstructionV>)
    ensures
        spec_code_count(instrs) >= 0,
    decreases instrs.len(),
{
    if instrs.len() > 0 {
        lemma_code_count_nonneg(instrs.drop_first());
    }
}

/// Law: the emitted code section holds exactly four bytes for every
/// code-bearing instruction, as long as each instruction fits its slot
/// and each carries an opcode or a directive.
pub proof fn lemma_emit_code_len(instrs: Seq<InstructionV>, symbols: Seq<SymbolV>)
    requires
        forall|k: int| 0 <= k < instrs.len() ==> spec_encoded_width(#[trigger] instrs[k]) <= 4,
        forall|k: int|
            0 <= k < instrs.len() ==> (#[trigger] instrs[k]).opcode is Some || instrs[k].directive
                is Some,
    ensures
        spec_emit_code(instrs, symbols) matches Ok(bs) ==> bs.len() == 4 * spec_code_count(
            instrs,
        ),
    decreases instrs.len(),
{
    if instrs.len() > 0 {
        let rest = instrs.drop_first();
        assert(forall|k: int| 0 <= k < rest.len() ==> rest[k] == instrs[k + 1]);
        lemma_emit_code_len(rest, symbols);
        lemma_code_count_nonneg(rest);
        if !(instrs[0].directive is Some) {
            crate::assembler::instruction::lemma_no_overlong_instruction(instrs[0], symbols);
        }
    }
}

/// Law: a successfully assembled image of a program whose instructions
/// fit their slots is exactly 68 + |read-only data| + 4·|code
/// instructions| bytes long, counted after `LOAD` splitting.
pub proof fn lemma_image_length(src: Seq<u8>, st0: Phase1State)
    requires
        spec_assemble(src, st0) is Ok,
        spec_parse_program(src) is Ok,
        forall|k: int|
            0 <= k < spec_split_program(spec_parse_program(src)->Ok_0).len()
                ==> spec_encoded_width(
                #[trigger] spec_split_program(spec_parse_program(src)->Ok_0)[k],
            ) <= 4,
        forall|k: int|
            0 <= k < spec_split_program(spec_parse_program(src)->Ok_0).len() ==> (
            #[trigger] spec_split_program(spec_parse_program(src)->Ok_0)[k]).opcode is Some
                || spec_split_program(spec_parse_program(src)->Ok_0)[k].directive is Some,
    ensures
        ({
            let split = spec_split_program(spec_parse_program(src)->Ok_0);
            let st = spec_phase1_walk(st0, split);
            spec_assemble(src, st0)->Ok_0.len() == 68 + st.ro.len() + 4 * spec_code_count(split)
        }),
{
    let split = spec_split_program(spec_parse_program(src)->Ok_0);
    let st = spec_phase1_walk(st0, split);
    lemma_emit_code_len(split, st.symbols);
    assert(spec_pie_header().len() == 64);
    assert(le32_bytes(st.ro.len() as u32).len() == 4);
}

/// Whether the program declares `name` as a label somewhere.
pub open spec fn spec_program_declares(instrs: Seq<InstructionV>, name: Seq<u8>) -> bool {
    exists|k: int|
        0 <= k < instrs.len() && (#[trigger] instrs[k]).label == Some(
            TokenV::LabelDeclaration { name },
        )
}

/// Whether some operand of `i` uses the label `name`.
pub open spec fn spec_instruction_uses(i: InstructionV, name: Seq<u8>) -> bool {
    ||| i.operand_one == Some(TokenV::LabelUsage { name })
    ||| i.operand_two == Some(TokenV::LabelUsage { name })
    ||| i.operand_three == Some(TokenV::LabelUsage { name })
}

/// Whether the program uses the label `name` somewhere.
pub open spec fn spec_program_uses(instrs: Seq<InstructionV>, name: Seq<u8>) -> bool {
    exists|k: int| 0 <= k < instrs.len() && spec_instruction_uses(#[trigger] instrs[k], name)
}

/// One step never removes errors, and the count step adds none.
proof fn lemma_step_errors_monotone(st: Phase1State, ins: InstructionV)
    ensures
        spec_label_step(st, ins).errors.len() >= st.errors.len(),
        spec_phase1_step(st, ins).errors.len() >= spec_label_step(st, ins).errors.len(),
        spec_phase1_step(st, ins).errors.len() >= st.errors.len(),
{
}

/// A whole walk never removes errors.
proof fn lemma_walk_errors_monotone(st: Phase1State, instrs: Seq<InstructionV>)
    ensures
        spec_phase1_walk(st, instrs).errors.len() >= st.errors.len(),
    decreases instrs.len(),
{
    if instrs.len() > 0 {
        lemma_step_errors_monotone(st, instrs[0]);
        lemma_walk_errors_monotone(spec_phase1_step(st, instrs[0]), instrs.drop_first());
    }
}

/// One step keeps every present symbol name present.
proof fn lemma_step_preserves_has_name(st: Phase1State, ins: InstructionV, name: Seq<u8>)
    requires
        spec_has_name(st.symbols, name),
    ensures
        spec_has_name(spec_phase1_step(st, ins).symbols, name),
{
    let st1 = spec_label_step(st, ins);
    assert forall|s: SymbolV| spec_has_name(st.symbols.push(s), name) by {
        crate::assembler::symbols::lemma_has_name_push(st.symbols, s, name);
    }
    assert(spec_has_name(st1.symbols, name));
    assert forall|target: Seq<u8>, off: u32|
        spec_has_name(spec_set_offset(st1.symbols, target, off), name) by {
        crate::assembler::symbols::lemma_set_offset_names(st1.symbols, target, off, name);
    }
}

/// A step that records no error and declares `name` leaves `name` in the
/// symbol table.
proof fn lemma_declaring_step_records(st: Phase1State, ins: InstructionV, name: Seq<u8>)
    requires
        ins.label == Some(TokenV::LabelDeclaration { name }),
        spec_phase1_step(st, ins).errors.len() == st.errors.len(),
    ensures
        spec_has_name(spec_phase1_step(st, ins).symbols, name),
{
    lemma_step_errors_monotone(st, ins);
    let st1 = spec_label_step(st, ins);
    assert(st1.errors.len() == st.errors.len());
    assert(st.current_section is Some);
    if spec_has_name(st.symbols, name) {
        lemma_step_preserves_has_name(st, ins, name);
    } else {
        assert forall|s: SymbolV|
            s.name == name implies spec_has_name(st.symbols.push(s), name) by {
            crate::assembler::symbols::lemma_has_name_push(st.symbols, s, name);
        }
        assert(spec_has_name(st1.symbols, name));
        assert forall|target: Seq<u8>, off: u32|
            spec_has_name(spec_set_offset(st1.symbols, target, off), name) by {
            crate::assembler::symbols::lemma_set_offset_names(st1.symbols, target, off, name);
        }
    }
}

/// After an error-free walk, every name declared along it, and every
/// name already present, stands in the symbol table.
proof fn lemma_declared_in_table(st: Phase1State, instrs: Seq<InstructionV>, name: Seq<u8>)
    requires
        spec_phase1_walk(st, instrs).errors.len() == st.errors.len(),
        spec_program_declares(instrs, name) || spec_has_name(st.symbols, name),
    ensures
        spec_has_name(spec_phase1_walk(st, instrs).symbols, name),
    decreases instrs.len(),
{
    if instrs.len() == 0 {
        assert(spec_has_name(st.symbols, name));
    } else {
        let st1 = spec_phase1_step(st, instrs[0]);
        lemma_step_errors_monotone(st, instrs[0]);
        lemma_walk_errors_monotone(st1, instrs.drop_first());
        assert(st1.errors.len() == st.errors.len());
        if instrs[0].label == Some(TokenV::LabelDeclaration { name }) {
            lemma_declaring_step_records(st, instrs[0], name);
            lemma_declared_in_table(st1, instrs.drop_first(), name);
        } else if spec_has_name(st.symbols, name) {
            lemma_step_preserves_has_name(st, instrs[0], name);
            lemma_declared_in_table(st1, instrs.drop_first(), name);
        } else {
            let k = choose|k: int|
                0 <= k < instrs.len() && (#[trigger] instrs[k]).label == Some(
                    TokenV::LabelDeclaration { name },
                );
            assert(k > 0);
            assert(instrs.drop_first()[k - 1] == instrs[k]);
            assert(spec_program_declares(instrs.drop_first(), name));
            lemma_declared_in_table(st1, instrs.drop_first(), name);
        }
    }
}

/// Law: after an error-free first phase, every label usage in the
/// program whose name the program also declares appears as a key in the
/// symbol table, so the second phase can resolve it.
pub proof fn lemma_label_usages_resolve(
    st0: Phase1State,
    instrs: Seq<InstructionV>,
    name: Seq<u8>,
)
    requires
        st0.errors.len() == 0,
        spec_phase1_walk(st0, instrs).errors.len() == 0,
        spec_program_uses(instrs, name),
        spec_program_declares(instrs, name),
    ensures
        spec_has_name(spec_phase1_walk(st0, instrs).symbols, name),
{
    lemma_declared_in_table(st0, instrs, name);
}

/// Law: the first phase leaves `current_instruction` equal to the count
/// of code-bearing instructions it walked, counted on from where it
/// began, whenever that count fits the counter.
pub proof fn lemma_phase1_counts_code(st: Phase1State, instrs: Seq<InstructionV>)
    requires
        st.current_instruction + spec_code_count(instrs) <= u32::MAX,
    ensures
        spec_phase1_walk(st, instrs).current_instruction == st.current_instruction
            + spec_code_count(instrs),
    decreases instrs.len(),
{
    if instrs.len() > 0 {
        let st1 = spec_phase1_step(st, instrs[0]);
        lemma_code_count_nonneg(instrs.drop_first());
        lemma_phase1_counts_code(st1, instrs.drop_first());
    }
}

/// A directive line that stands as a section header but names an
/// unknown section.
pub open spec fn spec_bad_section_header(i: InstructionV) -> bool {
    &&& (i.directive matches Some(TokenV::Directive { name }) && spec_section_of_name(name)
        == AssemblerSection::Unknown)
    &&& i.operand_one is None
    &&& i.operand_two is None
    &&& i.operand_three is None
}

/// A walk over a program holding an unknown section header records an
/// error.
proof fn lemma_bad_header_walk(st: Phase1State, instrs: Seq<InstructionV>, k: int)
    requires
        0 <= k < instrs.len(),
        spec_bad_section_header(instrs[k]),
    ensures
        spec_phase1_walk(st, instrs).errors.len() > st.errors.len(),
    decreases instrs.len(),
{
    let st1 = spec_phase1_step(st, instrs[0]);
    if k == 0 {
        lemma_step_errors_monotone(st, instrs[0]);
        assert(spec_directive_step(spec_label_step(st, instrs[0]), instrs[0]).errors.len()
            > spec_label_step(st, instrs[0]).errors.len());
        lemma_walk_errors_monotone(st1, instrs.drop_first());
    } else {
        lemma_step_errors_monotone(st, instrs[0]);
        assert(instrs.drop_first()[k - 1] == instrs[k]);
        lemma_bad_header_walk(st1, instrs.drop_first(), k - 1);
    }
}

/// Law: a source whose program carries a section header other than
/// `.data` or `.code` does not assemble.
pub proof fn lemma_unknown_section_header_fails(src: Seq<u8>, st0: Phase1State, k: int)
    requires
        spec_parse_program(src) is Ok,
        0 <= k < spec_split_program(spec_parse_program(src)->Ok_0).len(),
        spec_bad_section_header(spec_split_program(spec_parse_program(src)->Ok_0)[k]),
    ensures
        spec_assemble(src, st0) is Err,
{
    lemma_bad_header_walk(st0, spec_split_program(spec_parse_program(src)->Ok_0), k);
}

/// An exact copy of an error list.
fn clone_errors(v: &Vec<AssemblerError>) -> (r: Vec<AssemblerError>)
    ensures
        r@ == v@,
{
    let mut out: Vec<AssemblerError> = Vec::new();
    let mut i: usize = 0;
    while i < v.len()
        invariant
            i <= v@.len(),
            out@ =~= v@.subrange(0, i as int),
        decreases v@.len() - i,
    {
        out.push(v[i]);
        i = i + 1;
    }
    proof {
        assert(out@ =~= v@);
    }
    out
}

} // verus!
