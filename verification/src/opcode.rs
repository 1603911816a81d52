use vstd::prelude::*;

use crate::bytes::{lower_bytes, to_lower, word_eq2, word_eq3, word_eq4};

verus! {

/// The instruction set of the virtual machine.
///
/// The numeric encoding is part of the bytecode ABI: the variants are
/// numbered contiguously from zero in the order listed here, and every byte
/// outside the defined range decodes to `IGL` (illegal instruction).
#[derive(Clone, Copy, Debug, PartialEq, Eq, Structural)]
pub enum Opcode {
    LOAD,
    ADD,
    SUB,
    MUL,
    DIV,
    HLT,
    JMP,
    JMPF,
    JMPB,
    EQ,
    NEQ,
    GT,
    LT,
    GTQ,
    LTQ,
    JEQ,
    JNEQ,
    ALOC,
    INC,
    DEC,
    LUI,
    PRTS,
    IGL,
}

/// The numeric byte assigned to each opcode.
pub open spec fn byte_of_opcode(o: Opcode) -> u8 {
    match o {
        Opcode::LOAD => 0,
        Opcode::ADD => 1,
        Opcode::SUB => 2,
        Opcode::MUL => 3,
        Opcode::DIV => 4,
        Opcode::HLT => 5,
        Opcode::JMP => 6,
        Opcode::JMPF => 7,
        Opcode::JMPB => 8,
        Opcode::EQ => 9,
        Opcode::NEQ => 10,
        Opcode::GT => 11,
        Opcode::LT => 12,
        Opcode::GTQ => 13,
        Opcode::LTQ => 14,
        Opcode::JEQ => 15,
        Opcode::JNEQ => 16,
        Opcode::ALOC => 17,
        Opcode::INC => 18,
        Opcode::DEC => 19,
        Opcode::LUI => 20,
        Opcode::PRTS => 21,
        Opcode::IGL => 22,
    }
}

/// The opcode a program byte decodes to; bytes outside the defined set
/// decode to `IGL`.
pub open spec fn opcode_of_byte(b: u8) -> Opcode {
    if b == 0 {
        Opcode::LOAD
    } else if b == 1 {
        Opcode::ADD
    } else if b == 2 {
        Opcode::SUB
    } else if b == 3 {
        Opcode::MUL
    } else if b == 4 {
        Opcode::DIV
    } else if b == 5 {
        Opcode::HLT
    } else if b == 6 {
        Opcode::JMP
    } else if b == 7 {
        Opcode::JMPF
    } else if b == 8 {
        Opcode::JMPB
    } else if b == 9 {
        Opcode::EQ
    } else if b == 10 {
        Opcode::NEQ
    } else if b == 11 {
        Opcode::GT
    } else if b == 12 {
        Opcode::LT
    } else if b == 13 {
        Opcode::GTQ
    } else if b == 14 {
        Opcode::LTQ
    } else if b == 15 {
        Opcode::JEQ
    } else if b == 16 {
        Opcode::JNEQ
    } else if b == 17 {
        Opcode::ALOC
    } else if b == 18 {
        Opcode::INC
    } else if b == 19 {
        Opcode::DEC
    } else if b == 20 {
        Opcode::LUI
    } else if b == 21 {
        Opcode::PRTS
    } else {
        Opcode::IGL
    }
}

impl Opcode {
    /// The byte this opcode is encoded as in bytecode.
    pub fn to_byte(self) -> (b: u8)
        ensures
            b == byte_of_opcode(self),
    {
        match self {
            Opcode::LOAD => 0,
            Opcode::ADD => 1,
            Opcode::SUB => 2,
            Opcode::MUL => 3,
            Opcode::DIV => 4,
            Opcode::HLT => 5,
            Opcode::JMP => 6,
            Opcode::JMPF => 7,
            Opcode::JMPB => 8,
            Opcode::EQ => 9,
            Opcode::NEQ => 10,
            Opcode::GT => 11,
            Opcode::LT => 12,
            Opcode::GTQ => 13,
            Opcode::LTQ => 14,
            Opcode::JEQ => 15,
            Opcode::JNEQ => 16,
            Opcode::ALOC => 17,
            Opcode::INC => 18,
            Opcode::DEC => 19,
            Opcode::LUI => 20,
            Opcode::PRTS => 21,
            Opcode::IGL => 22,
        }
    }

    /// Decode a program byte into an opcode; undefined bytes yield `IGL`.
    pub fn from_byte(b: u8) -> (o: Opcode)
        ensures
            o == opcode_of_byte(b),
    {
        match b {
            0 => Opcode::LOAD,
            1 => Opcode::ADD,
            2 => Opcode::SUB,
            3 => Opcode::MUL,
            4 => Opcode::DIV,
            5 => Opcode::HLT,
            6 => Opcode::JMP,
            7 => Opcode::JMPF,
            8 => Opcode::JMPB,
            9 => Opcode::EQ,
            10 => Opcode::NEQ,
            11 => Opcode::GT,
            12 => Opcode::LT,
            13 => Opcode::GTQ,
            14 => Opcode::LTQ,
            15 => Opcode::JEQ,
            16 => Opcode::JNEQ,
            17 => Opcode::ALOC,
            18 => Opcode::INC,
            19 => Opcode::DEC,
            20 => Opcode::LUI,
            21 => Opcode::PRTS,
            _ => Opcode::IGL,
        }
    }
}

/// The lower-case mnemonic of each opcode, as ASCII bytes.
pub open spec fn mnemonic_of_opcode(o: Opcode) -> Seq<u8> {
    match o {
        Opcode::LOAD => seq![108u8, 111u8, 97u8, 100u8],
        Opcode::ADD => seq![97u8, 100u8, 100u8],
        Opcode::SUB => seq![115u8, 117u8, 98u8],
        Opcode::MUL => seq![109u8, 117u8, 108u8],
        Opcode::DIV => seq![100u8, 105u8, 118u8],
        Opcode::HLT => seq![104u8, 108u8, 116u8],
        Opcode::JMP => seq![106u8, 109u8, 112u8],
        Opcode::JMPF => seq![106u8, 109u8, 112u8, 102u8],
        Opcode::JMPB => seq![106u8, 109u8, 112u8, 98u8],
        Opcode::EQ => seq![101u8, 113u8],
        Opcode::NEQ => seq![110u8, 101u8, 113u8],
        Opcode::GT => seq![103u8, 116u8],
        Opcode::LT => seq![108u8, 116u8],
        Opcode::GTQ => seq![103u8, 116u8, 113u8],
        Opcode::LTQ => seq![108u8, 116u8, 113u8],
        Opcode::JEQ => seq![106u8, 101u8, 113u8],
        Opcode::JNEQ => seq![106u8, 110u8, 101u8, 113u8],
        Opcode::ALOC => seq![97u8, 108u8, 111u8, 99u8],
        Opcode::INC => seq![105u8, 110u8, 99u8],
        Opcode::DEC => seq![100u8, 101u8, 99u8],
        Opcode::LUI => seq![108u8, 117u8, 105u8],
        Opcode::PRTS => seq![112u8, 114u8, 116u8, 115u8],
        Opcode::IGL => seq![105u8, 103u8, 108u8],
    }
}

/// The opcode an identifier names, compared case-insensitively; an unknown
/// identifier names `IGL`.
pub open spec fn spec_opcode_of_ident(s: Seq<u8>) -> Opcode {
    let low = lower_bytes(s);
    if low == mnemonic_of_opcode(Opcode::LOAD) {
        Opcode::LOAD
    } else if low == mnemonic_of_opcode(Opcode::ADD) {
        Opcode::ADD
    } else if low == mnemonic_of_opcode(Opcode::SUB) {
        Opcode::SUB
    } else if low == mnemonic_of_opcode(Opcode::MUL) {
        Opcode::MUL
    } else if low == mnemonic_of_opcode(Opcode::DIV) {
        Opcode::DIV
    } else if low == mnemonic_of_opcode(Opcode::HLT) {
        Opcode::HLT
    } else if low == mnemonic_of_opcode(Opcode::JMP) {
        Opcode::JMP
    } else if low == mnemonic_of_opcode(Opcode::JMPF) {
        Opcode::JMPF
    } else if low == mnemonic_of_opcode(Opcode::JMPB) {
        Opcode::JMPB
    } else if low == mnemonic_of_opcode(Opcode::EQ) {
        Opcode::EQ
    } else if low == mnemonic_of_opcode(Opcode::NEQ) {
        Opcode::NEQ
    } else if low == mnemonic_of_opcode(Opcode::GT) {
        Opcode::GT
    } else if low == mnemonic_of_opcode(Opcode::LT) {
        Opcode::LT
    } else if low == mnemonic_of_opcode(Opcode::GTQ) {
        Opcode::GTQ
    } else if low == mnemonic_of_opcode(Opcode::LTQ) {
        Opcode::LTQ
    } else if low == mnemonic_of_opcode(Opcode::JEQ) {
        Opcode::JEQ
    } else if low == mnemonic_of_opcode(Opcode::JNEQ) {
        Opcode::JNEQ
    } else if low == mnemonic_of_opcode(Opcode::ALOC) {
        Opcode::ALOC
    } else if low == mnemonic_of_opcode(Opcode::INC) {
        Opcode::INC
    } else if low == mnemonic_of_opcode(Opcode::DEC) {
        Opcode::DEC
    } else if low == mnemonic_of_opcode(Opcode::LUI) {
        Opcode::LUI
    } else if low == mnemonic_of_opcode(Opcode::PRTS) {
        Opcode::PRTS
    } else {
        Opcode::IGL
    }
}

/// The opcode named by an identifier from the source text, compared
/// case-insensitively; unknown mnemonics yield `IGL`.
pub fn opcode_of_ident(ident: &[u8]) -> (o: Opcode)
    ensures
        o == spec_opcode_of_ident(ident@),
{
    let low_vec = to_lower(ident);
    let low = low_vec.as_slice();
    if word_eq4(low, 108u8, 111u8, 97u8, 100u8) {
        Opcode::LOAD
    } else if word_eq3(low, 97u8, 100u8, 100u8) {
        Opcode::ADD
    } else if word_eq3(low, 115u8, 117u8, 98u8) {
        Opcode::SUB
    } else if word_eq3(low, 109u8, 117u8, 108u8) {
        Opcode::MUL
    } else if word_eq3(low, 100u8, 105u8, 118u8) {
        Opcode::DIV
    } else if word_eq3(low, 104u8, 108u8, 116u8) {
        Opcode::HLT
    } else if word_eq3(low, 106u8, 109u8, 112u8) {
        Opcode::JMP
    } else if word_eq4(low, 106u8, 109u8, 112u8, 102u8) {
        Opcode::JMPF
    } else if word_eq4(low, 106u8, 109u8, 112u8, 98u8) {
        Opcode::JMPB
    } else if word_eq2(low, 101u8, 113u8) {
        Opcode::EQ
    } else if word_eq3(low, 110u8, 101u8, 113u8) {
        Opcode::NEQ
    } else if word_eq2(low, 103u8, 116u8) {
        Opcode::GT
    } else if word_eq2(low, 108u8, 116u8) {
        Opcode::LT
    } else if word_eq3(low, 103u8, 116u8, 113u8) {
        Opcode::GTQ
    } else if word_eq3(low, 108u8, 116u8, 113u8) {
        Opcode::LTQ
    } else if word_eq3(low, 106u8, 101u8, 113u8) {
        Opcode::JEQ
    } else if word_eq4(low, 106u8, 110u8, 101u8, 113u8) {
        Opcode::JNEQ
    } else if word_eq4(low, 97u8, 108u8, 111u8, 99u8) {
        Opcode::ALOC
    } else if word_eq3(low, 105u8, 110u8, 99u8) {
        Opcode::INC
    } else if word_eq3(low, 100u8, 101u8, 99u8) {
        Opcode::DEC
    } else if word_eq3(low, 108u8, 117u8, 105u8) {
        Opcode::LUI
    } else if word_eq4(low, 112u8, 114u8, 116u8, 115u8) {
        Opcode::PRTS
    } else {
        Opcode::IGL
    }
}

/// Law: decoding the encoding of any opcode yields that opcode again.
pub proof fn lemma_opcode_byte_round_trip(o: Opcode)
    ensures
        opcode_of_byte(byte_of_opcode(o)) == o,
{
}

/// Law: every byte outside the defined opcode range decodes to `IGL`;
/// in particular the bytes 200 through 255 all do.
pub proof fn lemma_undefined_byte_decodes_igl(b: u8)
    requires
        22 <= b,
    ensures
        opcode_of_byte(b) == Opcode::IGL,
{
}

} // verus!
