use epievm::assembler::parser::program;
use epievm::assembler::symbols::{Symbol, SymbolTable, SymbolType};
use epievm::assembler::{Assembler, AssemblerError, Token};
use epievm::opcode::Opcode;
use epievm::utils::{from_hex, is_hex_digit, HexParseError};
use epievm::vm::{VMEventType, VirtualMachine};

#[test]
fn opcode_byte_round_trip() {
    let all = [
        Opcode::LOAD,
        Opcode::ADD,
        Opcode::SUB,
        Opcode::MUL,
        Opcode::DIV,
        Opcode::HLT,
        Opcode::JMP,
        Opcode::JMPF,
        Opcode::JMPB,
        Opcode::EQ,
        Opcode::NEQ,
        Opcode::GT,
        Opcode::LT,
        Opcode::GTQ,
        Opcode::LTQ,
        Opcode::JEQ,
        Opcode::JNEQ,
        Opcode::ALOC,
        Opcode::INC,
        Opcode::DEC,
        Opcode::LUI,
        Opcode::PRTS,
        Opcode::IGL,
    ];
    for op in all {
        assert_eq!(Opcode::from_byte(op.to_byte()), op);
    }
    for b in 23u8..=255u8 {
        assert_eq!(Opcode::from_byte(b), Opcode::IGL);
    }
}

#[test]
fn load_at_sixteen_bit_boundary_stays_whole() {
    let mut assembler = Assembler::new();
    let mut p = program(b"load $0 #65535\n").unwrap();
    assembler.process_first_phase(&mut p);
    assert_eq!(p.instructions.len(), 1);
}

#[test]
fn load_past_sixteen_bit_boundary_splits() {
    let mut assembler = Assembler::new();
    let mut p = program(b"load $0 #65536\n").unwrap();
    assembler.process_first_phase(&mut p);
    assert_eq!(p.instructions.len(), 2);
    assert_eq!(p.instructions[0].opcode, Some(Token::Op { code: Opcode::LOAD }));
    assert_eq!(p.instructions[0].operand_two, Some(Token::IntegerOperand { value: 0 }));
    assert_eq!(p.instructions[1].opcode, Some(Token::Op { code: Opcode::LUI }));
    assert_eq!(p.instructions[1].operand_one, Some(Token::Register { reg_num: 0 }));
    assert_eq!(p.instructions[1].operand_two, Some(Token::IntegerOperand { value: 1 }));
}

#[test]
fn image_header_magic_and_padding() {
    let mut assembler = Assembler::new();
    let image = assembler.assemble("\n.data\n.code\nload $0 #500\nhlt\n").unwrap();
    assert_eq!(&image[0..4], &[0x45, 0x50, 0x49, 0x45]);
    for k in 4..64 {
        assert_eq!(image[k], 0);
    }
    // entry offset: no read-only data, so the code starts right away
    assert_eq!(&image[64..68], &[0, 0, 0, 0]);
    // the first code instruction is LOAD $0 #500
    assert_eq!(&image[68..72], &[0, 0, 1, 244]);
    assert_eq!(image.len(), 76);
}

#[test]
fn ro_area_holds_asciiz_bytes() {
    let mut assembler = Assembler::new();
    let result = program(b"\n.data\ntest: .asciiz 'Hello'\n").unwrap();
    let mut p = result;
    assembler.process_first_phase(&mut p);
    assert_eq!(assembler.errors.len(), 0);
    assert_eq!(&assembler.ro[0..6], &[0x48, 0x65, 0x6C, 0x6C, 0x6F, 0x00]);
}

#[test]
fn ro_area_holds_integer_bytes() {
    let mut assembler = Assembler::new();
    let mut p = program(b"\n.data\ntest: .integer #300\n").unwrap();
    assembler.process_first_phase(&mut p);
    assert_eq!(assembler.errors.len(), 0);
    assert_eq!(&assembler.ro[0..4], &[44, 1, 0, 0]);
}

#[test]
fn parse_error_reports_position() {
    let mut assembler = Assembler::new();
    let r = assembler.assemble("???");
    assert_eq!(r, Err(vec![AssemblerError::ParseError { at: 0 }]));
}

#[test]
fn label_before_any_section_is_rejected() {
    let mut assembler = Assembler::new();
    let r = assembler.assemble("lbl: hlt\n.data\n.code\n");
    assert_eq!(
        r,
        Err(vec![AssemblerError::NoSegmentDeclarationFound { instruction: 0 }])
    );
}

#[test]
fn datum_without_label_is_rejected() {
    let mut assembler = Assembler::new();
    let r = assembler.assemble("\n.data\n.asciiz 'x'\n.code\n");
    assert_eq!(
        r,
        Err(vec![AssemblerError::StringConstantDeclaredWithoutLabel { instruction: 0 }])
    );
}

#[test]
fn duplicate_label_is_rejected() {
    let mut assembler = Assembler::new();
    let r = assembler.assemble("\n.data\n.code\na: hlt\na: hlt\n");
    assert_eq!(r, Err(vec![AssemblerError::SymbolAlreadyDeclared { instruction: 1 }]));
}

#[test]
fn unknown_directive_is_rejected() {
    let mut assembler = Assembler::new();
    let r = assembler.assemble("\n.data\n.code\n.bogus #1\n");
    assert_eq!(r, Err(vec![AssemblerError::UnknownDirective { instruction: 0 }]));
}

#[test]
fn unknown_section_header_is_rejected() {
    let mut assembler = Assembler::new();
    let r = assembler.assemble(".bogus\n");
    assert_eq!(r, Err(vec![AssemblerError::UnknownSectionHeader { instruction: 0 }]));
}

#[test]
fn unresolved_label_usage_is_rejected() {
    let mut assembler = Assembler::new();
    let r = assembler.assemble("\n.data\n.code\njmp @nowhere\nhlt\n");
    assert_eq!(r, Err(vec![AssemblerError::UnknownSymbol]));
}

#[test]
fn one_section_is_insufficient() {
    let mut assembler = Assembler::new();
    let r = assembler.assemble("\n.data\nhlt\n");
    assert_eq!(r, Err(vec![AssemblerError::InsufficientSections]));
}

#[test]
fn string_operand_cannot_be_encoded() {
    let mut assembler = Assembler::new();
    let r = assembler.assemble("\n.data\n.code\nload $0 'x'\n");
    assert_eq!(r, Err(vec![AssemblerError::OpcodeInOperandField]));
}

#[test]
fn directive_line_cannot_be_encoded_alone() {
    let p = program(b".data\n").unwrap();
    let symbols = epievm::assembler::symbols::SymbolTable::new();
    assert_eq!(p.to_bytes(&symbols), Err(AssemblerError::NonOpcodeInOpcodeField));
}

#[test]
fn hex_digit_classification() {
    assert_eq!(is_hex_digit('9'), true);
    assert_eq!(is_hex_digit('a'), true);
    assert_eq!(is_hex_digit('F'), true);
    assert_eq!(is_hex_digit('g'), false);
    assert_eq!(is_hex_digit(' '), false);
}

#[test]
fn hex_parsing() {
    assert_eq!(from_hex("ff"), Ok(255));
    assert_eq!(from_hex("A"), Ok(10));
    assert_eq!(from_hex("00"), Ok(0));
    assert_eq!(from_hex(""), Err(HexParseError::Empty));
    assert_eq!(from_hex("zz"), Err(HexParseError::InvalidDigit));
    assert_eq!(from_hex("100"), Err(HexParseError::TooLarge));
}

#[test]
fn prts_appends_to_output() {
    let mut vm = VirtualMachine::new();
    vm.ro_data = vec![0x48, 0x69, 0x00];
    vm.program = vec![21, 0, 0, 0];
    vm.run_once();
    assert_eq!(vm.output, vec![0x48, 0x69]);
    assert_eq!(vm.pc, 4);
}

#[test]
fn div_keeps_remainder() {
    let mut vm = VirtualMachine::get_test_vm();
    // R[0] = 5, R[1] = 10: 10 / 5 leaves no remainder, 5 / 10 leaves 5
    vm.program = vec![4, 1, 0, 2, 4, 0, 1, 3];
    vm.run_once();
    assert_eq!(vm.registers[2], 2);
    assert_eq!(vm.remainder, 0);
    vm.run_once();
    assert_eq!(vm.registers[3], 0);
    assert_eq!(vm.remainder, 5);
}

#[test]
fn halt_run_is_logged_gracefully() {
    let mut vm = VirtualMachine::new();
    vm.program = VirtualMachine::prepend_header(vec![5, 0, 0, 0]);
    let events = vm.run();
    assert_eq!(events.len(), 2);
    assert_eq!(events[0].event, VMEventType::Start);
    assert_eq!(events[1].event, VMEventType::GracefulStop { code: 1 });
    assert_eq!(events[1].event.stop_code(), 1);
}

#[test]
fn illegal_instruction_ends_the_run() {
    let mut vm = VirtualMachine::new();
    vm.program = VirtualMachine::prepend_header(vec![200, 0, 0, 0]);
    let events = vm.run();
    assert_eq!(events.len(), 2);
    assert_eq!(events.last().unwrap().event.stop_code(), 1);
    assert_eq!(vm.pc, 69);
}

#[test]
fn bad_magic_crashes_the_run() {
    let mut vm = VirtualMachine::new();
    vm.program = vec![1, 2, 3, 4];
    let events = vm.run();
    assert_eq!(events.len(), 2);
    assert_eq!(events[1].event, VMEventType::Crash { code: 1 });
}

#[test]
fn prepend_header_frames_bytes() {
    let framed = VirtualMachine::prepend_header(vec![9, 9]);
    assert_eq!(framed.len(), 70);
    assert_eq!(&framed[0..4], &[0x45, 0x50, 0x49, 0x45]);
    assert_eq!(&framed[64..68], &[0, 0, 0, 0]);
    assert_eq!(&framed[68..70], &[9, 9]);
}

#[test]
fn fresh_machine_shape() {
    let vm = VirtualMachine::new();
    assert_eq!(vm.registers.len(), 32);
    assert!(vm.logical_cores >= 1);
    assert_eq!(vm.heap.len(), 0);
    assert_eq!(vm.events.len(), 0);
    assert_eq!(vm.equal_flag, false);
}

#[test]
fn alias_naming() {
    let vm = VirtualMachine::new().with_alias(String::new());
    assert_eq!(vm.alias, None);
    let vm = VirtualMachine::new().with_alias("primary".to_string());
    assert_eq!(vm.alias, Some("primary".to_string()));
}

#[test]
fn symbol_offsets_can_be_resolved_later() {
    let mut sym = SymbolTable::new();
    sym.add_symbol(Symbol::new(b"lbl".to_vec(), SymbolType::Label));
    assert_eq!(sym.has_symbol(b"lbl"), true);
    assert_eq!(sym.symbol_value(b"lbl"), None);
    assert_eq!(sym.set_symbol_offset(b"lbl", 40), true);
    assert_eq!(sym.symbol_value(b"lbl"), Some(40));
    assert_eq!(sym.set_symbol_offset(b"ghost_name", 4), false);
}

#[test]
fn label_usage_is_emitted_as_offset() {
    let mut assembler = Assembler::new();
    let image = assembler
        .assemble("\n.data\n.code\nload $0 #1\ntarget: hlt\njmp @target\n")
        .unwrap();
    // code: LOAD at 0, HLT at 4 (the target), JMP at 8; the usage is
    // emitted as the big-endian low 16 bits of the target's offset
    assert_eq!(&image[76..80], &[6, 0, 4, 0]);
}

#[test]
fn looping_program_counts_down() {
    let mut assembler = Assembler::new();
    // count R1 down from 3 to 0, then halt; R3 holds the loop head's
    // absolute address: 68 header bytes plus three LOADs
    let src = "\n.data\n.code\nload $1 #3\nload $2 #0\nload $3 #80\nstep: dec $1\neq $1 $2\njneq $3\nhlt\n";
    let image = assembler.assemble(src).unwrap();
    let mut vm = VirtualMachine::new();
    vm.add_bytes(image);
    let events = vm.run();
    assert_eq!(vm.registers[1], 0);
    assert_eq!(events.last().unwrap().event.stop_code(), 1);
}
