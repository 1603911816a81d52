use epievm::assembler::parser::program;
use epievm::assembler::symbols::{Symbol, SymbolTable, SymbolType};
use epievm::assembler::Assembler;
use epievm::vm::VirtualMachine;

#[test]
fn assemble_program() {
    let mut assembler = Assembler::new();
    let test_string = r"
        .data
        .code
        load $0 #100
        load $1 #1
        load $2 #0
        test: inc $0
        neq $0 $2
        jmpe @test
        hlt
        ";
    let program = assembler.assemble(test_string).unwrap();
    let mut vm = VirtualMachine::new();
    assert_eq!(program.len(), 96);
    vm.add_bytes(program);
    assert_eq!(vm.program.len(), 96);
}

#[test]
/// Tests that we can add things to the symbol table
fn test_symbol_table() {
    let mut sym = SymbolTable::new();
    let new_symbol = Symbol::new_with_offset(b"test".to_vec(), SymbolType::Label, 12);
    sym.add_symbol(new_symbol);
    assert_eq!(sym.symbols.len(), 1);
    let v = sym.symbol_value(b"test");
    assert_eq!(true, v.is_some());
    let v = v.unwrap();
    assert_eq!(v, 12);
    let v = sym.symbol_value(b"does_not_exist");
    assert_eq!(v.is_some(), false);
}

#[test]
/// Simple test of data that goes into the read only section
fn test_ro_data_asciiz() {
    let mut assembler = Assembler::new();
    let test_string = r"
        .data
        test: .asciiz 'This is a test'
        .code
        ";
    let program = assembler.assemble(test_string);
    assert_eq!(program.is_ok(), true);
}

#[test]
/// Simple test of data that goes into the read only section
fn test_code_start_offset_written() {
    let mut assembler = Assembler::new();
    let test_string = r"
        .data
        test1: .asciiz 'Hello'
        .code
        load $0 #100
        load $1 #1
        load $2 #0
        test: inc $0
        neq $0 $2
        jmpe @test
        hlt
        ";
    let program = assembler.assemble(test_string);
    assert_eq!(program.is_ok(), true);
    let unwrapped = program.unwrap();
    assert_eq!(unwrapped[64], 6);
}

#[test]
/// Simple test of data that goes into the read only section
fn test_ro_data_i32() {
    let mut assembler = Assembler::new();
    let test_string = r"
        .data
        test: .integer #300
        .code
        ";
    let program = assembler.assemble(test_string);
    assert_eq!(program.is_ok(), true);
}

#[test]
/// This tests that a section name that isn't `code` or `data` throws an error
fn test_bad_ro_data() {
    let mut assembler = Assembler::new();
    let test_string = r"
        .code
        test: .asciiz 'This is a test'
        .wrong
        ";
    let program = assembler.assemble(test_string);
    assert_eq!(program.is_ok(), false);
}

#[test]
/// Tests that code which does not declare a segment first does not work
fn test_first_phase_no_segment() {
    let mut assembler = Assembler::new();
    let test_string = "hello: .asciiz 'Fail'";
    let result = program(test_string.as_bytes());
    assert_eq!(result.is_ok(), true);
    let mut p = result.unwrap();
    assembler.process_first_phase(&mut p);
    assert_eq!(assembler.errors.len(), 1);
}

#[test]
/// Tests that code inside a proper segment works
fn test_first_phase_inside_segment() {
    let mut assembler = Assembler::new();
    let test_string = r"
        .data
        test: .asciiz 'Hello'
        ";
    let result = program(test_string.as_bytes());
    assert_eq!(result.is_ok(), true);
    let mut p = result.unwrap();
    assembler.process_first_phase(&mut p);
    assert_eq!(assembler.errors.len(), 0);
}

#[test]
fn symbol_table() {
    let mut sym = SymbolTable::new();
    let new_symbol = Symbol::new_with_offset(b"test".to_vec(), SymbolType::Label, 12);
    sym.add_symbol(new_symbol);
    assert_eq!(sym.symbols.len(), 1);
    let v = sym.symbol_value(b"test");
    assert_eq!(true, v.is_some());
    let v = v.unwrap();
    assert_eq!(v, 12);
    let v = sym.symbol_value(b"does_not_exist");
    assert_eq!(v.is_some(), false);
}
