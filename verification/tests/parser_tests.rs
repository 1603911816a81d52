use epievm::assembler::instruction::AssemblerInstruction;
use epievm::assembler::parser::{directive_declaration, instruction, integer_operand, irstring, program};
use epievm::assembler::symbols::SymbolTable;
use epievm::assembler::Token;
use epievm::opcode::Opcode;

#[test]
fn parser_directive() {
    let result = directive_declaration(b".data", 0);
    assert_eq!(result.is_some(), true);
    let (directive, _) = result.unwrap();
    assert_eq!(directive, Token::Directive { name: b"data".to_vec() });
}

#[test]
fn string_directive() {
    let result = instruction(b"test: .asciiz 'Hello'", 0);
    assert_eq!(result.is_some(), true);
    let (directive, _) = result.unwrap();
    let correct_instruction = AssemblerInstruction {
        opcode: None,
        label: Some(Token::LabelDeclaration { name: b"test".to_vec() }),
        directive: Some(Token::Directive { name: b"asciiz".to_vec() }),
        operand_one: Some(Token::IrString { name: b"Hello".to_vec() }),
        operand_two: None,
        operand_three: None,
    };
    assert_eq!(directive, correct_instruction);
}

#[test]
fn parse_instruction_form_one() {
    let result = instruction(b"load $0 #100\n", 0);
    assert_eq!(
        result,
        Some((
            AssemblerInstruction {
                label: None,
                directive: None,
                opcode: Some(Token::Op { code: Opcode::LOAD }),
                operand_one: Some(Token::Register { reg_num: 0 }),
                operand_two: Some(Token::IntegerOperand { value: 100 }),
                operand_three: None
            },
            12
        ))
    )
}

#[test]
fn parse_instruction_form_two() {
    let result = instruction(b"hlt\n", 0);
    assert_eq!(
        result,
        Some((
            AssemblerInstruction {
                label: None,
                directive: None,
                opcode: Some(Token::Op { code: Opcode::HLT }),
                operand_one: None,
                operand_two: None,
                operand_three: None
            },
            3
        ))
    );
}

#[test]
fn parse_instruction_form_three() {
    let result = instruction(b"add $0 $1 $2\n", 0);
    assert_eq!(
        result,
        Some((
            AssemblerInstruction {
                label: None,
                directive: None,
                opcode: Some(Token::Op { code: Opcode::ADD }),
                operand_one: Some(Token::Register { reg_num: 0 }),
                operand_two: Some(Token::Register { reg_num: 1 }),
                operand_three: Some(Token::Register { reg_num: 2 })
            },
            12
        ))
    )
}

#[test]
fn parse_integer_operand() {
    let result = integer_operand(b"#10", 0);
    assert_eq!(result.is_some(), true);
    let (value, rest) = result.unwrap();
    assert_eq!(rest, 3);
    assert_eq!(value, Token::IntegerOperand { value: 10 });

    // Test an invalid one (missing the #)
    let result = integer_operand(b"10", 0);
    assert_eq!(result.is_some(), false);
}

#[test]
fn parse_string_operand() {
    let result = irstring(b"'This is a test'", 0);
    assert_eq!(result.is_some(), true);
}

#[test]
fn parse_program() {
    let result = program(b"load $0 #100\n");
    assert_eq!(result.is_ok(), true);
    let p = result.unwrap();
    assert_eq!(1, p.instructions.len());
}

#[test]
fn test_program_to_bytes() {
    let result = program(b"load $0 #100\n");
    assert_eq!(result.is_ok(), true);
    let p = result.unwrap();
    let symbols = SymbolTable::new();
    let bytecode = p.to_bytes(&symbols).unwrap();
    assert_eq!(bytecode.len(), 4);
    println!("{:?}", bytecode);
}
