use my_iridium::assembler::{Assembler, AssemblerError};
use my_iridium::parser::parse_program;
use my_iridium::symbols::{Symbol, SymbolTable, SymbolType};
use my_iridium::vm::VM;

#[test]
fn test_assemble_program() {
    let mut assembler = Assembler::new();
    let test_string = r"
        .data
        .code
        load $0 #100
        load $1 #1
        load $2 #0
        test: inc $0
        neq $0 $2
        jmpe @test
        hlt
        ";
    let program = assembler.assemble(test_string).unwrap();
    let mut vm = VM::new();
    assert_eq!(program.len(), 92);
    vm.add_bytes(program);
    assert_eq!(vm.program.len(), 92);
}

#[test]
fn test_code_start_offset_written() {
    let mut assembler = Assembler::new();
    let test_string = r"
        .data
        test1: .asciiz 'Hello'
        .code
        load $0 #100
        load $1 #1
        load $2 #0
        test: inc $0
        neq $0 $2
        jmpe @test
        hlt
        ";
    let program = assembler.assemble(test_string);
    assert!(program.is_ok());
    let unwrapped = program.unwrap();
    assert_eq!(unwrapped[4], 6);
}

#[test]
fn mod_test_symbol_table() {
    let mut sym = SymbolTable::new();
    let new_symbol = Symbol::new_with_offset("test".to_string(), SymbolType::Label, 12);
    sym.add_symbol(new_symbol);
    assert_eq!(sym.symbols.len(), 1);
    let v = sym.symbol_value("test");
    assert!(v.is_some());
    let v = v.unwrap();
    assert_eq!(v, 12);
    let v = sym.symbol_value("does_not_exist");
    assert!(v.is_none());
}

#[test]
fn symbols_test_symbol_table() {
    let mut sym = SymbolTable::new();
    let new_symbol = Symbol::new_with_offset("test".to_string(), SymbolType::Label, 12);
    sym.add_symbol(new_symbol);
    assert_eq!(sym.symbols.len(), 1);
    let v = sym.symbol_value("test");
    assert!(v.is_some());
    let v = v.unwrap();
    assert_eq!(v, 12);
    let v = sym.symbol_value("does_not_exist");
    assert!(v.is_none());
}

#[test]
fn test_ro_data() {
    let mut assembler = Assembler::new();
    let test_string = r"
        .data
        test: .asciiz 'This is a test'
        .code
        ";
    let program = assembler.assemble(test_string);
    assert!(program.is_ok());
}

#[test]
fn test_bad_ro_data() {
    let mut assembler = Assembler::new();
    let test_string = r"
        .code
        test: .asciiz 'This is a test'
        .wrong
        ";
    let program = assembler.assemble(test_string);
    assert!(program.is_err());
}

#[test]
fn test_first_phase_no_segment() {
    let mut assembler = Assembler::new();
    let test_string = "hello: .asciiz 'Fail'";
    let result = parse_program(test_string);
    assert!(result.is_ok());
    let (_, p) = result.unwrap();
    assembler.process_first_phase(&p);
    assert_eq!(assembler.errors.len(), 1);
}

#[test]
fn test_first_phase_inside_segment() {
    let mut assembler = Assembler::new();
    let test_string = r"
        .data
        test: .asciiz 'Hello'
        ";
    let result = parse_program(test_string);
    assert!(result.is_ok());
    let (_, p) = result.unwrap();
    assembler.process_first_phase(&p);
    assert_eq!(assembler.errors.len(), 0);
}

#[test]
fn test_missing_section_error() {
    let mut assembler = Assembler::new();
    let result = assembler.assemble("hello: .asciiz 'Fail'");
    let errors = result.unwrap_err();
    assert!(errors
        .iter()
        .any(|e| matches!(e, AssemblerError::NoSegmentDeclarationFound { .. })));
}

#[test]
fn test_duplicate_label_error() {
    let mut assembler = Assembler::new();
    let result = assembler.assemble(".data\n.code\ntest: hlt\ntest: hlt\n");
    let errors = result.unwrap_err();
    assert!(errors.iter().any(|e| matches!(e, AssemblerError::SymbolAlreadyDeclared)));
}

#[test]
fn test_unknown_directive_error() {
    let mut assembler = Assembler::new();
    let result = assembler.assemble(".data\nlbl: .wrongdir 'x'\n.code\nhlt\n");
    let errors = result.unwrap_err();
    assert!(errors
        .iter()
        .any(|e| matches!(e, AssemblerError::UnknownDirectiveFound { .. })));
}

#[test]
fn test_insufficient_sections_error() {
    let mut assembler = Assembler::new();
    let result = assembler.assemble(".data\nhlt\n");
    let errors = result.unwrap_err();
    assert!(errors.iter().any(|e| matches!(e, AssemblerError::InsufficientSections)));
}

#[test]
fn test_parse_error_reported() {
    let mut assembler = Assembler::new();
    let result = assembler.assemble("???");
    let errors = result.unwrap_err();
    assert!(errors.iter().any(|e| matches!(e, AssemblerError::ParseError { .. })));
}

#[test]
fn test_empty_sections_assemble_to_bare_header() {
    let mut assembler = Assembler::new();
    let image = assembler.assemble(".data\n.code\n").unwrap();
    assert_eq!(image.len(), 64);
    assert_eq!(&image[4..8], &[0, 0, 0, 0]);
}

#[test]
fn test_load_immediate_encoding() {
    let mut assembler = Assembler::new();
    let image = assembler.assemble(".data\n.code\nload $0 #500\n").unwrap();
    assert_eq!(&image[64..68], &[0x00, 0x00, 0x01, 0xF4]);
}

#[test]
fn test_assemble_is_deterministic() {
    let source = r"
        .data
        greet: .asciiz 'Hello'
        .code
        load $0 #500
        prts @greet
        hlt
        ";
    let mut asm1 = Assembler::new();
    let mut asm2 = Assembler::new();
    let image1 = asm1.assemble(source).unwrap();
    let image2 = asm2.assemble(source).unwrap();
    assert_eq!(image1, image2);
}

#[test]
fn test_image_magic_and_ro_layout() {
    let mut assembler = Assembler::new();
    let image = assembler.assemble(".data\ngreet: .asciiz 'Hello'\n.code\nprts @greet\nhlt\n").unwrap();
    assert_eq!(&image[0..4], &[0x45, 0x50, 0x49, 0x45]);
    assert_eq!(image[4], 6);
    assert_eq!(&image[64..70], &[72, 101, 108, 108, 111, 0]);
    assert_eq!(image.len(), 64 + 6 + 8);
}

#[test]
fn test_asciiz_label_resolves_to_ro_offset() {
    let mut assembler = Assembler::new();
    let image = assembler
        .assemble(".data\na: .asciiz 'Hi'\nb: .asciiz 'Yo'\n.code\nprts @b\nhlt\n")
        .unwrap();
    assert_eq!(&image[64..70], &[b'H', b'i', 0, b'Y', b'o', 0]);
    assert_eq!(assembler.symbols.symbol_value("a"), Some(0));
    assert_eq!(assembler.symbols.symbol_value("b"), Some(3));
    assert_eq!(&image[70..74], &[21, 0, 3, 0]);
}

#[test]
fn test_string_constant_without_label_error() {
    let mut assembler = Assembler::new();
    let result = assembler.assemble(".data\n.asciiz 'orphan'\n.code\nhlt\n");
    let errors = result.unwrap_err();
    assert!(errors
        .iter()
        .any(|e| matches!(e, AssemblerError::StringConstantDeclaredWithoutLabel { .. })));
}
