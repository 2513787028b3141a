use my_iridium::instruction::{Instruction, Opcode};
use my_iridium::parser::{
    parse_directive, parse_directive_decl, parse_instruction, parse_integer_operand,
    parse_irstring, parse_label_decl, parse_label_usage, parse_opcode, parse_program,
    parse_register,
};
use my_iridium::symbols::SymbolTable;
use my_iridium::tokens::{AssemblerInstruction, Token};

#[test]
fn test_parse_register() {
    let res = parse_register("$0", 0);
    assert!(res.is_some());
    let res = parse_register("0", 0);
    assert!(res.is_none());
    let res = parse_register("$a", 0);
    assert!(res.is_none());
}

#[test]
fn test_parse_integer_oprand() {
    let result = parse_integer_operand("#10", 0);
    assert!(result.is_some());
    let (pos, token) = result.unwrap();
    assert_eq!(pos, 3);
    assert_eq!(token, Token::IntegerOperand { value: 10 });

    let result = parse_integer_operand("10", 0);
    assert!(result.is_none());
}

#[test]
fn test_parse_string_operand() {
    let result = parse_irstring("'This is a test'", 0);
    assert!(result.is_some());

    let result = parse_irstring("\"This is a test\"", 0);
    assert!(result.is_none());
}

#[test]
fn test_parse_float_operand() {
    let test = vec!["#100.3", "#-100.3", "#1.0", "#0.0"];
    for i in &test {
        assert!(parse_float(i));
    }
}

fn parse_float(s: &str) -> bool {
    my_iridium::parser::parse_float_operand(s, 0).is_some()
}

#[test]
fn test_parse_label_declaration() {
    let result = parse_label_decl("test:", 0);
    assert!(result.is_some());
    let (_, token) = result.unwrap();
    assert_eq!(token, Token::LabelDeclaration { name: "test".to_string() });
    let result = parse_label_decl("test", 0);
    assert!(result.is_none());
}

#[test]
fn test_parse_label_usage() {
    let result = parse_label_usage("@test", 0);
    assert!(result.is_some());
    let (_, token) = result.unwrap();
    assert_eq!(token, Token::LabelUsage { name: "test".to_string() });
    let result = parse_label_usage("test", 0);
    assert!(result.is_none());
}

#[test]
fn test_opcode() {
    let result = parse_opcode("load", 0);
    assert!(result.is_some());
    let (pos, token) = result.unwrap();
    assert_eq!(token, Token::Op { code: Opcode::LOAD });
    assert_eq!(pos, 4);

    let result = parse_opcode("aold", 0);
    let (_, token) = result.unwrap();
    assert_eq!(token, Token::Op { code: Opcode::IGL });
}

#[test]
fn str_to_opcode() {
    let opcode = Opcode::from_mnemonic("load");
    assert_eq!(opcode, Opcode::LOAD);
    let opcode = Opcode::from_mnemonic("illegal");
    assert_eq!(opcode, Opcode::IGL);
}

#[test]
fn create_hlt() {
    let opcode = Opcode::HLT;
    assert_eq!(opcode, Opcode::HLT);
}

#[test]
fn create_instruction() {
    let instr = Instruction::new(Opcode::HLT);
    assert_eq!(instr.opcode, Opcode::HLT);
}

#[test]
fn test_parse_directive_decl() {
    let result = parse_directive_decl(".data", 0);
    assert!(result.is_some());
    let (_, directive) = result.unwrap();
    assert_eq!(directive, Token::Directive { name: "data".to_string() });
}

#[test]
fn test_parse_directive_combined() {
    let directive2 = AssemblerInstruction {
        opcode: None,
        label: Some(Token::LabelDeclaration { name: "test".to_string() }),
        directive: Some(Token::Directive { name: "asciiz".to_string() }),
        operand1: Some(Token::IrString { name: "Hello".to_string() }),
        operand2: None,
        operand3: None,
    };

    let result = parse_directive("test: .asciiz 'Hello'", 0);
    assert!(result.is_some());
    let (_, directive) = result.unwrap();
    assert_eq!(directive, directive2);
}

#[test]
fn test_parse_instruction_form_one() {
    let result = parse_instruction("load $0 #100\n", 0);
    assert_eq!(
        result,
        Some((
            13,
            AssemblerInstruction {
                opcode: Some(Token::Op { code: Opcode::LOAD }),
                label: None,
                directive: None,
                operand1: Some(Token::Register { reg_num: 0 }),
                operand2: Some(Token::IntegerOperand { value: 100 }),
                operand3: None,
            }
        ))
    );
}

#[test]
fn test_parse_instruction_form_one_with_label() {
    let result = parse_instruction("load $0 @test1\n", 0);
    assert_eq!(
        result,
        Some((
            15,
            AssemblerInstruction {
                opcode: Some(Token::Op { code: Opcode::LOAD }),
                label: None,
                directive: None,
                operand1: Some(Token::Register { reg_num: 0 }),
                operand2: Some(Token::LabelUsage { name: "test1".to_string() }),
                operand3: None,
            }
        ))
    );
}

#[test]
fn test_parse_instruction_form_two() {
    let result = parse_instruction("hlt", 0);
    assert_eq!(
        result,
        Some((
            3,
            AssemblerInstruction {
                opcode: Some(Token::Op { code: Opcode::HLT }),
                label: None,
                directive: None,
                operand1: None,
                operand2: None,
                operand3: None,
            }
        ))
    );
}

#[test]
fn test_parse_instruction_form_three() {
    let result = parse_instruction("add $0 $1 $2\n", 0);
    assert_eq!(
        result,
        Some((
            13,
            AssemblerInstruction {
                opcode: Some(Token::Op { code: Opcode::ADD }),
                label: None,
                directive: None,
                operand1: Some(Token::Register { reg_num: 0 }),
                operand2: Some(Token::Register { reg_num: 1 }),
                operand3: Some(Token::Register { reg_num: 2 }),
            }
        ))
    );
}

#[test]
fn test_parse_program() {
    let result = parse_program("load $0 #100\n");
    assert!(result.is_ok());
    let (leftover, p) = result.unwrap();
    assert_eq!(leftover, "");
    assert_eq!(1, p.instructions.len());
}

#[test]
fn test_program_to_bytes() {
    let result = parse_program("load $0 #100\n");
    assert!(result.is_ok());
    let (_, p) = result.unwrap();
    let symbols = SymbolTable::new();
    let bytecode = p.to_bytes(&symbols);
    assert_eq!(bytecode.len(), 4);
}

#[test]
fn test_complete_program() {
    let program = r"
        .data
        hello: .asciiz 'Hello everyone!'
        .code
        hlt";
    let result = parse_program(program);
    assert!(result.is_ok());
    let (rest, _) = result.unwrap();
    assert_eq!(rest, "");
}

#[test]
fn test_float_before_integer() {
    let (_, token) = my_iridium::parser::parse_operand("#5.0", 0).unwrap();
    assert_eq!(token, Token::FloatOperand { neg: false, whole: 5, frac: 0, frac_len: 1 });
    let (_, token) = my_iridium::parser::parse_operand("#5", 0).unwrap();
    assert_eq!(token, Token::IntegerOperand { value: 5 });
}

#[test]
fn test_integer_overflow_is_rejected() {
    assert!(parse_integer_operand("#99999999999", 0).is_none());
}
