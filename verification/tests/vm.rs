use std::rc::Rc;

use rlox::{
    cli,
    expr::LiteralType,
    token::{Token, TokenInner},
    vm::{
        chunk::{Chunk, OpCode},
        cli::Cli,
        rule::{get_rule, ParseFn, Precedence},
    },
};

#[test]
fn opcode_bytes_round_trip() {
    for b in 0..21u8 {
        assert_eq!(OpCode::from_byte(b).to_byte(), b);
    }
    assert_eq!(OpCode::OpReturn.to_byte(), 20);
    assert_eq!(OpCode::OpConstant.to_string(), "OP_CONSTANT");
    assert_eq!(OpCode::OpDefaineGlobal.to_string(), "OP_DEFAINE_GLOBAL");
}

#[test]
fn lines_are_kept_per_byte() {
    let mut chunk = Chunk::new();
    let c = chunk.add_constant(LiteralType::Number("1.2".to_owned()));
    assert_eq!(c, 0);
    chunk.write(OpCode::OpConstant.to_byte(), 123);
    chunk.write(c as u8, 123);
    chunk.write(OpCode::OpNegate.to_byte(), 124);
    chunk.write(OpCode::OpReturn.to_byte(), 123);
    assert_eq!(chunk.count(), 4);
    assert_eq!(chunk.code(), &[0, 0, 18, 20]);
    assert_eq!(chunk.get_line(0), 123);
    assert_eq!(chunk.get_line(1), 123);
    assert_eq!(chunk.get_line(2), 124);
    assert_eq!(chunk.get_line(3), 123);
    assert_eq!(chunk.get_line(4), 0);
}

#[test]
fn identifier_constants() {
    let mut chunk = Chunk::new();
    let i = chunk.add_constant(LiteralType::String("name".to_owned()));
    assert_eq!(chunk.get_ident_string(i), "name");
    assert_eq!(chunk.constants().len(), 1);
}

#[test]
fn rules_of_tokens() {
    let source = Rc::new("-+".to_owned());
    let minus = Token::Minus {
        inner: TokenInner::new_minus(Rc::clone(&source), 0),
    };
    let plus = Token::Plus {
        inner: TokenInner::new_plus(Rc::clone(&source), 1),
    };
    let rule = get_rule(&minus);
    assert_eq!(rule.prefix, Some(ParseFn::Unary));
    assert_eq!(rule.infix, Some(ParseFn::Binary));
    assert_eq!(rule.precedence, Precedence::Term);
    let rule = get_rule(&plus);
    assert_eq!(rule.prefix, None);
    assert_eq!(rule.precedence.next(), Precedence::Factor);
    assert_eq!(Precedence::from_byte(Precedence::Call.to_byte()), Precedence::Call);
}

#[test]
fn command_lines() {
    let c = Cli {
        file_path: Some("a.lox".to_owned()),
        repl: false,
    };
    assert!(!c.repl());
    assert_eq!(c.file_path().map(|s| s.as_str()), Some("a.lox"));
    let c = cli::Cli {
        file_path: None,
        prompt: true,
    };
    assert!(c.prompt());
}

#[test]
fn disassembly_lists_each_instruction() {
    let mut chunk = Chunk::new();
    let c = chunk.add_constant(LiteralType::Number("1.2".to_owned()));
    chunk.write(OpCode::OpConstant.to_byte(), 123);
    chunk.write(c as u8, 123);
    chunk.write(OpCode::OpReturn.to_byte(), 123);
    chunk.write(OpCode::OpNegate.to_byte(), 124);
    let (first, next) = chunk.disassemble_instruction(0);
    assert_eq!(first, "0000 0123 OP_CONSTANT         0 '1.2\n");
    assert_eq!(next, 2);
    let (second, next) = chunk.disassemble_instruction(2);
    assert_eq!(second, "0002    | OP_RETURN\n");
    assert_eq!(next, 3);
    assert_eq!(
        chunk.disassemble("test chunk"),
        "== test chunk ==\n0000 0123 OP_CONSTANT         0 '1.2\n0002    | OP_RETURN\n0003 0124 OP_NEGATE\n"
    );
}

#[test]
fn disassembly_of_an_empty_chunk_is_its_title() {
    assert_eq!(Chunk::new().disassemble("empty"), "== empty ==\n");
}

#[test]
fn or_and_and_continue_expressions_at_the_logic_levels() {
    let source = Rc::new("or and == < + *".to_owned());
    let tk = |len: usize, offset: usize| TokenInner::new(Rc::clone(&source), len, offset);
    let or = get_rule(&Token::Or { inner: tk(2, 0) });
    assert_eq!(or.prefix, None);
    assert_eq!(or.infix, Some(ParseFn::Or));
    assert_eq!(or.precedence, Precedence::Or);
    let and = get_rule(&Token::And { inner: tk(3, 3) });
    assert_eq!(and.infix, Some(ParseFn::And));
    assert_eq!(and.precedence, Precedence::And);
    assert_eq!(get_rule(&Token::EqualEqual { inner: tk(2, 7) }).precedence, Precedence::Equality);
    assert_eq!(get_rule(&Token::Less { inner: tk(1, 10) }).precedence, Precedence::Comparison);
    assert_eq!(get_rule(&Token::Plus { inner: tk(1, 12) }).precedence, Precedence::Term);
    assert_eq!(get_rule(&Token::Star { inner: tk(1, 14) }).precedence, Precedence::Factor);
    assert!(Precedence::Or.to_byte() < Precedence::And.to_byte());
}

#[test]
fn lines_past_the_end_are_zero() {
    let mut chunk = Chunk::new();
    assert_eq!(chunk.get_line(0), 0);
    chunk.write(OpCode::OpNil.to_byte(), 7);
    chunk.write(OpCode::OpReturn.to_byte(), 8);
    assert_eq!(chunk.get_line(0), 7);
    assert_eq!(chunk.get_line(1), 8);
    assert_eq!(chunk.get_line(2), 0);
    assert_eq!(chunk.get_line(100), 0);
}

#[test]
fn disassembly_prints_constants_as_values() {
    let mut chunk = Chunk::new();
    let c = chunk.add_constant(LiteralType::Number("3.40".to_owned()));
    chunk.write(OpCode::OpConstant.to_byte(), 1);
    chunk.write(c as u8, 1);
    let (line, _) = chunk.disassemble_instruction(0);
    assert_eq!(line, "0000 0001 OP_CONSTANT         0 '3.4\n");
}

#[test]
fn chunks_that_cannot_be_listed() {
    let mut chunk = Chunk::new();
    assert!(chunk.readable());
    chunk.write(OpCode::OpConstant.to_byte(), 1);
    assert!(!chunk.readable());
    chunk.write(0, 1);
    assert!(!chunk.readable());
    chunk.add_constant(LiteralType::Nil);
    assert!(chunk.readable());
    chunk.write(200, 2);
    assert!(!chunk.readable());
}
