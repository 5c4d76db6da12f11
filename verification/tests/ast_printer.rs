use std::rc::Rc;

use rlox::{
    ast_printer::{AstPrinter, Obj},
    expr::{Binary, Exprs, Grouping, Literal, LiteralType, Unary},
    parser::Parser,
    scanner::Scanner,
    stmt::{Expression, Stmts},
    token::{Token, TokenInner},
};

fn print_source(text: &str) -> String {
    let source = Rc::new(text.to_owned());
    let mut scan = Scanner::new(&source);
    let tks = scan.scan_tokens();
    let (stmts, had_err) = Parser::new(tks).parse();
    assert!(!had_err);
    AstPrinter.print(&stmts)
}

#[test]
fn tests_print_test() {
    let source = Rc::new("-123 * 45.67;".to_owned());
    let expression: Exprs = Exprs::Binary(Binary::new(
        Exprs::Unary(Unary::new(
            Token::Minus {
                inner: TokenInner::new_minus(Rc::clone(&source), 0),
            },
            Exprs::Literal(Literal::new(LiteralType::Number("123".to_owned()))),
        )),
        Token::Star {
            inner: TokenInner::new_star(Rc::clone(&source), 5),
        },
        Exprs::Grouping(Grouping::new(Exprs::Literal(Literal::new(LiteralType::Number(
            "45.67".to_owned(),
        ))))),
    ));
    let stmt = Stmts::Expression(Expression::new(expression));
    let mut asp = AstPrinter;
    let res = asp.print(&[stmt]);
    assert_eq!("(; (* (- 123) (group 45.67)))", res);
}

#[test]
fn mod_print_test() {
    let source = Rc::new(String::new());
    let expression: Exprs = Exprs::Binary(Binary::new(
        Exprs::Unary(Unary::new(
            Token::Minus {
                inner: TokenInner::from_parts(Rc::clone(&source), '-'.to_string(), 1),
            },
            Exprs::Literal(Literal::new(LiteralType::Number("123".to_owned()))),
        )),
        Token::Star {
            inner: TokenInner::from_parts(Rc::clone(&source), '*'.to_string(), 1),
        },
        Exprs::Grouping(Grouping::new(Exprs::Literal(Literal::new(LiteralType::Number(
            "45.67".to_owned(),
        ))))),
    ));
    let mut asp = AstPrinter;
    let res = asp.print_expr(&expression);
    assert_eq!("(* (- 123) (group 45.67))", res);
}

#[test]
fn prints_statements_one_after_another() {
    assert_eq!(print_source("print 1; print true;"), "(print 1)(print true)");
}

#[test]
fn prints_declarations() {
    assert_eq!(print_source("var a = nil;"), "(vara=nil)");
    assert_eq!(print_source("{ a = 1; }"), "(block (; (=a1)))");
    assert_eq!(print_source("if (a) print a; else print b;"), "(if-elsea(print a)(print b))");
    assert_eq!(print_source("while (a) break;"), "(whileabreak)");
    assert_eq!(print_source("fun f(x, y) { return x; }"), "(fun f (x y)");
    assert_eq!(print_source("class A < B { fun m() {} }"), "(class A < B (fun m ())");
    assert_eq!(print_source("fun g() { return; }"), "(fun g ()");
}

#[test]
fn prints_expressions() {
    assert_eq!(print_source("f(1, \"s\").x = this;"), "(; (=(callf1s)xthis))");
    assert_eq!(print_source("a or !b and c;"), "(; (or a (and (! b) c)))");
    assert_eq!(print_source("super.m;"), "(; (superm))");
}

#[test]
fn parenthesize_parts() {
    let source = Rc::new("x".to_owned());
    let tk = Token::Identifier {
        inner: TokenInner::new(Rc::clone(&source), 1, 0),
    };
    let lit = Exprs::Literal(Literal::new(LiteralType::Bool(false)));
    let parts = vec![
        Obj::Token(&tk),
        Obj::List(vec![Obj::Str(" = "), Obj::Expr(&lit)]),
    ];
    assert_eq!(AstPrinter.parenthesize2("set", &parts), "(setx = false)");
}

#[test]
fn numbers_print_as_their_values() {
    assert_eq!(print_source("print 1.50;"), "(print 1.5)");
    assert_eq!(print_source("print 007;"), "(print 7)");
    assert_eq!(print_source("print 2.0;"), "(print 2)");
    assert_eq!(print_source("print 0.250;"), "(print 0.25)");
    assert_eq!(print_source("print 00.0;"), "(print 0)");
    assert_eq!(print_source("print 120;"), "(print 120)");
}
