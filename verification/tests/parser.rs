use std::rc::Rc;

use rlox::{
    expr::{Assign, Binary, Call, Exprs, Get, Literal, LiteralType, Logical, Unary, Variable},
    parser::{FunctionKind, Parser, ParserError},
    scanner::Scanner,
    stmt::{Block, Break, Expression, Print, Stmts, Var, While},
    token::{Token, TokenInner},
};

fn src(text: &str) -> Rc<String> {
    Rc::new(text.to_owned())
}

fn number(text: &str) -> Exprs {
    Exprs::Literal(Literal::new(LiteralType::Number(text.to_owned())))
}

fn parse(text: &str) -> (Vec<Stmts>, bool) {
    let source = src(text);
    let mut scan = Scanner::new(&source);
    let tks = scan.scan_tokens();
    let mut p = Parser::new(tks);
    p.parse()
}

#[test]
fn tests_test_equal() {
    let source = src("var a = 1==1;");
    let mut scan = Scanner::new(&source);
    let tks = scan.scan_tokens();

    let right = vec![Stmts::Var(Var::new(
        Token::Identifier {
            inner: TokenInner::new(Rc::clone(&source), "a".len(), 4),
        },
        Some(Exprs::Binary(Binary::new(
            number("1"),
            Token::EqualEqual {
                inner: TokenInner::new(Rc::clone(&source), "==".len(), 9),
            },
            number("1"),
        ))),
    ))];

    let mut p = Parser::new(tks);
    let (stmts, _) = p.parse();
    assert_eq!(right, stmts);
}

#[test]
fn tests_test_precedence() {
    let source = src("print 6/3+16/2;");

    let mut scan = Scanner::new(&source);
    let tks = scan.scan_tokens();

    let right = vec![Stmts::Print(Print::new(Exprs::Binary(Binary::new(
        Exprs::Binary(Binary::new(
            number("6"),
            Token::Slash {
                inner: TokenInner::new_slash(Rc::clone(&source), 7),
            },
            number("3"),
        )),
        Token::Plus {
            inner: TokenInner::new_plus(Rc::clone(&source), 9),
        },
        Exprs::Binary(Binary::new(
            number("16"),
            Token::Slash {
                inner: TokenInner::new_slash(Rc::clone(&source), 12),
            },
            number("2"),
        )),
    ))))];
    let mut p = Parser::new(tks);
    let (stmts, _) = p.parse();
    assert_eq!(right, stmts);

    let source = src("print 6/3-16*2;");

    let mut scan = Scanner::new(&source);
    let tks = scan.scan_tokens();

    let right = vec![Stmts::Print(Print::new(Exprs::Binary(Binary::new(
        Exprs::Binary(Binary::new(
            number("6"),
            Token::Slash {
                inner: TokenInner::new_slash(Rc::clone(&source), 7),
            },
            number("3"),
        )),
        Token::Minus {
            inner: TokenInner::new_minus(Rc::clone(&source), 9),
        },
        Exprs::Binary(Binary::new(
            number("16"),
            Token::Star {
                inner: TokenInner::new_star(Rc::clone(&source), 12),
            },
            number("2"),
        )),
    ))))];

    let mut p = Parser::new(tks);
    let (stmts, _) = p.parse();
    assert_eq!(right, stmts);

    let source = src("print 6/3-16*-2;");
    let right = vec![Stmts::Print(Print::new(Exprs::Binary(Binary::new(
        Exprs::Binary(Binary::new(
            number("6"),
            Token::Slash {
                inner: TokenInner::new_slash(Rc::clone(&source), 7),
            },
            number("3"),
        )),
        Token::Minus {
            inner: TokenInner::new_minus(Rc::clone(&source), 9),
        },
        Exprs::Binary(Binary::new(
            number("16"),
            Token::Star {
                inner: TokenInner::new_star(Rc::clone(&source), 12),
            },
            Exprs::Unary(Unary::new(
                Token::Minus {
                    inner: TokenInner::new_minus(Rc::clone(&source), 13),
                },
                number("2"),
            )),
        )),
    ))))];

    let mut scan = Scanner::new(&source);
    let tks = scan.scan_tokens();

    let mut p = Parser::new(tks);
    let (exprs, _) = p.parse();
    assert_eq!(right, exprs);
}

#[test]
fn tests_test_plus_minus_multi_div() {
    // plus
    let source = src("var a=1+1;");

    let mut scan = Scanner::new(&source);
    let tks = scan.scan_tokens();

    let right = vec![Stmts::Var(Var::new(
        Token::Identifier {
            inner: TokenInner::new(Rc::clone(&source), "a".len(), 4),
        },
        Some(Exprs::Binary(Binary::new(
            number("1"),
            Token::Plus {
                inner: TokenInner::new_plus(Rc::clone(&source), 7),
            },
            number("1"),
        ))),
    ))];

    let mut p = Parser::new(tks);
    let (exprs, _) = p.parse();
    assert_eq!(right, exprs);

    // plus strings
    let source = src(r#"var a="ab"+"cd";"#);

    let mut scan = Scanner::new(&source);
    let tks = scan.scan_tokens();

    let right = vec![Stmts::Var(Var::new(
        Token::Identifier {
            inner: TokenInner::new(Rc::clone(&source), "a".len(), 4),
        },
        Some(Exprs::Binary(Binary::new(
            Exprs::Literal(Literal::new(LiteralType::String("ab".to_owned()))),
            Token::Plus {
                inner: TokenInner::new_plus(Rc::clone(&source), 10),
            },
            Exprs::Literal(Literal::new(LiteralType::String("cd".to_owned()))),
        ))),
    ))];

    let mut p = Parser::new(tks);
    let (stmts, _) = p.parse();
    assert_eq!(right, stmts);

    // minus
    let source = src("var a=1-1;");

    let mut scan = Scanner::new(&source);
    let tks = scan.scan_tokens();

    let right = vec![Stmts::Var(Var::new(
        Token::Identifier {
            inner: TokenInner::new(Rc::clone(&source), "a".len(), 4),
        },
        Some(Exprs::Binary(Binary::new(
            number("1"),
            Token::Minus {
                inner: TokenInner::new_minus(Rc::clone(&source), 7),
            },
            number("1"),
        ))),
    ))];

    let mut p = Parser::new(tks);
    let (stmts, _) = p.parse();
    assert_eq!(right, stmts);

    // multiplication
    let source = src("var a=1*1;");

    let mut scan = Scanner::new(&source);
    let tks = scan.scan_tokens();

    let right = vec![Stmts::Var(Var::new(
        Token::Identifier {
            inner: TokenInner::new(Rc::clone(&source), "a".len(), 4),
        },
        Some(Exprs::Binary(Binary::new(
            number("1"),
            Token::Star {
                inner: TokenInner::new_star(Rc::clone(&source), 7),
            },
            number("1"),
        ))),
    ))];

    let mut p = Parser::new(tks);
    let (stmts, _) = p.parse();
    assert_eq!(right, stmts);

    // div
    let source = src("var a=1/1;");

    let mut scan = Scanner::new(&source);
    let tks = scan.scan_tokens();

    let right = vec![Stmts::Var(Var::new(
        Token::Identifier {
            inner: TokenInner::new(Rc::clone(&source), "a".len(), 4),
        },
        Some(Exprs::Binary(Binary::new(
            number("1"),
            Token::Slash {
                inner: TokenInner::new_slash(Rc::clone(&source), 7),
            },
            number("1"),
        ))),
    ))];

    let mut p = Parser::new(tks);
    let (stmts, _) = p.parse();
    assert_eq!(right, stmts);
}

#[test]
fn tests_test_paren() {
    let source = src("(");

    let tks = vec![Token::LeftParen {
        inner: TokenInner::new(Rc::clone(&source), "(".len(), 0),
    }];

    let mut p = Parser::new(tks);
    let (_, had_err) = p.parse();
    assert!(had_err);
}

#[test]
fn var_without_initializer_is_nil() {
    let source = src("var a;");
    let (stmts, had_err) = parse("var a;");
    assert!(!had_err);
    assert_eq!(
        stmts,
        vec![Stmts::Var(Var::new(
            Token::Identifier {
                inner: TokenInner::new(Rc::clone(&source), 1, 4),
            },
            Some(Exprs::Literal(Literal::new(LiteralType::Nil))),
        ))]
    );
}

#[test]
fn break_outside_loop_fails() {
    let (stmts, had_err) = parse("break;");
    assert!(had_err);
    assert!(stmts.is_empty());
}

#[test]
fn break_inside_loop_parses() {
    let source = src("while (true) break;");
    let (stmts, had_err) = parse("while (true) break;");
    assert!(!had_err);
    assert_eq!(
        stmts,
        vec![Stmts::While(While::new(
            Exprs::Literal(Literal::new(LiteralType::Bool(true))),
            Box::new(Stmts::Break(Break::new(Token::Break {
                inner: TokenInner::new(Rc::clone(&source), 5, 13),
            }))),
        ))]
    );
}

#[test]
fn for_loop_becomes_while() {
    let text = "for (var i = 0; i < 3; i = i + 1) print i;";
    let source = src(text);
    let (stmts, had_err) = parse(text);
    assert!(!had_err);
    let ident = |offset: usize| Token::Identifier {
        inner: TokenInner::new(Rc::clone(&source), 1, offset),
    };
    let init = Stmts::Var(Var::new(ident(9), Some(number("0"))));
    let cond = Exprs::Binary(Binary::new(
        Exprs::Variable(Variable::new(ident(16))),
        Token::Less {
            inner: TokenInner::new_less(Rc::clone(&source), 18),
        },
        number("3"),
    ));
    let inc = Exprs::Assign(Assign::new(
        ident(23),
        Exprs::Binary(Binary::new(
            Exprs::Variable(Variable::new(ident(27))),
            Token::Plus {
                inner: TokenInner::new_plus(Rc::clone(&source), 29),
            },
            number("1"),
        )),
    ));
    let body = Stmts::Print(Print::new(Exprs::Variable(Variable::new(ident(40)))));
    let expected = Stmts::Block(Block::new(vec![
        init,
        Stmts::While(While::new(
            cond,
            Box::new(Stmts::Block(Block::new(vec![
                body,
                Stmts::Expression(Expression::new(inc)),
            ]))),
        )),
    ]));
    assert_eq!(stmts, vec![expected]);
}

#[test]
fn for_with_empty_clauses_loops_on_true() {
    let text = "for (;;) print 1;";
    let (stmts, had_err) = parse(text);
    assert!(!had_err);
    let expected = Stmts::While(While::new(
        Exprs::Literal(Literal::new(LiteralType::Bool(true))),
        Box::new(Stmts::Print(Print::new(number("1")))),
    ));
    assert_eq!(stmts, vec![expected]);
}

#[test]
fn for_with_empty_initializer_keeps_its_condition() {
    let text = "for (; i < 3;) print i;";
    let source = src(text);
    let (stmts, had_err) = parse(text);
    assert!(!had_err);
    let ident = |offset: usize| Token::Identifier {
        inner: TokenInner::new(Rc::clone(&source), 1, offset),
    };
    let cond = Exprs::Binary(Binary::new(
        Exprs::Variable(Variable::new(ident(7))),
        Token::Less {
            inner: TokenInner::new_less(Rc::clone(&source), 9),
        },
        number("3"),
    ));
    let body = Stmts::Print(Print::new(Exprs::Variable(Variable::new(ident(21)))));
    assert_eq!(stmts, vec![Stmts::While(While::new(cond, Box::new(body)))]);
}

#[test]
fn and_groups_to_the_left() {
    let text = "a and b and c;";
    let source = src(text);
    let (stmts, had_err) = parse(text);
    assert!(!had_err);
    let var = |offset: usize| {
        Exprs::Variable(Variable::new(Token::Identifier {
            inner: TokenInner::new(Rc::clone(&source), 1, offset),
        }))
    };
    let and_at = |offset: usize| Token::And {
        inner: TokenInner::new(Rc::clone(&source), 3, offset),
    };
    let inner = Exprs::Logical(Logical::new(var(0), and_at(2), var(6)));
    let outer = Exprs::Logical(Logical::new(inner, and_at(8), var(12)));
    assert_eq!(stmts, vec![Stmts::Expression(Expression::new(outer))]);
}

#[test]
fn call_arguments_need_commas() {
    let (stmts, had_err) = parse("f(1 2);");
    assert!(had_err);
    assert!(stmts.is_empty());
    let (stmts, had_err) = parse("f();");
    assert!(!had_err);
    match &stmts[0] {
        Stmts::Expression(e) => match &e.expr {
            Exprs::Call(c) => assert!(c.arguments.is_empty()),
            _ => panic!("expected a call"),
        },
        _ => panic!("expected an expression statement"),
    }
}

#[test]
fn recovery_goes_on_after_error() {
    let (stmts, had_err) = parse("1 + ; ; print 2;");
    assert!(had_err);
    assert_eq!(stmts.len(), 1);
    assert!(matches!(stmts[0], Stmts::Print(_)));
}

#[test]
fn invalid_assignment_target() {
    let (stmts, had_err) = parse("1 = 2;");
    assert!(had_err);
    assert!(stmts.is_empty());
}

#[test]
fn calls_and_properties() {
    let text = "a.b(1, 2) and c or d;";
    let source = src(text);
    let (stmts, had_err) = parse(text);
    assert!(!had_err);
    let ident = |offset: usize| Token::Identifier {
        inner: TokenInner::new(Rc::clone(&source), 1, offset),
    };
    let call = Exprs::Call(Call::new(
        Exprs::Get(Get::new(Exprs::Variable(Variable::new(ident(0))), ident(2))),
        Token::LeftParen {
            inner: TokenInner::new_left_paren(Rc::clone(&source), 3),
        },
        vec![number("1"), number("2")],
    ));
    let and = Exprs::Logical(Logical::new(
        call,
        Token::And {
            inner: TokenInner::new(Rc::clone(&source), 3, 10),
        },
        Exprs::Variable(Variable::new(ident(14))),
    ));
    let or = Exprs::Logical(Logical::new(
        and,
        Token::Or {
            inner: TokenInner::new(Rc::clone(&source), 2, 16),
        },
        Exprs::Variable(Variable::new(ident(19))),
    ));
    assert_eq!(stmts, vec![Stmts::Expression(Expression::new(or))]);
}

#[test]
fn functions_and_classes() {
    let (stmts, had_err) = parse("fun f(a, b) { return a; } class C < B { fun m() { print this; } }");
    assert!(!had_err);
    assert_eq!(stmts.len(), 2);
    match &stmts[0] {
        Stmts::Function(f) => {
            assert_eq!(f.name.lexeme(), "f");
            assert_eq!(f.params.len(), 2);
            assert_eq!(f.body.len(), 1);
        },
        _ => panic!("expected a function"),
    }
    match &stmts[1] {
        Stmts::Class(c) => {
            assert_eq!(c.name.lexeme(), "C");
            assert_eq!(c.superclass.as_ref().map(|v| v.name.lexeme()), Some("B"));
            assert_eq!(c.methods.len(), 1);
        },
        _ => panic!("expected a class"),
    }
}

#[test]
fn error_messages() {
    let source = src("x");
    let tk = Token::Identifier {
        inner: TokenInner::new(Rc::clone(&source), 1, 0),
    };
    assert_eq!(
        ParserError::Primary(tk.clone()).to_string(),
        "Invalid Primary: [Line: 1, Column: 1], code: `x`"
    );
    assert_eq!(
        ParserError::CallDecl { tk, kind: FunctionKind::Method }.to_string(),
        "Expect method name: [Line: 1, Column: 1], code: `x`"
    );
    assert_eq!(FunctionKind::Function.to_string(), "function");
}

#[test]
fn inputs_the_parser_cannot_read() {
    let check = |text: &str| {
        let source = src(text);
        let tks = Scanner::new(&source).scan_tokens();
        Parser::new(tks).can_parse()
    };
    assert!(check("class A { fun m() {} }"));
    assert!(!check("class A { m() {} }"));
    assert!(!check("fun f() print 1;"));
    assert!(check("print 1; 1 = 2;"));
}
