use rlox::pratt::{can_parse, expr, try_expr_bp, Lexer, Token, S};

#[test]
fn expr_work() {
    let s = expr("1");
    assert_eq!(s.to_string(), "1");
}

#[test]
fn expr_work1() {
    let s = expr("1 + 2 * 3");
    assert_eq!(s.to_string(), "(+ 1 (* 2 3))");
}

#[test]
fn expr_work2() {
    let s = expr("a + b * c * d + e");
    assert_eq!(s.to_string(), "(+ (+ a (* (* b c) d)) e)");
}

#[test]
fn prefix_work() {
    let s = expr("--1 * 2");
    assert_eq!(s.to_string(), "(* (- (- 1)) 2)");

    let s = expr("--f . g");
    assert_eq!(s.to_string(), "(- (- (. f g)))");

    let s = expr("--1 * -2");
    assert_eq!(s.to_string(), "(* (- (- 1)) (- 2))");
}

#[test]
fn postfix_work() {
    let s = expr("-9!");
    assert_eq!(s.to_string(), "(- (! 9))");

    let s = expr("f . g !");
    assert_eq!(s.to_string(), "(! (. f g))");
}

#[test]
fn parens_work() {
    let s = expr("(((0)))");
    assert_eq!(s.to_string(), "0");
}

#[test]
fn idx_work() {
    let s = expr("x[0][1]");
    assert_eq!(s.to_string(), "([ ([ x 0) 1)");
}

#[test]
fn tri_work() {
    let s = expr(
        "a ? b :
         c ? d
         : e",
    );
    assert_eq!(s.to_string(), "(? a b (? c d e))");
    let s = expr("a = 0 ? b : c = d");
    assert_eq!(s.to_string(), "(= a (= (? 0 b c) d))");
}

#[test]
fn lexer_skips_whitespace_and_ends_with_eof() {
    let mut lexer = Lexer::new(" a +\t1\n");
    assert_eq!(lexer.peek(), Token::Atom('a'));
    assert_eq!(lexer.next(), Token::Atom('a'));
    assert_eq!(lexer.next(), Token::Op('+'));
    assert_eq!(lexer.next(), Token::Atom('1'));
    assert_eq!(lexer.next(), Token::Eof);
    assert_eq!(lexer.peek(), Token::Eof);
}

#[test]
fn expr_leaves_unmatched_close_paren() {
    let s = expr("1)");
    assert_eq!(s, S::Atom('1'));
}

#[test]
fn assignment_is_right_associative() {
    assert_eq!(expr("a = b = c").to_string(), "(= a (= b c))");
    assert_eq!(expr("a - b - c").to_string(), "(- (- a b) c)");
}

#[test]
fn inputs_the_pratt_parser_cannot_read() {
    assert!(can_parse("a + b * c"));
    assert!(can_parse("x[0][1]"));
    assert!(!can_parse(""));
    assert!(!can_parse("(1 + 2"));
    assert!(!can_parse("a ? b"));
    assert!(!can_parse("* 1"));
    assert!(!can_parse("1 2"));
    let mut lexer = Lexer::new("1 + 2 = 3");
    let e = try_expr_bp(&mut lexer, 3).map(|s| s.to_string());
    assert_eq!(e, Some("(+ 1 2)".to_owned()));
    assert!(matches!(lexer.next(), Token::Op('=')));
}
