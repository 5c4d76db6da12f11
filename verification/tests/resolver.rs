use std::rc::Rc;

use rlox::{parser::Parser, resolver::Resolver, scanner::Scanner, stmt::Stmts};

fn parse(text: &str) -> Vec<Stmts> {
    let source = Rc::new(text.to_owned());
    let mut scan = Scanner::new(&source);
    let tks = scan.scan_tokens();
    let (stmts, had_err) = Parser::new(tks).parse();
    assert!(!had_err);
    stmts
}

/// The resolved uses as (lexeme, byte offset, distance).
fn resolve(text: &str) -> (bool, Vec<(String, usize, usize)>) {
    let stmts = parse(text);
    let mut r = Resolver::new();
    let had_err = r.resolve(&stmts);
    let locals = r
        .locals()
        .iter()
        .map(|(tk, d)| (tk.lexeme().to_owned(), tk.inner().get_col().1 - 1, *d))
        .collect();
    (had_err, locals)
}

#[test]
fn globals_are_not_recorded() {
    let (had_err, locals) = resolve("var a = 1; print a;");
    assert!(!had_err);
    assert!(locals.is_empty());
}

#[test]
fn local_in_its_own_block() {
    let (had_err, locals) = resolve("{ var b = 1; print b; }");
    assert!(!had_err);
    assert_eq!(locals, vec![("b".to_owned(), 19, 0)]);
}

#[test]
fn distance_counts_scopes_out() {
    let (had_err, locals) = resolve("{ var a = 1; { print a; } }");
    assert!(!had_err);
    assert_eq!(locals, vec![("a".to_owned(), 21, 1)]);
}

#[test]
fn outermost_declaration_is_taken() {
    let (had_err, locals) = resolve("{ var a = 1; { var a = 2; print a; } }");
    assert!(!had_err);
    assert_eq!(locals, vec![("a".to_owned(), 32, 1)]);
}

#[test]
fn parameters_resolve_in_the_function_scope() {
    let (had_err, locals) = resolve("fun f(x) { return x; }");
    assert!(!had_err);
    assert_eq!(locals, vec![("x".to_owned(), 18, 0)]);
}

#[test]
fn errors_are_found() {
    assert!(resolve("{ var a = a; }").0);
    assert!(resolve("{ var a; var a; }").0);
    assert!(resolve("return 1;").0);
    assert!(resolve("super.x;").0);
    assert!(resolve("class A < A {}").0);
    assert!(resolve("class A { fun init() { return 1; } }").0);
}

#[test]
fn this_and_super_inside_classes() {
    let (had_err, locals) = resolve("class A < B { fun m() { print this; print super.m; } }");
    assert!(!had_err);
    assert_eq!(
        locals,
        vec![("this".to_owned(), 30, 1), ("super".to_owned(), 42, 2)]
    );
}

#[test]
fn this_at_top_level_is_accepted() {
    let (had_err, locals) = resolve("print this;");
    assert!(!had_err);
    assert!(locals.is_empty());
}

#[test]
fn resolution_goes_on_after_an_error() {
    let (had_err, locals) = resolve("return; { var c = 1; print c; }");
    assert!(had_err);
    assert_eq!(locals, vec![("c".to_owned(), 27, 0)]);
}
