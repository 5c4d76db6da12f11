use std::rc::Rc;

use rlox::{
    env::{EnvError, Environment},
    token::{Token, TokenInner},
};

fn ident(source: &Rc<String>, offset: usize, len: usize) -> Token {
    Token::Identifier {
        inner: TokenInner::new(Rc::clone(source), len, offset),
    }
}

#[test]
fn define_then_get() {
    let source = Rc::new("a b".to_owned());
    let a = ident(&source, 0, 1);
    let b = ident(&source, 2, 1);
    let mut env: Environment<i64> = Environment::new();
    env.define(0, "a".to_owned(), 1);
    assert_eq!(env.get(0, &a), Some(&1));
    assert_eq!(env.get(0, &b), None);
    env.define(0, "a".to_owned(), 2);
    assert_eq!(env.get(0, &a), Some(&2));
}

#[test]
fn inner_frames_see_outer_ones() {
    let source = Rc::new("a".to_owned());
    let a = ident(&source, 0, 1);
    let mut env: Environment<i64> = Environment::new();
    env.define(0, "a".to_owned(), 1);
    let inner = env.with_enclosing(0);
    assert_eq!(inner, 1);
    assert_eq!(env.get(inner, &a), Some(&1));
    env.define(inner, "a".to_owned(), 5);
    assert_eq!(env.get(inner, &a), Some(&5));
    assert_eq!(env.get(0, &a), Some(&1));
}

#[test]
fn assign_reaches_the_holding_frame() {
    let source = Rc::new("a".to_owned());
    let a = ident(&source, 0, 1);
    let mut env: Environment<i64> = Environment::new();
    env.define(0, "a".to_owned(), 1);
    let inner = env.with_enclosing(0);
    assert!(env.assign(inner, &a, 7).is_ok());
    assert_eq!(env.get(0, &a), Some(&7));
    assert_eq!(env.get(inner, &a), Some(&7));
}

#[test]
fn assign_to_undefined_fails() {
    let source = Rc::new("zz".to_owned());
    let z = ident(&source, 0, 2);
    let mut env: Environment<i64> = Environment::new();
    let err = env.assign(0, &z, 1).unwrap_err();
    assert!(matches!(err, EnvError::UndefinedVar(_)));
    assert_eq!(err.to_string(), "Not define: [Line: 1, Column: 1], code: `zz`");
}

#[test]
fn distances() {
    let source = Rc::new("a".to_owned());
    let a = ident(&source, 0, 1);
    let mut env: Environment<i64> = Environment::new();
    env.define(0, "a".to_owned(), 3);
    let f1 = env.with_enclosing(0);
    let f2 = env.with_enclosing(f1);
    assert_eq!(env.ancestor(f2, 2).unwrap(), 0);
    assert_eq!(*env.get_at(f2, 2, "a").unwrap(), 3);
    let missing = env.get_at(f2, 1, "a").unwrap_err();
    assert_eq!(missing.to_string(), "No var: `a`, distance: 1");
    let too_far = env.ancestor(f2, 3).unwrap_err();
    assert_eq!(too_far.to_string(), "Distance not enough depth: 3");
    assert!(env.assign_at(f2, 1, &a, 9).is_ok());
    assert_eq!(*env.get_at(f2, 1, "a").unwrap(), 9);
    assert_eq!(env.get(f2, &a), Some(&9));
    assert_eq!(env.get(0, &a), Some(&3));
}

#[test]
fn frames_are_counted() {
    let mut env: Environment<u8> = Environment::new();
    assert_eq!(env.frame_count(), 1);
    let inner = env.with_enclosing(0);
    assert_eq!(inner, 1);
    assert_eq!(env.frame_count(), 2);
}
