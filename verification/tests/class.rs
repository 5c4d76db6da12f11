use std::rc::Rc;

use rlox::{
    assoc::AssocMap,
    class::{LoxClass, LoxInstance, Property},
    token::{Token, TokenInner},
};

fn ident(text: &str) -> Token {
    let source = Rc::new(text.to_owned());
    Token::Identifier {
        inner: TokenInner::new(source, text.len(), 0),
    }
}

fn methods(entries: &[(&str, u32)]) -> AssocMap<u32> {
    let mut m = AssocMap::new();
    for (name, f) in entries {
        m.insert((*name).to_owned(), *f);
    }
    m
}

#[test]
fn class_display() {
    let lox_class: LoxClass<u32> = LoxClass::new("test".to_owned(), None, AssocMap::new());
    assert_eq!(lox_class.to_string(), "test");
}

#[test]
fn own_methods_come_before_inherited_ones() {
    let base = LoxClass::new("Base".to_owned(), None, methods(&[("m", 1), ("n", 2)]));
    let derived = LoxClass::new("Derived".to_owned(), Some(Box::new(base)), methods(&[("m", 3)]));
    assert_eq!(derived.find_method("m"), Some(&3));
    assert_eq!(derived.find_method("n"), Some(&2));
    assert_eq!(derived.find_method("o"), None);
}

#[test]
fn methods_are_found_up_a_long_chain() {
    let a = LoxClass::new("A".to_owned(), None, methods(&[("init", 7)]));
    let b = LoxClass::new("B".to_owned(), Some(Box::new(a)), AssocMap::new());
    let c = LoxClass::new("C".to_owned(), Some(Box::new(b)), methods(&[("x", 1)]));
    assert_eq!(c.find_method("init"), Some(&7));
}

#[test]
fn fields_shadow_methods_and_read_back() {
    let klass = LoxClass::new("Point".to_owned(), None, methods(&[("x", 10), ("len", 20)]));
    let mut p: LoxInstance<&str, u32> = LoxInstance::new(klass);
    assert!(matches!(p.get(&ident("x")), Some(Property::Method(&10))));
    p.set(ident("x"), "one");
    assert!(matches!(p.get(&ident("x")), Some(Property::Field(&"one"))));
    assert!(matches!(p.get(&ident("len")), Some(Property::Method(&20))));
    p.set(ident("x"), "two");
    assert!(matches!(p.get(&ident("x")), Some(Property::Field(&"two"))));
    assert!(p.get(&ident("y")).is_none());
}

#[test]
fn instance_display() {
    let klass: LoxClass<u32> = LoxClass::new("Bagel".to_owned(), None, AssocMap::new());
    let i: LoxInstance<u8, u32> = LoxInstance::new(klass);
    assert_eq!(i.to_string(), "Bagel instance");
}

#[test]
fn a_copied_class_answers_alike() {
    let base = LoxClass::new("Base".to_owned(), None, methods(&[("n", 2)]));
    let derived = LoxClass::new("Derived".to_owned(), Some(Box::new(base)), methods(&[("m", 3)]));
    let copy = derived.duplicate();
    assert_eq!(copy.to_string(), "Derived");
    assert_eq!(copy.find_method("m"), Some(&3));
    assert_eq!(copy.find_method("n"), Some(&2));
    assert_eq!(copy.superclass.as_ref().map(|s| s.to_string()), Some("Base".to_owned()));
}
