use kismet::ast::Id;
use kismet::hir::symbol::{Stack, Symbol, SymbolIdx, SymbolTable};
use kismet::hir::value::{Primitive, Value};

fn id(s: &str) -> Id {
    Id(s.to_string())
}

fn integer(i: i32) -> Value {
    Value::Primitive(Primitive::Integer(i))
}

#[test]
fn table_get_after_set() {
    let mut t = SymbolTable::new();
    assert_eq!(t.set(id("a"), integer(1)), None);
    assert_eq!(t.get(id("a")), integer(1));
    assert_eq!(t.set(id("a"), integer(2)), Some(integer(1)));
    assert_eq!(t.get(id("a")), integer(2));
}

#[test]
fn table_get_unset_is_undefined_and_creates() {
    let mut t = SymbolTable::new();
    assert_eq!(t.get(id("x")), Value::Primitive(Primitive::Undefined));
    assert_eq!(t.set(id("x"), integer(3)), Some(Value::Primitive(Primitive::Undefined)));
}

#[test]
fn table_set_other_leaves_value() {
    let mut t = SymbolTable::new();
    t.set(id("a"), integer(1));
    t.set(id("b"), integer(2));
    assert_eq!(t.get(id("a")), integer(1));
}

#[test]
fn table_clone_is_independent() {
    let mut t = SymbolTable::new();
    t.set(id("a"), integer(1));
    let mut c = t.clone();
    c.set(id("a"), integer(9));
    assert_eq!(t.get(id("a")), integer(1));
    assert_eq!(c.get(id("a")), integer(9));
}

#[test]
fn symbol_idx_numbers_from_zero() {
    let mut s = SymbolIdx::new();
    assert_eq!(s.get(id("a")), 0);
    assert_eq!(s.get(id("b")), 1);
    assert_eq!(s.get(id("a")), 0);
    assert_eq!(s.get(id("c")), 2);
}

#[test]
fn symbol_numbers_from_one() {
    let mut s = Symbol::new();
    assert_eq!(s.get(id("a")), 1);
    assert_eq!(s.get(id("b")), 2);
    assert_eq!(s.get(id("a")), 1);
}

#[test]
fn stack_frames() {
    let mut s = Stack::new();
    assert_eq!(s.pos(), 0);
    s.push_frame();
    assert_eq!(s.pos(), 0);
    assert_eq!(s.frame().len(), 0);
    assert_eq!(s.pop_frame(), Some(0));
    assert_eq!(s.pop_frame(), None);
}
