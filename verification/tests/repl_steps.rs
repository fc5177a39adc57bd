use kismet::ast::Id;
use kismet::hir::symbol::{Symbol, SymbolTable};
use kismet::hir::value::{Collection, Primitive, Value};
use kismet::parser::parse;
use kismet::repl::{evaluate, is_exit, Step};
use kismet::types::span::Span;

#[test]
fn exit_word_only() {
    assert!(is_exit("exit"));
    assert!(!is_exit("exit "));
    assert!(!is_exit("Exit"));
    assert!(!is_exit(""));
}

#[test]
fn evaluate_gives_the_value() {
    let tree = parse("[1, 2]").expect("parses");
    let (_, step) = evaluate(SymbolTable::new(), tree);
    match step {
        Step::Value(Value::Collection(Collection::List(vs))) => assert_eq!(vs.len(), 2),
        _ => panic!("not a list"),
    }
}

#[test]
fn evaluate_refuses_what_does_not_compile() {
    let tree = parse("1 + 2").expect("parses");
    let mut t = SymbolTable::new();
    t.set(Id("a".to_string()), Value::Primitive(Primitive::Integer(5)));
    let (mut t2, step) = evaluate(t, tree);
    assert!(matches!(step, Step::Unsupported));
    assert_eq!(t2.get(Id("a".to_string())), Value::Primitive(Primitive::Integer(5)));
}

#[test]
fn reduce_is_independent_of_order() {
    let a = [Span::new(3..5), Span::new(0..1), Span::new(7..9)];
    let b = [Span::new(7..9), Span::new(3..5), Span::new(0..1)];
    assert_eq!(Span::reduce_spans(&a), Span::reduce_spans(&b));
    assert_eq!(Span::reduce_spans(&a), Some(Span::new(0..9)));
}

#[test]
fn numbering_a_sequence_is_consistent() {
    let mut s = Symbol::new();
    let names = ["a", "b", "a", "c", "b"];
    let nums: Vec<usize> = names.iter().map(|n| s.get(Id(n.to_string()))).collect();
    assert_eq!(nums, vec![1, 2, 1, 3, 2]);
}
