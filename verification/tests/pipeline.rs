use kismet::ast::{ExprTop, Id};
use kismet::types::span::Span;
use kismet::hir::compile;
use kismet::hir::exec::Exec;
use kismet::hir::meaning::is_compilable;
use kismet::hir::symbol::SymbolTable;
use kismet::hir::value::{Collection, Primitive, Value};
use kismet::parser::error::ErrorKind;
use kismet::parser::parse;
use kismet::render::ast::render_top;
use kismet::render::Frag;
use kismet::types::node::Node;

fn text(frags: &[Frag]) -> String {
    let mut s = String::new();
    for f in frags {
        match f {
            Frag::Text(t) => s.push_str(t),
            Frag::Float(x) => s.push_str(&x.digits),
        }
    }
    s
}

fn loopback(src: &str) -> String {
    let tree = parse(src).expect("parses");
    let mut out = Vec::new();
    render_top(&tree.data, &mut out);
    text(&out)
}

fn run(src: &str, table: SymbolTable) -> (SymbolTable, Value) {
    let tree: Node<ExprTop> = parse(src).expect("parses");
    assert!(is_compilable(&tree.data));
    let block = compile(tree).expect("compiles");
    block.exec(table).expect("runs")
}

fn show(v: &Value) -> String {
    text(&v.render())
}

#[test]
fn parse_empty_is_eof() {
    let e = parse("").unwrap_err();
    assert_eq!(e.span, None);
    assert!(matches!(*e.data, ErrorKind::Eof));
}

#[test]
fn parse_blank_is_eof() {
    let e = parse("   ").unwrap_err();
    assert!(matches!(*e.data, ErrorKind::Eof));
}

#[test]
fn loopback_arithmetic() {
    assert_eq!(loopback("1+2*3"), "1 + 2*3");
    assert_eq!(loopback("2^3"), "2^3");
}

#[test]
fn loopback_displays() {
    assert_eq!(loopback("(1, 2)"), "(1, 2)");
    assert_eq!(loopback("[1, 2, 3]"), "[1, 2, 3]");
}

#[test]
fn exec_integer() {
    let (_, v) = run("42", SymbolTable::new());
    assert_eq!(show(&v), "42");
}

#[test]
fn exec_tuple_is_folded() {
    let (_, v) = run("(1, 2)", SymbolTable::new());
    assert!(matches!(v, Value::Collection(Collection::Tuple(_))));
    assert_eq!(show(&v), "(1, 2)");
}

#[test]
fn exec_undefined_variable() {
    let (t, v) = run("x", SymbolTable::new());
    assert_eq!(v, Value::Primitive(Primitive::Undefined));
    let mut t = t;
    assert_eq!(t.get(Id("x".to_string())), Value::Primitive(Primitive::Undefined));
}

fn run_err(src: &str) -> Node<kismet::hir::instruction::Error> {
    let tree: Node<ExprTop> = parse(src).expect("parses");
    let block = compile(tree).expect("compiles");
    block.exec(SymbolTable::new()).expect_err("fails")
}

#[test]
fn exec_list_with_spread() {
    let (_, v) = run("[1, ...(2, 3)]", SymbolTable::new());
    assert_eq!(show(&v), "[1, 2, 3]");
}

#[test]
fn exec_spread_of_number_is_type_mismatch() {
    let e = run_err("[...1]");
    assert!(matches!(*e.data, kismet::hir::instruction::Error::TypeMismatch));
    assert_eq!(e.span, Span::new(0..6));
}

#[test]
fn exec_dict_display() {
    let (_, v) = run("{a: 1, b: 2}", SymbolTable::new());
    assert!(matches!(v, Value::Collection(Collection::Dict(_))));
    assert_eq!(show(&v), "{a: 1, b: 2}");
}

#[test]
fn exec_dict_spread_merges_in_order() {
    let (_, v) = run("{a: 1, ...{b: 2, a: 3}}", SymbolTable::new());
    assert_eq!(show(&v), "{a: 3, b: 2}");
}

#[test]
fn exec_dict_with_variable() {
    let (_, v) = run("{a: x, b: 2}", SymbolTable::new());
    assert_eq!(show(&v), "{a: undefined, b: 2}");
}

#[test]
fn exec_one_tuple_renders_comma() {
    let (_, v) = run("(1,)", SymbolTable::new());
    assert_eq!(show(&v), "(1,)");
}

#[test]
fn exec_string_value_prints_bare() {
    let (_, v) = run("\"hi\"", SymbolTable::new());
    assert_eq!(show(&v), "hi");
    assert_eq!(loopback("\"hi\""), "\"hi\"");
}

#[test]
fn exec_paren() {
    let (_, v) = run("(5)", SymbolTable::new());
    assert_eq!(show(&v), "5");
}

#[test]
fn exec_last_line_wins() {
    let (_, v) = run("1\n2", SymbolTable::new());
    assert_eq!(show(&v), "2");
}

#[test]
fn compile_refuses_operators() {
    let tree = parse("1 + 2").expect("parses");
    assert!(!is_compilable(&tree.data));
}

#[test]
fn parse_lexical_error_fails() {
    assert!(parse("1 $").is_err());
    assert!(parse("$").is_err());
}

#[test]
fn parse_unclosed_fails() {
    assert!(parse("(1, 2").is_err());
}

#[test]
fn loopback_keeps_dice_and_ranges() {
    assert_eq!(loopback("2d6"), "2d6");
    assert_eq!(loopback("1..3"), "1..3");
    assert_eq!(loopback("not a"), "not a");
}

#[test]
fn join_and_join1() {
    let one = vec![Node::new(Span::new(0..1), Id("a".to_string()))];
    let two = vec![
        Node::new(Span::new(0..1), Id("a".to_string())),
        Node::new(Span::new(2..3), Id("b".to_string())),
    ];
    assert_eq!(text(&Node::<Id>::join(&two, ", ")), "a, b");
    assert_eq!(text(&Node::<Id>::join1(&one, ", ", ",")), "a,");
    assert_eq!(text(&Node::<Id>::join1(&two, ", ", ",")), "a, b");
}

#[test]
fn run_gives_the_value() {
    let tree = parse("[1, (2, 3)]").expect("parses");
    let v = kismet::hir::run(tree).expect("runs");
    assert_eq!(show(&v), "[1, (2, 3)]");
}

#[test]
fn variables_persist_across_runs() {
    let mut t = SymbolTable::new();
    t.set(Id("x".to_string()), Value::Primitive(Primitive::Integer(4)));
    let (_, v) = run("[x, x]", t);
    assert_eq!(show(&v), "[4, 4]");
}

#[test]
fn exec_dyn_key_string() {
    // A computed key is written between `[` and `}`.
    let (_, v) = run("{[\"k\"}: 1}", SymbolTable::new());
    assert_eq!(show(&v), "{k: 1}");
    assert!(parse("{[\"k\"]: 1}").is_err());
}

#[test]
fn exec_dyn_key_must_be_string() {
    let e = run_err("{[1}: 2}");
    assert!(matches!(*e.data, kismet::hir::instruction::Error::TypeMismatch));
}

#[test]
fn exec_block_value() {
    let (_, v) = run("{1; 2}", SymbolTable::new());
    assert_eq!(show(&v), "2");
}
