use kismet::ast::{Atom, Expr, ExprTop, Primary};
use kismet::hir::dict::Dict;
use kismet::hir::value::{Collection, Primitive, Value};
use kismet::lexer::lex::tokenize;
use kismet::lexer::token::{FloatLit, NumberKind, Token};
use kismet::parser::parse;
use kismet::render::ast::{render_expr, render_token, render_top};
use kismet::render::{int_text, nat_text, Frag};
use kismet::types::node::Node;
use kismet::types::span::Span;
use kismet::ast::Id;

fn text(frags: &[Frag]) -> String {
    let mut s = String::new();
    for f in frags {
        match f {
            Frag::Text(t) => s.push_str(t),
            Frag::Float(x) => {
                s.push('<');
                s.push_str(&x.digits);
                s.push('>');
            }
        }
    }
    s
}

fn loopback(src: &str) -> String {
    let tree: Node<ExprTop> = parse(src).expect("parses");
    let mut out = Vec::new();
    render_top(&tree.data, &mut out);
    text(&out)
}

#[test]
fn integer_text() {
    assert_eq!(int_text(0), "0");
    assert_eq!(int_text(-45), "-45");
    assert_eq!(int_text(i32::MIN as i64), "-2147483648");
    assert_eq!(nat_text(1234567890), "1234567890");
}

#[test]
fn float_stays_a_piece() {
    let v = Value::Primitive(Primitive::Float(FloatLit { digits: "01.5".to_string() }));
    assert_eq!(v.render(), vec![Frag::Float(FloatLit { digits: "01.5".to_string() })]);
}

#[test]
fn value_rendering() {
    let list = Value::Collection(Collection::List(vec![
        Value::Primitive(Primitive::Boolean(true)),
        Value::Primitive(Primitive::Null),
        Value::Error,
    ]));
    assert_eq!(text(&list.render()), "[true, null, error]");
    let empty = Value::Collection(Collection::Tuple(vec![]));
    assert_eq!(text(&empty.render()), "()");
}

#[test]
fn dict_value_rendering_keeps_order() {
    let mut d = Dict::new();
    d.insert(Id("z".to_string()), Value::Primitive(Primitive::Integer(1)));
    d.insert(Id("a".to_string()), Value::Primitive(Primitive::Integer(2)));
    d.insert(Id("z".to_string()), Value::Primitive(Primitive::Integer(3)));
    let v = Value::Collection(Collection::Dict(d));
    assert_eq!(text(&v.render()), "{z: 3, a: 2}");
}

#[test]
fn token_rendering() {
    let ts = tokenize("x := \"s\" 0.5 .25 ;");
    let mut out = Vec::new();
    for t in &ts {
        render_token(&t.data, &mut out);
        out.push(Frag::Text("|".to_string()));
    }
    assert_eq!(text(&out), "x|:=|\"s\"|<00.5>|.25|\n|");
    let mut out = Vec::new();
    render_token(&Token::Number(NumberKind::Integer(-3)), &mut out);
    render_token(&Token::ERROR, &mut out);
    assert_eq!(text(&out), "-3ERROR");
}

#[test]
fn loopback_blocks_and_dicts() {
    assert_eq!(loopback("{a: 1, b: 2}"), "{a: 1, b: 2}");
    assert_eq!(loopback("[...x, 2]"), "[...x, 2]");
    assert_eq!(loopback("(x,)"), "(x,)");
}

#[test]
fn loopback_comparisons_and_logic() {
    assert_eq!(loopback("a < b"), "a < b");
    assert_eq!(loopback("1 < x <= 3"), "1 < x <= 3");
    assert_eq!(loopback("a and b or c"), "a and b or c");
}

#[test]
fn loopback_float_piece() {
    assert_eq!(loopback("1.5"), "<01.5>");
}

#[test]
fn render_single_atom() {
    let e = Expr::Primary(Primary::Atom(Atom::String("q".to_string())));
    let mut out = Vec::new();
    render_expr(&e, &mut out);
    assert_eq!(text(&out), "\"q\"");
    let n = Node::new(Span::new(0..1), Atom::Integer(7));
    assert_eq!(n.span, Span::new(0..1));
}

#[test]
fn dict_clone_keeps_entries() {
    let mut d = Dict::new();
    d.insert(Id("b".to_string()), Value::Primitive(Primitive::Integer(1)));
    d.insert(Id("a".to_string()), Value::Collection(Collection::List(vec![Value::Error])));
    let v = Value::Collection(Collection::Dict(d));
    let w = v.clone();
    assert_eq!(text(&w.render()), "{b: 1, a: [error]}");
    assert_eq!(v, w);
}

#[test]
fn dict_entries_in_order() {
    let mut d = Dict::new();
    assert_eq!(d.insert(Id("x".to_string()), Value::Primitive(Primitive::Null)), None);
    assert_eq!(
        d.insert(Id("x".to_string()), Value::Primitive(Primitive::Integer(2))),
        Some(Value::Primitive(Primitive::Null))
    );
    d.insert(Id("y".to_string()), Value::Error);
    let es = d.into_entries();
    assert_eq!(es.len(), 2);
    assert_eq!(es[0].0, Id("x".to_string()));
    assert_eq!(es[1].1, Value::Error);
}
