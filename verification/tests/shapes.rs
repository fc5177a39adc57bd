use kismet::ast::{Atom, DictItem, Expr, ListItem, Op, OpArith, Primary, Range};
use kismet::hir::compile::compile_expr;
use kismet::hir::instruction::{self, Action, Instruction};
use kismet::hir::value::{Collection, Primitive, Value};
use kismet::lexer::lex::tokenize;
use kismet::parser::enclosure::{brace, brackets, dict_item, list_item, parens};
use kismet::parser::error::{Error, ErrorKind, PErr};
use kismet::parser::op::r_expr;
use kismet::parser::parse;
use kismet::types::node::Node;

fn first(src: &str) -> Node<Expr> {
    let tree = parse(src).expect("parses");
    let mut v = tree.data.0;
    v.remove(0)
}

fn compiled(src: &str) -> Instruction {
    let e = first(src);
    compile_expr(&e.data)
}

fn integer(e: &Expr) -> i32 {
    match e {
        Expr::Primary(Primary::Atom(Atom::Integer(x))) => *x,
        _ => panic!("not an integer"),
    }
}

#[test]
fn compile_list_with_a_name_keeps_every_item() {
    match compiled("[1, x]") {
        Instruction::Action(Action::ListDisplay(items)) => {
            assert_eq!(items.len(), 2);
            assert_eq!((items[0].span.start, items[0].span.end), (1, 2));
            assert!(matches!(&*items[0].data,
                instruction::ListItem::Expr(Instruction::Value(Value::Primitive(Primitive::Integer(1))))));
            assert_eq!((items[1].span.start, items[1].span.end), (4, 5));
            match &*items[1].data {
                instruction::ListItem::Expr(Instruction::Variable(id)) => assert_eq!(id.0, "x"),
                _ => panic!("not a variable"),
            }
        },
        _ => panic!("not a list display"),
    }
}

#[test]
fn compile_list_of_constants_is_one_value() {
    match compiled("[1, 2]") {
        Instruction::Value(Value::Collection(Collection::List(vs))) => {
            assert_eq!(vs.len(), 2);
            assert!(matches!(vs[0], Value::Primitive(Primitive::Integer(1))));
            assert!(matches!(vs[1], Value::Primitive(Primitive::Integer(2))));
        },
        _ => panic!("not a constant list"),
    }
}

#[test]
fn compile_name_and_literal() {
    match compiled("x") {
        Instruction::Variable(id) => assert_eq!(id.0, "x"),
        _ => panic!("not a variable"),
    }
    assert!(matches!(compiled("7"), Instruction::Value(Value::Primitive(Primitive::Integer(7)))));
    match compiled("\"s\"") {
        Instruction::Value(Value::Primitive(Primitive::String(s))) => assert_eq!(s, "s"),
        _ => panic!("not a string"),
    }
}

#[test]
fn compile_parentheses_are_transparent() {
    assert!(matches!(compiled("(7)"), Instruction::Value(Value::Primitive(Primitive::Integer(7)))));
    match compiled("(x)") {
        Instruction::Variable(id) => assert_eq!(id.0, "x"),
        _ => panic!("not a variable"),
    }
}

#[test]
fn compile_dict_of_constants_is_one_value() {
    match compiled("{a: 1, b: 2, a: 3}") {
        Instruction::Value(Value::Collection(Collection::Dict(d))) => {
            let es = d.entries();
            assert_eq!(es.len(), 2);
            assert_eq!(es[0].0 .0, "a");
            assert!(matches!(es[0].1, Value::Primitive(Primitive::Integer(3))));
            assert_eq!(es[1].0 .0, "b");
        },
        _ => panic!("not a constant dict"),
    }
}

#[test]
fn compile_dict_folds_leading_constants_into_a_spread() {
    match compiled("{a: 1, b}") {
        Instruction::Action(Action::DictDisplay(items)) => {
            assert_eq!(items.len(), 2);
            assert_eq!((items[0].span.start, items[0].span.end), (7, 8));
            match &*items[0].data {
                instruction::DictItem::Spread(x) => {
                    assert_eq!((x.span.start, x.span.end), (7, 8));
                    match &*x.data {
                        Instruction::Value(Value::Collection(Collection::Dict(d))) => {
                            let es = d.entries();
                            assert_eq!(es.len(), 1);
                            assert_eq!(es[0].0 .0, "a");
                        },
                        _ => panic!("not a constant dict"),
                    }
                },
                _ => panic!("not a spread"),
            }
            match &*items[1].data {
                instruction::DictItem::Shorthand(id) => assert_eq!(id.0, "b"),
                _ => panic!("not a shorthand"),
            }
        },
        _ => panic!("not a dict display"),
    }
}

#[test]
fn parse_one_plus_two() {
    let e = first("1 + 2");
    match &*e.data {
        Expr::Op(Op::Arith(l, op, r)) => {
            assert_eq!(integer(&l.data), 1);
            assert_eq!(*op.data, OpArith::ADD);
            assert_eq!(integer(&r.data), 2);
        },
        _ => panic!("not a sum"),
    }
}

#[test]
fn parse_plain_statements() {
    let tree = parse("a; 2; \"b\"").expect("parses");
    assert_eq!(tree.data.0.len(), 3);
    assert_eq!(integer(&tree.data.0[1].data), 2);
}

#[test]
fn dict_item_key_value() {
    let ts = tokenize("a: 1");
    let (j, x) = dict_item(&ts, 0).ok().expect("item");
    assert_eq!(j, 3);
    match &*x.data {
        DictItem::KeyVal { key, val } => {
            assert_eq!(key.data.0, "a");
            assert_eq!(integer(&val.data), 1);
        },
        _ => panic!("not a key-value item"),
    }
}

#[test]
fn dict_item_spread() {
    let ts = tokenize("...a");
    let (j, x) = dict_item(&ts, 0).ok().expect("item");
    assert_eq!(j, 2);
    assert!(matches!(&*x.data, DictItem::Spread(_)));
}

#[test]
fn dict_item_number_key_fails_at_the_key() {
    let ts = tokenize("1: 2");
    match dict_item(&ts, 0) {
        Err(PErr::Failure(e)) => {
            let sp = e.span.expect("place");
            assert_eq!((sp.start, sp.end), (0, 1));
            assert!(matches!(&*e.data, Error::Error(ErrorKind::Grammar)));
        },
        _ => panic!("not a failure"),
    }
}

#[test]
fn list_item_forms() {
    let ts = tokenize("x");
    let (j, x) = list_item(&ts, 0).ok().expect("item");
    assert_eq!(j, 1);
    assert!(matches!(&*x.data, ListItem::Expr(_)));
    let ts = tokenize("...x");
    let (j, x) = list_item(&ts, 0).ok().expect("item");
    assert_eq!(j, 2);
    assert!(matches!(&*x.data, ListItem::Spread(_)));
}

#[test]
fn empty_and_single_enclosures() {
    let ts = tokenize("()");
    let (_, a) = parens(&ts, 0).ok().expect("tuple");
    assert!(matches!(&*a.data, Atom::Tuple(v) if v.is_empty()));
    let ts = tokenize("(x)");
    let (j, a) = parens(&ts, 0).ok().expect("paren");
    assert_eq!(j, 3);
    assert!(matches!(&*a.data, Atom::Paren(_)));
    let ts = tokenize("[]");
    let (_, a) = brackets(&ts, 0).ok().expect("list");
    assert!(matches!(&*a.data, Atom::ListDisplay(v) if v.is_empty()));
    let ts = tokenize("[x]");
    let (_, a) = brackets(&ts, 0).ok().expect("list");
    assert!(matches!(&*a.data, Atom::ListDisplay(v) if v.len() == 1));
    let ts = tokenize("{}");
    let (_, a) = brace(&ts, 0).ok().expect("dict");
    assert!(matches!(&*a.data, Atom::DictDisplay(v) if v.is_empty()));
}

#[test]
fn the_six_range_forms() {
    let cases: [(&str, usize); 6] = [("1..2", 3), ("1..=2", 3), ("1..", 2), ("..2", 2), ("..=2", 2), ("..", 1)];
    for (src, len) in cases.iter() {
        let ts = tokenize(src);
        let (j, x) = r_expr(&ts, 0).ok().expect("range");
        assert_eq!(j, *len);
        match (&*x.data, *src) {
            (Expr::Op(Op::Range(Range::Range { .. })), "1..2") => {},
            (Expr::Op(Op::Range(Range::RangeI { .. })), "1..=2") => {},
            (Expr::Op(Op::Range(Range::RangeFrom { .. })), "1..") => {},
            (Expr::Op(Op::Range(Range::RangeTo { .. })), "..2") => {},
            (Expr::Op(Op::Range(Range::RangeToI { .. })), "..=2") => {},
            (Expr::Op(Op::Range(Range::RangeFull)), "..") => {},
            _ => panic!("wrong range for {}", src),
        }
    }
}

#[test]
fn c_string_text_does_not_panic() {
    let ts = tokenize("c\"a\"");
    assert_eq!(ts.len(), 2);
}

#[test]
fn function_from_a_name_an_arrow_and_a_block() {
    let e = first("x => { y }");
    match &*e.data {
        Expr::Function { args, block } => {
            assert_eq!(args.data.0.len(), 1);
            assert!(matches!(&*args.data.0[0].data,
                kismet::ast::TargetListItem::Target(kismet::ast::TargetExpr::Id(s)) if s == "x"));
            assert_eq!(block.data.0.len(), 1);
        },
        _ => panic!("not a function"),
    }
}

#[test]
fn name_before_an_arrow_stops_the_operators() {
    let ts = tokenize("x => { y }");
    let (j, x) = kismet::parser::op::or_test(&ts, 0).ok().expect("operand");
    assert_eq!(j, 1);
    assert!(matches!(&*x.data, Expr::Primary(Primary::Atom(Atom::Id(_)))));
}
