use kismet::ast::{
    Atom, Branch, DictItem, Expr, ListItem, Match, Op, OpArith, OpEqs, Primary, TargetDictItem, TargetExpr, TargetListItem,
};
use kismet::hir::value::{Primitive, Value};
use kismet::hir::symbol::SymbolTable;
use kismet::ast::Id;
use kismet::lexer::lex::tokenize;
use kismet::parser::enclosure::{brace, dict_item, list_item, parens};
use kismet::parser::error::{ConvertKind, Error, PErr};
use kismet::parser::expr::{lambda_expr, match_expr};
use kismet::parser::op::or_test;
use kismet::parser::parse;
use kismet::repl::{evaluate, Step};
use kismet::types::node::{BaseNode, Node};
use kismet::types::span::Span;

fn at<T>(n: &Node<T>) -> (usize, usize) {
    (n.span.start, n.span.end)
}

fn name(e: &Expr) -> String {
    match e {
        Expr::Primary(Primary::Atom(Atom::Id(x))) => x.clone(),
        _ => panic!("not a name"),
    }
}

fn integer(e: &Expr) -> i32 {
    match e {
        Expr::Primary(Primary::Atom(Atom::Integer(x))) => *x,
        _ => panic!("not an integer"),
    }
}

#[test]
fn brace_dict_display_with_trailing_comma() {
    let ts = tokenize("{a: 1, b,}");
    let (j, n) = brace(&ts, 0).ok().expect("dictionary");
    assert_eq!(j, 8);
    assert_eq!(at(&n), (0, 10));
    match &*n.data {
        Atom::DictDisplay(v) => {
            assert_eq!(v.len(), 2);
            assert_eq!(at(&v[0]), (1, 5));
            match &*v[0].data {
                DictItem::KeyVal { key, val } => {
                    assert_eq!(key.data.0, "a");
                    assert_eq!(at(key), (1, 2));
                    assert_eq!(integer(&val.data), 1);
                    assert_eq!(at(val), (4, 5));
                },
                _ => panic!("not a key with a value"),
            }
            assert_eq!(at(&v[1]), (7, 8));
            assert!(matches!(&*v[1].data, DictItem::Shorthand(x) if x.0 == "b"));
        },
        _ => panic!("not a dictionary display"),
    }
}

#[test]
fn brace_block_of_two_expressions() {
    let ts = tokenize("{a; b}");
    let (j, n) = brace(&ts, 0).ok().expect("block");
    assert_eq!(j, 5);
    match &*n.data {
        Atom::Block(v) => {
            assert_eq!(v.len(), 2);
            assert_eq!(name(&v[0].data), "a");
            assert_eq!(at(&v[0]), (1, 2));
            assert_eq!(name(&v[1].data), "b");
            assert_eq!(at(&v[1]), (4, 5));
        },
        _ => panic!("not a block"),
    }
}

#[test]
fn parens_tuples_of_one_and_two() {
    let ts = tokenize("(a,)");
    let (j, n) = parens(&ts, 0).ok().expect("tuple");
    assert_eq!(j, 4);
    assert_eq!(at(&n), (0, 4));
    assert!(matches!(&*n.data, Atom::Tuple(v) if v.len() == 1));
    let ts = tokenize("(a, b)");
    let (j, n) = parens(&ts, 0).ok().expect("tuple");
    assert_eq!(j, 5);
    assert_eq!(at(&n), (0, 6));
    match &*n.data {
        Atom::Tuple(v) => {
            assert_eq!(v.len(), 2);
            assert!(matches!(&*v[0].data, ListItem::Expr(e) if name(e) == "a"));
            assert!(matches!(&*v[1].data, ListItem::Expr(e) if name(e) == "b"));
            assert_eq!(at(&v[1]), (4, 5));
        },
        _ => panic!("not a tuple"),
    }
}

#[test]
fn match_with_one_literal_arm() {
    let ts = tokenize("match x { 1 => 2 }");
    let (j, n) = match_expr(&ts, 0).ok().expect("match");
    assert_eq!(j, 7);
    assert_eq!(at(&n), (0, 18));
    match &*n.data {
        Expr::Branch(Branch::Match { val, arms }) => {
            assert_eq!(name(&val.data), "x");
            assert_eq!(at(val), (6, 7));
            assert_eq!(arms.len(), 1);
            assert_eq!(at(&arms[0]), (10, 16));
            assert!(matches!(&*arms[0].data.tar.data, Match::Literal(Atom::Integer(1))));
            assert_eq!(at(&arms[0].data.tar), (10, 11));
            assert_eq!(at(&arms[0].data.block), (15, 16));
            assert_eq!(arms[0].data.block.data.0.len(), 1);
            assert_eq!(integer(&arms[0].data.block.data.0[0].data), 2);
        },
        _ => panic!("not a match"),
    }
}

#[test]
fn lambda_spans_of_arguments_and_block() {
    let ts = tokenize("x => { 1 }");
    let (j, n) = lambda_expr(&ts, 0).ok().expect("function");
    assert_eq!(j, 5);
    assert_eq!(at(&n), (0, 10));
    match &*n.data {
        Expr::Function { args, block } => {
            assert_eq!(at(args), (0, 1));
            assert_eq!(args.data.0.len(), 1);
            assert_eq!(at(&args.data.0[0]), (0, 1));
            assert!(matches!(&*args.data.0[0].data,
                TargetListItem::Target(TargetExpr::Id(s)) if s == "x"));
            assert_eq!(at(block), (5, 10));
            assert_eq!(integer(&block.data.0[0].data), 1);
        },
        _ => panic!("not a function"),
    }
}

#[test]
fn lambda_without_arrow_is_the_operand() {
    let ts = tokenize("1 + 2");
    let (j1, a) = or_test(&ts, 0).ok().expect("operand");
    let (j2, b) = lambda_expr(&ts, 0).ok().expect("expression");
    assert_eq!(j1, j2);
    assert_eq!(at(&a), at(&b));
    assert!(matches!(&*b.data, Expr::Op(Op::Arith(_, op, _)) if *op.data == OpArith::ADD));
}

#[test]
fn list_item_before_for_and_with_an_operator() {
    let ts = tokenize("a for a in b");
    let (j, x) = list_item(&ts, 0).ok().expect("item");
    assert_eq!(j, 1);
    assert!(matches!(&*x.data, ListItem::Expr(e) if name(e) == "a"));
    let ts = tokenize("a + 1");
    let (j, x) = list_item(&ts, 0).ok().expect("item");
    assert_eq!(j, 3);
    assert_eq!(at(&x), (0, 5));
    assert!(matches!(&*x.data, ListItem::Expr(Expr::Op(Op::Arith(..)))));
}

#[test]
fn dict_item_with_an_operation_as_value() {
    let ts = tokenize("a: b + 1");
    let (j, x) = dict_item(&ts, 0).ok().expect("item");
    assert_eq!(j, 5);
    assert_eq!(at(&x), (0, 8));
    match &*x.data {
        DictItem::KeyVal { key, val } => {
            assert_eq!(key.data.0, "a");
            assert_eq!(at(val), (3, 8));
            assert!(matches!(&*val.data, Expr::Op(Op::Arith(..))));
        },
        _ => panic!("not a key with a value"),
    }
}

#[test]
fn tuple_of_targets_with_a_default_is_handed_upwards() {
    let ts = tokenize("(b, a = 1)");
    match parens(&ts, 0) {
        Err(PErr::Failure(e)) => match &*e.data {
            Error::Convert(n, ConvertKind::TargetKindExpr(t)) => {
                assert_eq!(*n, 7);
                assert_eq!(at(t), (0, 10));
                match &*t.data {
                    TargetExpr::TargetTuple(v) => {
                        assert_eq!(v.len(), 2);
                        assert!(matches!(&*v[0].data, TargetListItem::Target(TargetExpr::Id(s)) if s == "b"));
                        assert!(matches!(&*v[1].data, TargetListItem::Target(TargetExpr::TargetExpr(..))));
                    },
                    _ => panic!("not a tuple target"),
                }
            },
            _ => panic!("not a target"),
        },
        _ => panic!("not a failure"),
    }
}

#[test]
fn dict_of_targets_with_a_default_is_handed_upwards() {
    let ts = tokenize("{b, a = 1}");
    match brace(&ts, 0) {
        Err(PErr::Failure(e)) => match &*e.data {
            Error::Convert(n, ConvertKind::TargetKindExpr(t)) => {
                assert_eq!(*n, 7);
                assert!(matches!(&*t.data, TargetExpr::TargetDict(v) if v.len() == 2));
            },
            _ => panic!("not a target"),
        },
        _ => panic!("not a failure"),
    }
}

#[test]
fn dict_target_keeps_the_names_after_a_default() {
    let ts = tokenize("{b, a = 1, c}");
    match brace(&ts, 0) {
        Err(PErr::Failure(e)) => match &*e.data {
            Error::Convert(n, ConvertKind::TargetKindExpr(t)) => {
                assert_eq!(*n, 9);
                match &*t.data {
                    TargetExpr::TargetDict(v) => {
                        assert_eq!(v.len(), 3);
                        assert!(matches!(&*v[0].data, TargetDictItem::Target(TargetExpr::Id(s)) if s == "b"));
                        assert!(matches!(&*v[2].data, TargetDictItem::Target(TargetExpr::Id(s)) if s == "c"));
                    },
                    _ => panic!("not a dictionary target"),
                }
            },
            _ => panic!("not a target"),
        },
        _ => panic!("not a failure"),
    }
}

#[test]
fn program_span_covers_every_token() {
    let tree = parse("1 + 2").expect("parses");
    assert_eq!(at(&tree), (0, 5));
    assert_eq!(tree.data.0.len(), 1);
    assert_eq!(at(&tree.data.0[0]), (0, 5));
}

#[test]
fn failing_lines_leave_the_variables() {
    let mut t = SymbolTable::new();
    t.set(Id("a".to_string()), Value::Primitive(Primitive::Integer(5)));
    let (t, step) = evaluate(t, parse("1 + 2").expect("parses"));
    assert!(matches!(step, Step::Unsupported));
    let (mut t, step) = evaluate(t, parse("[1, 2]").expect("parses"));
    assert!(matches!(step, Step::Value(_)));
    assert_eq!(t.get(Id("a".to_string())), Value::Primitive(Primitive::Integer(5)));
}

#[test]
fn reduce_is_the_hull() {
    let spans = [Span::new(4..6), Span::new(2..3), Span::new(5..9)];
    assert_eq!(Span::reduce_spans(&spans), Some(Span::new(2..9)));
}

#[test]
fn convert_with_identity_gives_the_node() {
    let n: Node<i32> = BaseNode::new(Span::new(1..2), 7);
    let m: Node<i32> = BaseNode::convert(|x: i32| x, n.clone());
    assert_eq!(m, n);
    let k: Node<i32> = BaseNode::convert(|x: i32| x + 1, BaseNode::convert(|x: i32| x * 2, n.clone()));
    assert_eq!(k, BaseNode::new(Span::new(1..2), 15));
}

#[test]
fn lambda_with_an_operation_in_its_block() {
    let ts = tokenize("x => { x + 1 }");
    let (j, n) = lambda_expr(&ts, 0).ok().expect("function");
    assert_eq!(j, 7);
    assert_eq!(at(&n), (0, 14));
    match &*n.data {
        Expr::Function { args, block } => {
            assert_eq!(at(args), (0, 1));
            assert_eq!(at(block), (5, 14));
            assert_eq!(block.data.0.len(), 1);
            assert_eq!(at(&block.data.0[0]), (7, 12));
            assert!(matches!(&*block.data.0[0].data, Expr::Op(Op::Arith(_, op, _)) if *op.data == OpArith::ADD));
        },
        _ => panic!("not a function"),
    }
}

#[test]
fn match_with_two_literal_arms_and_a_trailing_comma() {
    let ts = tokenize("match x { 1 => 2, 3 => 4, }");
    let (j, n) = match_expr(&ts, 0).ok().expect("match");
    assert_eq!(j, 12);
    assert_eq!(at(&n), (0, 27));
    match &*n.data {
        Expr::Branch(Branch::Match { arms, .. }) => {
            assert_eq!(arms.len(), 2);
            assert!(matches!(&*arms[1].data.tar.data, Match::Literal(Atom::Integer(3))));
            assert_eq!(integer(&arms[1].data.block.data.0[0].data), 4);
            assert_eq!(at(&arms[1]), (18, 24));
        },
        _ => panic!("not a match"),
    }
}

#[test]
fn program_of_atoms_and_operations() {
    let tree = parse("a; 1 + 2; \"b\"").expect("parses");
    let v = &tree.data.0;
    assert_eq!(v.len(), 3);
    assert_eq!(name(&v[0].data), "a");
    assert_eq!(at(&v[1]), (3, 8));
    match &*v[1].data {
        Expr::Op(Op::Arith(l, op, r)) => {
            assert_eq!(integer(&l.data), 1);
            assert_eq!(*op.data, OpArith::ADD);
            assert_eq!(integer(&r.data), 2);
            assert_eq!(at(op), (5, 6));
        },
        _ => panic!("not an operation"),
    }
    assert!(matches!(&*v[2].data, Expr::Primary(Primary::Atom(Atom::String(s))) if s == "b"));
    assert_eq!(at(&tree), (0, 13));
}

#[test]
fn lambda_with_a_block_of_simple_expressions() {
    let ts = tokenize("x => { a; b * 2 }");
    let (j, n) = lambda_expr(&ts, 0).ok().expect("function");
    assert_eq!(j, 9);
    assert_eq!(at(&n), (0, 17));
    match &*n.data {
        Expr::Function { block, .. } => {
            assert_eq!(at(block), (5, 17));
            assert_eq!(block.data.0.len(), 2);
            assert_eq!(name(&block.data.0[0].data), "a");
            assert_eq!(at(&block.data.0[1]), (10, 15));
            assert!(matches!(&*block.data.0[1].data, Expr::Op(Op::Arith(_, op, _)) if *op.data == OpArith::MUL));
        },
        _ => panic!("not a function"),
    }
}

#[test]
fn if_and_while_with_blocks_of_simple_expressions() {
    let ts = tokenize("if x { 1; y - 2 }");
    let (j, n) = kismet::parser::expr::if_expr(&ts, 0).ok().expect("if");
    assert_eq!(j, 9);
    match &*n.data {
        Expr::Branch(Branch::If { t_block, f_block, .. }) => {
            assert_eq!(t_block.data.0.len(), 2);
            assert_eq!(integer(&t_block.data.0[0].data), 1);
            assert!(matches!(&*t_block.data.0[1].data, Expr::Op(Op::Arith(_, op, _)) if *op.data == OpArith::SUB));
            assert_eq!(f_block.data.0.len(), 0);
        },
        _ => panic!("not an if"),
    }
    let ts = tokenize("while x { a; b }");
    let (j, n) = kismet::parser::expr::while_expr(&ts, 0).ok().expect("while");
    assert_eq!(j, 7);
    match &*n.data {
        kismet::ast::LoopKind::While { val, block } => {
            assert_eq!(name(&val.data), "x");
            assert_eq!(block.data.0.len(), 2);
            assert_eq!(name(&block.data.0[1].data), "b");
        },
        _ => panic!("not a while loop"),
    }
}

#[test]
fn nested_list_displays_parse_to_their_items() {
    let ts = tokenize("[1, [2, x * 3], []]");
    let (j, a) = kismet::parser::enclosure::brackets(&ts, 0).ok().expect("list");
    assert_eq!(j, ts.len());
    match &*a.data {
        Atom::ListDisplay(v) => {
            assert_eq!(v.len(), 3);
            assert!(matches!(&*v[0].data, ListItem::Expr(e) if integer(e) == 1));
            match &*v[1].data {
                ListItem::Expr(Expr::Primary(Primary::Atom(Atom::ListDisplay(w)))) => {
                    assert_eq!(w.len(), 2);
                    assert!(matches!(&*w[1].data, ListItem::Expr(Expr::Op(Op::Arith(_, op, _))) if *op.data == OpArith::MUL));
                },
                _ => panic!("not a nested list"),
            }
            assert!(matches!(&*v[2].data, ListItem::Expr(Expr::Primary(Primary::Atom(Atom::ListDisplay(w)))) if w.is_empty()));
        },
        _ => panic!("not a list display"),
    }
}

#[test]
fn dict_item_with_a_list_as_value() {
    let ts = tokenize("a: [1, 2]");
    let (j, x) = dict_item(&ts, 0).ok().expect("item");
    assert_eq!(j, 7);
    assert_eq!(at(&x), (0, 9));
    match &*x.data {
        DictItem::KeyVal { key, val } => {
            assert_eq!(key.data.0, "a");
            assert!(matches!(&*val.data, Expr::Primary(Primary::Atom(Atom::ListDisplay(w))) if w.len() == 2));
        },
        _ => panic!("not a key with a value"),
    }
}

#[test]
fn dict_spread_of_a_list_or_an_operation() {
    let ts = tokenize("...[1, 2], ...a * 2");
    let (j, x) = dict_item(&ts, 0).ok().expect("item");
    assert_eq!(j, 6);
    assert_eq!(at(&x), (0, 9));
    match &*x.data {
        DictItem::Spread(n) => {
            assert!(matches!(&*n.data, Expr::Primary(Primary::Atom(Atom::ListDisplay(w))) if w.len() == 2));
        },
        _ => panic!("not a spread"),
    }
    let (j, x) = dict_item(&ts, 7).ok().expect("item");
    assert_eq!(j, 11);
    assert!(matches!(&*x.data, DictItem::Spread(n) if matches!(&*n.data, Expr::Op(..))));
}

fn call_args(e: &Expr) -> usize {
    match e {
        Expr::Primary(Primary::Call(f, args)) => {
            assert!(matches!(&*f.data, Primary::Atom(Atom::Id(_))));
            args.data.0.len()
        },
        _ => panic!("not a call"),
    }
}

#[test]
fn call_with_display_items_as_arguments() {
    let ts = tokenize("f(1, [2, 3], a * b)");
    let (j, x) = or_test(&ts, 0).ok().expect("call");
    assert_eq!(j, 14);
    assert_eq!(at(&x), (0, 19));
    assert_eq!(call_args(&x.data), 3);
    let (j, x) = kismet::parser::expr::expr(&ts, 0).ok().expect("call");
    assert_eq!(j, 14);
    assert_eq!(call_args(&x.data), 3);
}

#[test]
fn calls_inside_lists_dictionaries_and_calls() {
    let tree = parse("[f(x), g()]; {a: h(1, k(2))}").expect("parses");
    let v = &tree.data.0;
    assert_eq!(v.len(), 2);
    match &*v[0].data {
        Expr::Primary(Primary::Atom(Atom::ListDisplay(w))) => {
            assert_eq!(w.len(), 2);
            match (&*w[0].data, &*w[1].data) {
                (ListItem::Expr(a), ListItem::Expr(b)) => {
                    assert_eq!(call_args(a), 1);
                    assert_eq!(call_args(b), 0);
                },
                _ => panic!("not expressions"),
            }
        },
        _ => panic!("not a list"),
    }
    let ts = tokenize("a: h(1, k(2))");
    let (j, x) = dict_item(&ts, 0).ok().expect("item");
    assert_eq!(j, ts.len());
    match &*x.data {
        DictItem::KeyVal { val, .. } => {
            assert_eq!(call_args(&val.data), 2);
            match &*val.data {
                Expr::Primary(Primary::Call(_, args)) => assert_eq!(call_args(&args.data.0[1].data), 1),
                _ => panic!("not a call"),
            }
        },
        _ => panic!("not a key with a value"),
    }
}

#[test]
fn signed_atoms_as_items_and_arguments() {
    let ts = tokenize("[-1, f(-2), +a]");
    let (j, x) = or_test(&ts, 0).ok().expect("list");
    assert_eq!(j, ts.len());
    match &*x.data {
        Expr::Primary(Primary::Atom(Atom::ListDisplay(w))) => {
            assert_eq!(w.len(), 3);
            match &*w[0].data {
                ListItem::Expr(Expr::Op(Op::Unary(op, r))) => {
                    assert_eq!(*op.data, OpArith::SUB);
                    assert_eq!(integer(&r.data), 1);
                },
                _ => panic!("not a signed number"),
            }
            match &*w[1].data {
                ListItem::Expr(e) => assert_eq!(call_args(e), 1),
                _ => panic!("not a call"),
            }
            assert!(matches!(&*w[2].data, ListItem::Expr(Expr::Op(Op::Unary(..)))));
        },
        _ => panic!("not a list"),
    }
    let ts = tokenize("a: -1");
    let (j, x) = dict_item(&ts, 0).ok().expect("item");
    assert_eq!(j, 4);
    assert!(matches!(&*x.data, DictItem::KeyVal { val, .. } if matches!(&*val.data, Expr::Op(Op::Unary(..)))));
}

#[test]
fn dice_as_statements_items_and_arguments() {
    let tree = parse("2d6; d20; [3d8, -d4]; roll(2d6, d8)").expect("parses");
    let v = &tree.data.0;
    assert_eq!(v.len(), 4);
    match &*v[0].data {
        Expr::Op(Op::Coefficient(c, d)) => {
            assert!(matches!(&*c.data, Atom::Integer(2)));
            assert!(matches!(&*d.data, Expr::Op(Op::Die(n)) if matches!(&*n.data, Atom::Integer(6))));
        },
        _ => panic!("not dice"),
    }
    assert_eq!(at(&v[0]), (0, 3));
    assert!(matches!(&*v[1].data, Expr::Op(Op::Die(n)) if matches!(&*n.data, Atom::Integer(20))));
    match &*v[2].data {
        Expr::Primary(Primary::Atom(Atom::ListDisplay(w))) => {
            assert_eq!(w.len(), 2);
            assert!(matches!(&*w[0].data, ListItem::Expr(Expr::Op(Op::Coefficient(..)))));
        },
        _ => panic!("not a list"),
    }
    assert_eq!(call_args(&v[3].data), 2);
    let ts = tokenize("hp: 3d6");
    let (j, x) = dict_item(&ts, 0).ok().expect("item");
    assert_eq!(j, 5);
    assert!(matches!(&*x.data, DictItem::KeyVal { val, .. } if matches!(&*val.data, Expr::Op(Op::Coefficient(..)))));
}

#[test]
fn comparisons_as_statements_items_and_values() {
    let tree = parse("a == b; [x < 1, f(y >= 2)]").expect("parses");
    let v = &tree.data.0;
    assert_eq!(v.len(), 2);
    match &*v[0].data {
        Expr::Op(Op::Compare(l, op, r)) => {
            assert_eq!(name(&l.data), "a");
            assert!(matches!(&*op.data, OpEqs::EQ));
            assert_eq!(name(&r.data), "b");
        },
        _ => panic!("not a comparison"),
    }
    assert_eq!(at(&v[0]), (0, 6));
    match &*v[1].data {
        Expr::Primary(Primary::Atom(Atom::ListDisplay(w))) => {
            assert_eq!(w.len(), 2);
            assert!(matches!(&*w[0].data, ListItem::Expr(Expr::Op(Op::Compare(..)))));
            match &*w[1].data {
                ListItem::Expr(e) => assert_eq!(call_args(e), 1),
                _ => panic!("not a call"),
            }
        },
        _ => panic!("not a list"),
    }
    let ts = tokenize("ok: hp != 3");
    let (j, x) = dict_item(&ts, 0).ok().expect("item");
    assert_eq!(j, 5);
    assert!(matches!(&*x.data, DictItem::KeyVal { val, .. } if matches!(&*val.data, Expr::Op(Op::Compare(..)))));
}

#[test]
fn program_of_call_statements() {
    let tree = parse("f(1); g([2], h(3),)").expect("parses");
    let v = &tree.data.0;
    assert_eq!(v.len(), 2);
    assert_eq!(call_args(&v[0].data), 1);
    assert_eq!(call_args(&v[1].data), 2);
    assert_eq!(at(&v[1]), (6, 19));
}

#[test]
fn program_with_list_statements() {
    let tree = parse("[1, [2]]; x; [a + b,]").expect("parses");
    let v = &tree.data.0;
    assert_eq!(v.len(), 3);
    assert!(matches!(&*v[0].data, Expr::Primary(Primary::Atom(Atom::ListDisplay(w))) if w.len() == 2));
    assert_eq!(at(&v[0]), (0, 8));
    assert!(matches!(&*v[2].data, Expr::Primary(Primary::Atom(Atom::ListDisplay(w))) if w.len() == 1));
}

#[test]
fn expression_levels_pass_a_list_through() {
    let ts = tokenize("[1, 2]");
    let (j, x) = kismet::parser::expr::expr(&ts, 0).ok().expect("expression");
    assert_eq!(j, 5);
    assert_eq!(at(&x), (0, 6));
    let (j, x) = or_test(&ts, 0).ok().expect("operand");
    assert_eq!(j, 5);
    assert!(matches!(&*x.data, Expr::Primary(Primary::Atom(Atom::ListDisplay(_)))));
}

#[test]
fn brace_dict_display_with_list_and_operation_values() {
    let ts = tokenize("{a: [1, 2], b: x + 1, c}");
    let (j, n) = brace(&ts, 0).ok().expect("dictionary");
    assert_eq!(j, ts.len());
    match &*n.data {
        Atom::DictDisplay(v) => {
            assert_eq!(v.len(), 3);
            assert!(matches!(&*v[0].data, DictItem::KeyVal { val, .. }
                if matches!(&*val.data, Expr::Primary(Primary::Atom(Atom::ListDisplay(w))) if w.len() == 2)));
            assert!(matches!(&*v[1].data, DictItem::KeyVal { val, .. } if matches!(&*val.data, Expr::Op(Op::Arith(..)))));
            assert!(matches!(&*v[2].data, DictItem::Shorthand(x) if x.0 == "c"));
        },
        _ => panic!("not a dictionary display"),
    }
}
