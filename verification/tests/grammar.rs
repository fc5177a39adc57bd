use kismet::ast::{
    Atom, Branch, DictItem, Expr, LoopKind, Match, Op, OpArith, OpEqs, Primary, Range, Target,
    TargetDictItem, TargetListItem,
};
use kismet::parser::parse;
use kismet::types::node::Node;

fn one(src: &str) -> Node<Expr> {
    let tree = parse(src).expect("parses");
    let mut v = tree.data.0;
    assert_eq!(v.len(), 1);
    v.remove(0)
}

fn name(e: &Expr) -> String {
    match e {
        Expr::Primary(Primary::Atom(Atom::Id(x))) => x.clone(),
        _ => panic!("not a name"),
    }
}

fn integer(e: &Expr) -> i32 {
    match e {
        Expr::Primary(Primary::Atom(Atom::Integer(x))) => *x,
        _ => panic!("not an integer"),
    }
}

#[test]
fn differences_group_to_the_right() {
    let e = one("1 - 2 - 3");
    match &*e.data {
        Expr::Op(Op::Arith(l, op, r)) => {
            assert_eq!(integer(&l.data), 1);
            assert_eq!(*op.data, OpArith::SUB);
            match &*r.data {
                Expr::Op(Op::Arith(l2, op2, r2)) => {
                    assert_eq!(integer(&l2.data), 2);
                    assert_eq!(*op2.data, OpArith::SUB);
                    assert_eq!(integer(&r2.data), 3);
                }
                _ => panic!("right operand is no difference"),
            }
        }
        _ => panic!("no difference"),
    }
}

#[test]
fn products_bind_tighter_than_sums() {
    let e = one("a + b * c");
    match &*e.data {
        Expr::Op(Op::Arith(l, op, r)) => {
            assert_eq!(name(&l.data), "a");
            assert_eq!(*op.data, OpArith::ADD);
            assert!(matches!(&*r.data, Expr::Op(Op::Arith(_, m, _)) if *m.data == OpArith::MUL));
        }
        _ => panic!("no sum"),
    }
}

#[test]
fn coefficient_of_a_die() {
    let e = one("2d6");
    match &*e.data {
        Expr::Op(Op::Coefficient(a, d)) => {
            assert!(matches!(*a.data, Atom::Integer(2)));
            assert!(matches!(&*d.data, Expr::Op(Op::Die(n)) if matches!(*n.data, Atom::Integer(6))));
        }
        _ => panic!("no coefficient"),
    }
}

#[test]
fn suffixes_apply_left_to_right() {
    let e = one("a.b(c)[k]");
    match &*e.data {
        Expr::Primary(Primary::Subscription(q, vals)) => {
            assert_eq!(vals.len(), 1);
            // A subscription spans its brackets only.
            assert_eq!((e.span.start, e.span.end), (6, 9));
            match &*q.data {
                Primary::Call(q2, args) => {
                    assert_eq!(args.data.0.len(), 1);
                    assert!(matches!(&*q2.data, Primary::Attribute(_, id) if id.data.0 == "b"));
                }
                _ => panic!("no call"),
            }
        }
        _ => panic!("no subscription"),
    }
}

#[test]
fn ranges_of_every_shape() {
    assert!(matches!(&*one("..3").data, Expr::Op(Op::Range(Range::RangeTo { .. }))));
    assert!(matches!(&*one("..=3").data, Expr::Op(Op::Range(Range::RangeToI { .. }))));
    assert!(matches!(&*one("1..3").data, Expr::Op(Op::Range(Range::Range { .. }))));
    assert!(matches!(&*one("1..=3").data, Expr::Op(Op::Range(Range::RangeI { .. }))));
    assert!(matches!(&*one("1..").data, Expr::Op(Op::Range(Range::RangeFrom { .. }))));
}

#[test]
fn bounded_comparison() {
    let e = one("a < b <= c");
    match &*e.data {
        Expr::Op(Op::CompareBound { l_op, r_op, .. }) => {
            assert_eq!(*l_op.data, OpEqs::LT);
            assert_eq!(*r_op.data, OpEqs::LE);
        }
        _ => panic!("no bounded comparison"),
    }
}

#[test]
fn not_binds_tighter_than_and() {
    let e = one("not a and b");
    match &*e.data {
        Expr::Op(Op::And(l, r)) => {
            assert!(matches!(&*l.data, Expr::Op(Op::Not(_))));
            assert_eq!(name(&r.data), "b");
        }
        _ => panic!("no conjunction"),
    }
}

#[test]
fn dictionary_items() {
    let e = one("{x: 1, y}");
    match &*e.data {
        Expr::Primary(Primary::Atom(Atom::DictDisplay(items))) => {
            assert_eq!(items.len(), 2);
            assert!(matches!(&*items[0].data, DictItem::KeyVal { key, .. } if key.data.0 == "x"));
            assert!(matches!(&*items[1].data, DictItem::Shorthand(id) if id.0 == "y"));
        }
        _ => panic!("no dictionary"),
    }
}

#[test]
fn for_target_tuple_with_trailing_comma() {
    let e = one("for (a, b,) in x { a }");
    match &*e.data {
        Expr::Loop(l) => {
            assert!(l.id.is_none());
            match &l.data {
                LoopKind::For { tar, .. } => match &*tar.data {
                    Target::TargetTuple(v) => {
                        assert_eq!(v.len(), 2);
                        assert!(matches!(&*v[1].data, TargetListItem::Target(Target::Id(x)) if x == "b"));
                    }
                    _ => panic!("no tuple target"),
                },
                _ => panic!("no for loop"),
            }
        }
        _ => panic!("no loop"),
    }
}

#[test]
fn for_target_dict_items() {
    let e = one("for {a, b: c, ...r} in x { a }");
    match &*e.data {
        Expr::Loop(l) => match &l.data {
            LoopKind::For { tar, .. } => match &*tar.data {
                Target::TargetDict(v) => {
                    assert_eq!(v.len(), 3);
                    assert!(matches!(&*v[0].data, TargetDictItem::Target(Target::Id(x)) if x == "a"));
                    assert!(matches!(&*v[1].data, TargetDictItem::Pair { key, val }
                        if key.data.0 == "b" && matches!(&*val.data, Target::Id(y) if y == "c")));
                    assert!(matches!(&*v[2].data, TargetDictItem::Spread(s) if matches!(&*s.data, Target::Id(y) if y == "r")));
                }
                _ => panic!("no dictionary target"),
            },
            _ => panic!("no for loop"),
        },
        _ => panic!("no loop"),
    }
}

#[test]
fn match_pattern_literal() {
    let e = one("match x { 1 => { 2 } }");
    match &*e.data {
        Expr::Branch(Branch::Match { arms, .. }) => {
            assert_eq!(arms.len(), 1);
            assert!(matches!(&*arms[0].data.tar.data, Match::Literal(Atom::Integer(1))));
        }
        _ => panic!("no match"),
    }
}
