use kismet::ast::OpArith;
use kismet::types::node::Node;
use kismet::types::span::Span;

#[test]
fn span_union_covers_both() {
    assert_eq!(Span::new(2..5).add(Span::new(4..9)), Span::new(2..9));
    assert_eq!(Span::new(4..9).add(Span::new(2..5)), Span::new(2..9));
}

#[test]
fn span_add_option() {
    assert_eq!(Span::add_option(Some(Span::new(1..2)), None), Some(Span::new(1..2)));
    assert_eq!(Span::add_option(None, Some(Span::new(3..4))), Some(Span::new(3..4)));
    assert_eq!(Span::add_option(None, None), None);
    assert_eq!(
        Span::add_option_ref(Some(&Span::new(1..2)), Some(&Span::new(5..6))),
        Some(Span::new(1..6))
    );
}

#[test]
fn span_reduce_nodes() {
    let nodes = vec![Node::new(Span::new(3..4), 'a'), Node::new(Span::new(0..1), 'b')];
    assert_eq!(Span::reduce(&nodes), Some(Span::new(0..4)));
    let empty: Vec<Node<char>> = vec![];
    assert_eq!(Span::reduce(&empty), None);
    assert_eq!(Span::get0(&nodes), Some(Span::new(3..4)));
}

#[test]
fn span_slice() {
    let s = Span::new(10..20);
    assert_eq!(s.slice(2..5), Span::new(12..15));
    assert_eq!(s.slice(3usize), Span::new(13..13));
}

#[test]
fn arith_space() {
    assert_eq!(OpArith::ADD.space(), " ");
    assert_eq!(OpArith::POW.space(), "");
    assert_eq!(OpArith::MUL.space(), "");
    assert_eq!(OpArith::MOD.space(), "");
    assert_eq!(OpArith::DIV.space(), " ");
}
