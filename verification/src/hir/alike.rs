//! What the compiler builds for an expression is determined up to how it
//! runs: any two instructions that compile the same expression run alike.
use vstd::prelude::*;

use super::dict::Entries;
use super::instruction::{block_from, dict_from, exec_ins, exec_node, list_from, Action, Instruction, ListItem, Outcome, Table};
use super::instruction::DictItem;
use super::laws::{law_fold_dict, law_fold_list};
use super::meaning::{agree, agree_node};
use super::shape::{compiled, dicts_compiled, dict_folded, list_folded, lists_compiled, nodes_compiled};
use super::value::ValueV;
use crate::ast;
use crate::ast::{Atom, Expr, Primary};
use crate::types::node::Node;

verus! {

/// Two compilations of the same display items run alike from the same
/// variables and values so far.
pub proof fn lemma_lists_alike(
    cs1: Seq<Node<ListItem<Instruction>>>,
    cs2: Seq<Node<ListItem<Instruction>>>,
    xs: Seq<Node<ast::ListItem>>,
    m: Table,
    acc: Seq<ValueV>,
)
    requires
        lists_compiled(cs1, xs),
        lists_compiled(cs2, xs),
    ensures
        agree(list_from(cs1, m, acc), list_from(cs2, m, acc)),
    decreases xs, 0int,
{
    if xs.len() > 0 {
        let r1 = cs1.subrange(1, cs1.len() as int);
        let r2 = cs2.subrange(1, cs2.len() as int);
        let rx = xs.subrange(1, xs.len() as int);
        assert forall|k: int| 0 <= k < rx.len() implies r1[k].span == rx[k].span && #[trigger] super::shape::list_item_compiled(
            *r1[k].data,
            *rx[k].data,
        ) by {
            assert(r1[k] == cs1[k + 1] && rx[k] == xs[k + 1]);
            assert(super::shape::list_item_compiled(*cs1[k + 1].data, *xs[k + 1].data));
        }
        assert forall|k: int| 0 <= k < rx.len() implies r2[k].span == rx[k].span && #[trigger] super::shape::list_item_compiled(
            *r2[k].data,
            *rx[k].data,
        ) by {
            assert(r2[k] == cs2[k + 1] && rx[k] == xs[k + 1]);
            assert(super::shape::list_item_compiled(*cs2[k + 1].data, *xs[k + 1].data));
        }
        assert(super::shape::list_item_compiled(*cs1[0].data, *xs[0].data));
        assert(super::shape::list_item_compiled(*cs2[0].data, *xs[0].data));
        match *xs[0].data {
            ast::ListItem::Expr(e) => {
                let x1 = (*cs1[0].data)->Expr_0;
                let x2 = (*cs2[0].data)->Expr_0;
                lemma_compiled_alike(x1, x2, e, m);
                match exec_ins(x1, m) {
                    Ok((m2, v)) => {
                        lemma_lists_alike(r1, r2, rx, m2, acc.push(v));
                    },
                    Err(_) => {},
                }
            },
            ast::ListItem::Spread(n) => {
                let x1 = (*cs1[0].data)->Spread_0;
                let x2 = (*cs2[0].data)->Spread_0;
                lemma_compiled_alike(x1, x2, *n.data, m);
                match exec_ins(x1, m) {
                    Ok((m2, ValueV::List(vs))) => {
                        lemma_lists_alike(r1, r2, rx, m2, acc + vs);
                    },
                    Ok((m2, ValueV::Tuple(vs))) => {
                        lemma_lists_alike(r1, r2, rx, m2, acc + vs);
                    },
                    _ => {},
                }
            },
        }
    }
}

/// Two compilations of the same dictionary items run alike from the same
/// variables and entries so far.
pub proof fn lemma_dicts_alike(
    cs1: Seq<Node<DictItem<Instruction>>>,
    cs2: Seq<Node<DictItem<Instruction>>>,
    xs: Seq<Node<ast::DictItem>>,
    m: Table,
    acc: Entries,
)
    requires
        dicts_compiled(cs1, xs),
        dicts_compiled(cs2, xs),
    ensures
        agree(dict_from(cs1, m, acc), dict_from(cs2, m, acc)),
    decreases xs, 0int,
{
    if xs.len() > 0 {
        let r1 = cs1.subrange(1, cs1.len() as int);
        let r2 = cs2.subrange(1, cs2.len() as int);
        let rx = xs.subrange(1, xs.len() as int);
        assert forall|k: int| 0 <= k < rx.len() implies r1[k].span == rx[k].span && #[trigger] super::shape::dict_item_compiled(
            *r1[k].data,
            *rx[k].data,
        ) by {
            assert(r1[k] == cs1[k + 1] && rx[k] == xs[k + 1]);
            assert(super::shape::dict_item_compiled(*cs1[k + 1].data, *xs[k + 1].data));
        }
        assert forall|k: int| 0 <= k < rx.len() implies r2[k].span == rx[k].span && #[trigger] super::shape::dict_item_compiled(
            *r2[k].data,
            *rx[k].data,
        ) by {
            assert(r2[k] == cs2[k + 1] && rx[k] == xs[k + 1]);
            assert(super::shape::dict_item_compiled(*cs2[k + 1].data, *xs[k + 1].data));
        }
        assert(super::shape::dict_item_compiled(*cs1[0].data, *xs[0].data));
        assert(super::shape::dict_item_compiled(*cs2[0].data, *xs[0].data));
        match *xs[0].data {
            ast::DictItem::KeyVal { key, val } => {
                let v1 = (*cs1[0].data)->KeyVal_val;
                let v2 = (*cs2[0].data)->KeyVal_val;
                let k1 = (*cs1[0].data)->KeyVal_key;
                let k2 = (*cs2[0].data)->KeyVal_key;
                lemma_compiled_alike(*v1.data, *v2.data, *val.data, m);
                assert(v1.span == v2.span && k1.data.0@ == k2.data.0@);
                assert(agree_node(exec_node(v1, m), exec_node(v2, m)));
                match exec_node(v1, m) {
                    Ok((m2, v)) => {
                        lemma_dicts_alike(r1, r2, rx, m2, super::dict::entries_insert(acc, k1.data.0@, v));
                        assert(dict_from(cs1, m, acc) == dict_from(r1, m2, super::dict::entries_insert(acc, k1.data.0@, v)));
                        assert(dict_from(cs2, m, acc) == dict_from(r2, m2, super::dict::entries_insert(acc, k1.data.0@, v)));
                    },
                    Err(_) => {},
                }
            },
            ast::DictItem::DynKeyVal { key, val } => {
                let k1 = (*cs1[0].data)->DynKeyVal_key;
                let k2 = (*cs2[0].data)->DynKeyVal_key;
                let v1 = (*cs1[0].data)->DynKeyVal_val;
                let v2 = (*cs2[0].data)->DynKeyVal_val;
                lemma_compiled_alike(*k1.data, *k2.data, *key.data, m);
                assert(k1.span == k2.span && v1.span == v2.span);
                assert(agree_node(exec_node(k1, m), exec_node(k2, m)));
                match exec_node(k1, m) {
                    Ok((m2, ValueV::Primitive(super::value::PrimitiveV::String(ks)))) => {
                        lemma_compiled_alike(*v1.data, *v2.data, *val.data, m2);
                        assert(agree_node(exec_node(v1, m2), exec_node(v2, m2)));
                        match exec_node(v1, m2) {
                            Ok((m3, v)) => {
                                lemma_dicts_alike(r1, r2, rx, m3, super::dict::entries_insert(acc, ks, v));
                                assert(dict_from(cs1, m, acc) == dict_from(r1, m3, super::dict::entries_insert(acc, ks, v)));
                                assert(dict_from(cs2, m, acc) == dict_from(r2, m3, super::dict::entries_insert(acc, ks, v)));
                            },
                            Err(_) => {},
                        }
                    },
                    _ => {},
                }
            },
            ast::DictItem::Shorthand(y) => {
                let k1 = (*cs1[0].data)->Shorthand_0;
                let k2 = (*cs2[0].data)->Shorthand_0;
                assert(k1.0@ == k2.0@);
                let (m2, v) = super::symbol::table_get(m, k1.0@);
                lemma_dicts_alike(r1, r2, rx, m2, super::dict::entries_insert(acc, k1.0@, v));
                assert(dict_from(cs1, m, acc) == dict_from(r1, m2, super::dict::entries_insert(acc, k1.0@, v)));
                assert(dict_from(cs2, m, acc) == dict_from(r2, m2, super::dict::entries_insert(acc, k1.0@, v)));
            },
            ast::DictItem::Spread(y) => {
                let x1 = (*cs1[0].data)->Spread_0;
                let x2 = (*cs2[0].data)->Spread_0;
                lemma_compiled_alike(*x1.data, *x2.data, *y.data, m);
                assert(x1.span == x2.span);
                assert(agree_node(exec_node(x1, m), exec_node(x2, m)));
                match exec_node(x1, m) {
                    Ok((m2, ValueV::Dict(es))) => {
                        lemma_dicts_alike(r1, r2, rx, m2, super::dict::entries_merge(acc, es));
                        assert(dict_from(cs1, m, acc) == dict_from(r1, m2, super::dict::entries_merge(acc, es)));
                        assert(dict_from(cs2, m, acc) == dict_from(r2, m2, super::dict::entries_merge(acc, es)));
                    },
                    _ => {},
                }
            },
        }
    }
}

/// Two compilations of the same block run alike from the same variables and
/// value so far.
pub proof fn lemma_nodes_alike(
    cs1: Seq<Node<Instruction>>,
    cs2: Seq<Node<Instruction>>,
    xs: Seq<Node<Expr>>,
    m: Table,
    v: ValueV,
)
    requires
        nodes_compiled(cs1, xs),
        nodes_compiled(cs2, xs),
    ensures
        agree(block_from(cs1, m, v), block_from(cs2, m, v)),
    decreases xs, 0int,
{
    if xs.len() > 0 {
        let r1 = cs1.subrange(1, cs1.len() as int);
        let r2 = cs2.subrange(1, cs2.len() as int);
        let rx = xs.subrange(1, xs.len() as int);
        assert forall|k: int| 0 <= k < rx.len() implies r1[k].span == rx[k].span && #[trigger] compiled(
            *r1[k].data,
            *rx[k].data,
        ) by {
            assert(r1[k] == cs1[k + 1] && rx[k] == xs[k + 1]);
            assert(compiled(*cs1[k + 1].data, *xs[k + 1].data));
        }
        assert forall|k: int| 0 <= k < rx.len() implies r2[k].span == rx[k].span && #[trigger] compiled(
            *r2[k].data,
            *rx[k].data,
        ) by {
            assert(r2[k] == cs2[k + 1] && rx[k] == xs[k + 1]);
            assert(compiled(*cs2[k + 1].data, *xs[k + 1].data));
        }
        assert(compiled(*cs1[0].data, *xs[0].data));
        assert(compiled(*cs2[0].data, *xs[0].data));
        lemma_compiled_alike(*cs1[0].data, *cs2[0].data, *xs[0].data, m);
        assert(cs1[0].span == cs2[0].span);
        assert(agree_node(exec_node(cs1[0], m), exec_node(cs2[0], m)));
        match exec_node(cs1[0], m) {
            Ok((m2, v2)) => {
                lemma_nodes_alike(r1, r2, rx, m2, v2);
                assert(block_from(cs1, m, v) == block_from(r1, m2, v2));
                assert(block_from(cs2, m, v) == block_from(r2, m2, v2));
            },
            Err(_) => {},
        }
    }
}

/// Any two instructions that compile the same expression run alike on any
/// variables: both fail, or both give the same value and leave the same
/// variables.
pub proof fn lemma_compiled_alike(r1: Instruction, r2: Instruction, e: Expr, m: Table)
    requires
        compiled(r1, e),
        compiled(r2, e),
    ensures
        agree(exec_ins(r1, m), exec_ins(r2, m)),
    decreases e, 1int,
{
    match e {
        Expr::Primary(Primary::Atom(a)) => match a {
            Atom::Paren(x) => {
                lemma_compiled_alike(r1, r2, *x.data, m);
            },
            Atom::Tuple(items) => {
                let c1 = choose|cs: Vec<Node<ListItem<Instruction>>>| lists_compiled(cs@, items@) && #[trigger] list_folded(r1, cs, true);
                let c2 = choose|cs: Vec<Node<ListItem<Instruction>>>| lists_compiled(cs@, items@) && #[trigger] list_folded(r2, cs, true);
                law_fold_list(r1, c1, true, m);
                law_fold_list(r2, c2, true, m);
                lemma_lists_alike(c1@, c2@, items@, m, Seq::empty());
            },
            Atom::ListDisplay(items) => {
                let c1 = choose|cs: Vec<Node<ListItem<Instruction>>>| lists_compiled(cs@, items@) && #[trigger] list_folded(r1, cs, false);
                let c2 = choose|cs: Vec<Node<ListItem<Instruction>>>| lists_compiled(cs@, items@) && #[trigger] list_folded(r2, cs, false);
                law_fold_list(r1, c1, false, m);
                law_fold_list(r2, c2, false, m);
                lemma_lists_alike(c1@, c2@, items@, m, Seq::empty());
            },
            Atom::DictDisplay(items) => {
                let c1 = choose|cs: Vec<Node<DictItem<Instruction>>>| dicts_compiled(cs@, items@) && #[trigger] dict_folded(r1, cs);
                let c2 = choose|cs: Vec<Node<DictItem<Instruction>>>| dicts_compiled(cs@, items@) && #[trigger] dict_folded(r2, cs);
                law_fold_dict(r1, c1, m);
                law_fold_dict(r2, c2, m);
                lemma_dicts_alike(c1@, c2@, items@, m, Seq::empty());
            },
            Atom::Block(xs) => {
                let b1 = (r1)->Block_0;
                let b2 = (r2)->Block_0;
                lemma_nodes_alike(b1.0@, b2.0@, xs@, m, super::value::undefined());
            },
            _ => {},
        },
        _ => {},
    }
}

/// Parentheses are transparent to the compiler: what it builds for `(x)` and
/// what it builds for `x` run alike on any variables.
pub proof fn law_paren_runs_alike(r1: Instruction, r2: Instruction, x: Node<Expr>, m: Table)
    requires
        compiled(r1, Expr::Primary(Primary::Atom(Atom::Paren(x)))),
        compiled(r2, *x.data),
    ensures
        agree(exec_ins(r1, m), exec_ins(r2, m)),
{
    lemma_compiled_alike(r1, r2, *x.data, m);
}


} // verus!
