use vstd::prelude::*;

use super::dict::{
    dict_entries,
    entries_insert,
    entries_merge,
    keys_distinct,
    lemma_insert_keys,
    lemma_merge_distinct,
    lemma_merge_empty,
    Dict,
    Entries,
};
use super::exec::merge_into;
use super::shape::{
    compiled,
    dict_folded,
    dict_item_compiled,
    dicts_compiled,
    known_values,
    lead_count,
    lead_entries,
    lemma_lead_step,
    lemma_lead_stop,
    list_folded,
    list_item_compiled,
    lists_compiled,
    nodes_compiled,
};
use super::instruction::{
    block_from, dict_from, exec_ins, exec_node, list_from, Action, Block, DictItem, Error,
    Instruction, ListItem, Outcome, Table,
};
use super::meaning::{
    agree,
    agree_node,
    compilable_dict,
    compilable_expr,
    compilable_exprs,
    compilable_list,
    eval_block,
    eval_dict,
    eval_expr,
    eval_list,
    eval_node,
};
use super::value::{lemma_values_view, undefined, values_view, Collection, Primitive, Value, ValueV};
use crate::ast;
use crate::ast::{Atom, Expr, Id, Primary};
use crate::types::node::{BaseNode, Node};
use crate::types::span::Span;

verus! {

/// The instruction runs as the expression evaluates, on any variables.
pub open spec fn ins_agrees(i: Instruction, e: Expr) -> bool {
    forall|m: Table| #[trigger] agree(exec_ins(i, m), eval_expr(e, m))
}

/// The node runs as the expression node evaluates, on any variables.
pub open spec fn node_agrees(n: Node<Instruction>, a: Node<Expr>) -> bool {
    forall|m: Table| #[trigger] agree_node(exec_node(n, m), eval_node(a, m))
}

/// A compiled display item matches a display item.
pub open spec fn list_item_agrees(c: ListItem<Instruction>, a: ast::ListItem) -> bool {
    match (c, a) {
        (ListItem::Expr(i), ast::ListItem::Expr(e)) => ins_agrees(i, e),
        (ListItem::Spread(i), ast::ListItem::Spread(n)) => ins_agrees(i, *n.data),
        _ => false,
    }
}

/// Compiled display items match display items, one for one.
pub open spec fn lists_agree(cs: Seq<Node<ListItem<Instruction>>>, xs: Seq<Node<ast::ListItem>>) -> bool {
    &&& cs.len() == xs.len()
    &&& forall|k: int| 0 <= k < cs.len() ==> list_item_agrees(*cs[k].data, *xs[k].data)
}

/// A compiled dictionary item matches a dictionary item.
pub open spec fn dict_item_agrees(c: DictItem<Instruction>, a: ast::DictItem) -> bool {
    match (c, a) {
        (DictItem::KeyVal { key: k1, val: v1 }, ast::DictItem::KeyVal { key: k2, val: v2 }) => k1.data.0@
            == k2.data.0@ && node_agrees(v1, v2),
        (DictItem::DynKeyVal { key: k1, val: v1 }, ast::DictItem::DynKeyVal { key: k2, val: v2 }) =>
            node_agrees(k1, k2) && node_agrees(v1, v2),
        (DictItem::Shorthand(x), ast::DictItem::Shorthand(y)) => x.0@ == y.0@,
        (DictItem::Spread(x), ast::DictItem::Spread(y)) => node_agrees(x, y),
        _ => false,
    }
}

/// Compiled dictionary items match dictionary items, one for one.
pub open spec fn dicts_agree(cs: Seq<Node<DictItem<Instruction>>>, xs: Seq<Node<ast::DictItem>>) -> bool {
    &&& cs.len() == xs.len()
    &&& forall|k: int| 0 <= k < cs.len() ==> dict_item_agrees(*cs[k].data, *xs[k].data)
}

/// Compiled nodes match expression nodes, one for one.
pub open spec fn blocks_agree(cs: Seq<Node<Instruction>>, xs: Seq<Node<Expr>>) -> bool {
    &&& cs.len() == xs.len()
    &&& forall|k: int| 0 <= k < cs.len() ==> node_agrees(cs[k], xs[k])
}

/// An instruction that agrees with an expression does so in any node.
pub proof fn lemma_node_agrees(n: Node<Instruction>, a: Node<Expr>)
    requires
        ins_agrees(*n.data, *a.data),
    ensures
        node_agrees(n, a),
{
    assert forall|m: Table| #[trigger] agree_node(exec_node(n, m), eval_node(a, m)) by {
        assert(agree(exec_ins(*n.data, m), eval_expr(*a.data, m)));
    }
}

/// Matching display items give matching values.
pub proof fn lemma_lists_agree(
    cs: Seq<Node<ListItem<Instruction>>>,
    xs: Seq<Node<ast::ListItem>>,
    m: Table,
    acc: Seq<ValueV>,
)
    requires
        lists_agree(cs, xs),
    ensures
        agree(list_from(cs, m, acc), eval_list(xs, m, acc)),
    decreases cs.len(),
{
    if cs.len() > 0 {
        let cr = cs.subrange(1, cs.len() as int);
        let xr = xs.subrange(1, xs.len() as int);
        assert(lists_agree(cr, xr)) by {
            assert forall|k: int| 0 <= k < cr.len() implies list_item_agrees(*cr[k].data, *xr[k].data) by {
                assert(cr[k] == cs[k + 1] && xr[k] == xs[k + 1]);
            }
        }
        assert(list_item_agrees(*cs[0].data, *xs[0].data));
        match (*cs[0].data, *xs[0].data) {
            (ListItem::Expr(i), ast::ListItem::Expr(e)) => {
                assert(agree(exec_ins(i, m), eval_expr(e, m)));
                if let Ok((m2, v)) = exec_ins(i, m) {
                    lemma_lists_agree(cr, xr, m2, acc.push(v));
                }
            },
            (ListItem::Spread(i), ast::ListItem::Spread(n)) => {
                assert(agree(exec_ins(i, m), eval_expr(*n.data, m)));
                match exec_ins(i, m) {
                    Ok((m2, ValueV::List(vs))) => {
                        lemma_lists_agree(cr, xr, m2, acc + vs);
                    },
                    Ok((m2, ValueV::Tuple(vs))) => {
                        lemma_lists_agree(cr, xr, m2, acc + vs);
                    },
                    _ => {},
                }
            },
            _ => {},
        }
    }
}

/// Matching dictionary items give matching entries.
pub proof fn lemma_dicts_agree(
    cs: Seq<Node<DictItem<Instruction>>>,
    xs: Seq<Node<ast::DictItem>>,
    m: Table,
    acc: Entries,
)
    requires
        dicts_agree(cs, xs),
    ensures
        agree(dict_from(cs, m, acc), eval_dict(xs, m, acc)),
    decreases cs.len(),
{
    if cs.len() > 0 {
        let cr = cs.subrange(1, cs.len() as int);
        let xr = xs.subrange(1, xs.len() as int);
        assert(dicts_agree(cr, xr)) by {
            assert forall|k: int| 0 <= k < cr.len() implies dict_item_agrees(*cr[k].data, *xr[k].data) by {
                assert(cr[k] == cs[k + 1] && xr[k] == xs[k + 1]);
            }
        }
        assert(dict_item_agrees(*cs[0].data, *xs[0].data));
        match (*cs[0].data, *xs[0].data) {
            (DictItem::KeyVal { key: k1, val: v1 }, ast::DictItem::KeyVal { key: k2, val: v2 }) => {
                assert(agree_node(exec_node(v1, m), eval_node(v2, m)));
                if let Ok((m2, v)) = exec_node(v1, m) {
                    lemma_dicts_agree(cr, xr, m2, entries_insert(acc, k1.data.0@, v));
                }
            },
            (DictItem::DynKeyVal { key: k1, val: v1 }, ast::DictItem::DynKeyVal { key: k2, val: v2 }) => {
                assert(agree_node(exec_node(k1, m), eval_node(k2, m)));
                if let Ok((m2, kv)) = exec_node(k1, m) {
                    if let ValueV::Primitive(super::value::PrimitiveV::String(k)) = kv {
                        assert(agree_node(exec_node(v1, m2), eval_node(v2, m2)));
                        if let Ok((m3, v)) = exec_node(v1, m2) {
                            lemma_dicts_agree(cr, xr, m3, entries_insert(acc, k, v));
                        }
                    }
                }
            },
            (DictItem::Shorthand(x), ast::DictItem::Shorthand(y)) => {
                let (m2, v) = super::symbol::table_get(m, x.0@);
                lemma_dicts_agree(cr, xr, m2, entries_insert(acc, x.0@, v));
            },
            (DictItem::Spread(x), ast::DictItem::Spread(y)) => {
                assert(agree_node(exec_node(x, m), eval_node(y, m)));
                if let Ok((m2, ValueV::Dict(es))) = exec_node(x, m) {
                    lemma_dicts_agree(cr, xr, m2, entries_merge(acc, es));
                }
            },
            _ => {},
        }
    }
}

/// Matching nodes give matching last values.
pub proof fn lemma_blocks_agree(cs: Seq<Node<Instruction>>, xs: Seq<Node<Expr>>, m: Table, v: ValueV)
    requires
        blocks_agree(cs, xs),
    ensures
        agree(block_from(cs, m, v), eval_block(xs, m, v)),
    decreases cs.len(),
{
    if cs.len() > 0 {
        let cr = cs.subrange(1, cs.len() as int);
        let xr = xs.subrange(1, xs.len() as int);
        assert(blocks_agree(cr, xr)) by {
            assert forall|k: int| 0 <= k < cr.len() implies node_agrees(cr[k], xr[k]) by {
                assert(cr[k] == cs[k + 1] && xr[k] == xs[k + 1]);
            }
        }
        assert(node_agrees(cs[0], xs[0]));
        assert(agree_node(exec_node(cs[0], m), eval_node(xs[0], m)));
        if let Ok((m2, v2)) = exec_node(cs[0], m) {
            lemma_blocks_agree(cr, xr, m2, v2);
        }
    }
}

/// Each expression of a compilable sequence is compilable.
pub proof fn lemma_compilable_exprs(s: Seq<Node<Expr>>)
    requires
        compilable_exprs(s),
    ensures
        forall|k: int| 0 <= k < s.len() ==> compilable_expr(#[trigger] *s[k].data),
    decreases s.len(),
{
    if s.len() > 0 {
        let r = s.subrange(1, s.len() as int);
        lemma_compilable_exprs(r);
        assert forall|k: int| 0 <= k < s.len() implies compilable_expr(#[trigger] *s[k].data) by {
            if k > 0 {
                assert(r[k - 1] == s[k]);
            }
        }
    }
}

/// Each item of a compilable display is compilable.
pub proof fn lemma_compilable_list(s: Seq<Node<ast::ListItem>>)
    requires
        compilable_list(s),
    ensures
        forall|k: int|
            0 <= k < s.len() ==> match #[trigger] *s[k].data {
                ast::ListItem::Expr(e) => compilable_expr(e),
                ast::ListItem::Spread(n) => compilable_expr(*n.data),
            },
    decreases s.len(),
{
    if s.len() > 0 {
        let r = s.subrange(1, s.len() as int);
        lemma_compilable_list(r);
        assert forall|k: int| 0 <= k < s.len() implies match #[trigger] *s[k].data {
            ast::ListItem::Expr(e) => compilable_expr(e),
            ast::ListItem::Spread(n) => compilable_expr(*n.data),
        } by {
            if k > 0 {
                assert(r[k - 1] == s[k]);
            }
        }
    }
}

/// Each item of a compilable dictionary display is compilable.
pub proof fn lemma_compilable_dict(s: Seq<Node<ast::DictItem>>)
    requires
        compilable_dict(s),
    ensures
        forall|k: int|
            0 <= k < s.len() ==> match #[trigger] *s[k].data {
                ast::DictItem::KeyVal { key, val } => compilable_expr(*val.data),
                ast::DictItem::DynKeyVal { key, val } => compilable_expr(*key.data)
                    && compilable_expr(*val.data),
                ast::DictItem::Shorthand(_) => true,
                ast::DictItem::Spread(n) => compilable_expr(*n.data),
            },
    decreases s.len(),
{
    if s.len() > 0 {
        let r = s.subrange(1, s.len() as int);
        lemma_compilable_dict(r);
        assert forall|k: int| 0 <= k < s.len() implies match #[trigger] *s[k].data {
            ast::DictItem::KeyVal { key, val } => compilable_expr(*val.data),
            ast::DictItem::DynKeyVal { key, val } => compilable_expr(*key.data) && compilable_expr(
                *val.data,
            ),
            ast::DictItem::Shorthand(_) => true,
            ast::DictItem::Spread(n) => compilable_expr(*n.data),
        } by {
            if k > 0 {
                assert(r[k - 1] == s[k]);
            }
        }
    }
}

/// The value of a display item that is a known value (undefined otherwise).
pub open spec fn known_value(c: ListItem<Instruction>) -> ValueV {
    match c {
        ListItem::Expr(Instruction::Value(v)) => v@,
        _ => undefined(),
    }
}

/// Whether a display item is a known value.
pub open spec fn is_known(c: ListItem<Instruction>) -> bool {
    c matches ListItem::Expr(Instruction::Value(_))
}

/// Items that are all known values give those values and change nothing.
pub proof fn lemma_list_known(cs: Seq<Node<ListItem<Instruction>>>, m: Table, acc: Seq<ValueV>)
    requires
        forall|k: int| 0 <= k < cs.len() ==> is_known(#[trigger] *cs[k].data),
    ensures
        list_from(cs, m, acc) == Ok::<(Table, Seq<ValueV>), Error>(
            (m, acc + Seq::new(cs.len(), |k: int| known_value(*cs[k].data))),
        ),
    decreases cs.len(),
{
    let vs = Seq::new(cs.len(), |k: int| known_value(*cs[k].data));
    if cs.len() == 0 {
        assert(acc + vs =~= acc);
    } else {
        let r = cs.subrange(1, cs.len() as int);
        assert forall|k: int| 0 <= k < r.len() implies is_known(#[trigger] *r[k].data) by {
            assert(r[k] == cs[k + 1]);
        }
        assert(is_known(*cs[0].data));
        let v0 = known_value(*cs[0].data);
        let x = (*cs[0].data)->Expr_0;
        assert(*cs[0].data == ListItem::Expr(x));
        assert(exec_ins(x, m) == Outcome::Ok((m, v0)));
        assert(list_from(cs, m, acc) == list_from(r, m, acc.push(v0)));
        lemma_list_known(r, m, acc.push(v0));
        let rv = Seq::new(r.len(), |k: int| known_value(*r[k].data));
        assert(acc.push(v0) + rv =~= acc + vs) by {
            assert forall|k: int| 0 <= k < rv.len() implies rv[k] == vs[k + 1] by {
                assert(r[k] == cs[k + 1]);
            }
        }
    }
}

/// A tuple or list display whose items are all known values becomes the
/// collection itself; any other stays a display.
#[verifier::spinoff_prover]
pub fn fold_list(cs: Vec<Node<ListItem<Instruction>>>, tuple: bool) -> (r: Instruction)
    ensures
        forall|m: Table|
            #[trigger] exec_ins(r, m) == exec_ins(
                if tuple {
                    Instruction::Action(Action::Tuple(cs))
                } else {
                    Instruction::Action(Action::ListDisplay(cs))
                },
                m,
            ),
        (forall|k: int| 0 <= k < cs@.len() ==> is_known(#[trigger] *cs@[k].data)) ==> r is Value,
        list_folded(r, cs, tuple),
{
    let mut k: usize = 0;
    while k < cs.len()
        invariant
            k <= cs@.len(),
            forall|j: int| 0 <= j < k ==> is_known(#[trigger] *cs@[j].data),
        decreases cs@.len() - k,
    {
        match &*cs[k].data {
            ListItem::Expr(Instruction::Value(_)) => {},
            _ => {
                return if tuple {
                    Instruction::Action(Action::Tuple(cs))
                } else {
                    Instruction::Action(Action::ListDisplay(cs))
                };
            },
        }
        k = k + 1;
    }
    let mut vals: Vec<Value> = Vec::new();
    let mut j: usize = 0;
    while j < cs.len()
        invariant
            j <= cs@.len(),
            forall|a: int| 0 <= a < cs@.len() ==> is_known(#[trigger] *cs@[a].data),
            vals@.len() == j,
            forall|a: int| 0 <= a < j ==> (#[trigger] vals@[a])@ == known_value(*cs@[a].data),
        decreases cs@.len() - j,
    {
        assert(is_known(*cs@[j as int].data));
        match &*cs[j].data {
            ListItem::Expr(Instruction::Value(v)) => {
                vals.push(v.copy());
            },
            _ => {},
        }
        j = j + 1;
    }
    let ghost kv = Seq::new(cs@.len(), |a: int| known_value(*cs@[a].data));
    assert(kv == known_values(cs@));
    proof {
        lemma_values_view(vals@);
        assert(values_view(vals@) =~= kv);
        assert forall|m: Table| list_from(cs@, m, Seq::empty()) == Ok::<(Table, Seq<ValueV>), Error>(
            (m, kv),
        ) by {
            lemma_list_known(cs@, m, Seq::empty());
            assert(Seq::<ValueV>::empty() + kv =~= kv);
        }
    }
    let v = if tuple {
        Value::Collection(Collection::Tuple(vals))
    } else {
        Value::Collection(Collection::List(vals))
    };
    assert(v@ == (if tuple {
        ValueV::Tuple(kv)
    } else {
        ValueV::List(kv)
    }));
    let r = Instruction::Value(v);
    proof {
        assert forall|m: Table| #[trigger] exec_ins(r, m) == exec_ins(
            if tuple {
                Instruction::Action(Action::Tuple(cs))
            } else {
                Instruction::Action(Action::ListDisplay(cs))
            },
            m,
        ) by {
            lemma_list_known(cs@, m, Seq::empty());
            assert(Seq::<ValueV>::empty() + kv =~= kv);
            assert(exec_ins(r, m) == Outcome::Ok((m, v@)));
        }
    }
    r
}

/// Compiles an expression that the compiler handles.
pub fn compile_expr(e: &Expr) -> (r: Instruction)
    requires
        compilable_expr(*e),
    ensures
        ins_agrees(r, *e),
        compiled(r, *e),
    decreases e,
{
    match e {
        Expr::Primary(Primary::Atom(a)) => match a {
            Atom::Id(x) => {
                let r = Instruction::Variable(Id(x.clone()));
                assert(compiled(r, *e));
                assert forall|m: Table| #[trigger] agree(exec_ins(r, m), eval_expr(*e, m)) by {
                    assert(exec_ins(r, m) == eval_expr(*e, m));
                }
                r
            },
            Atom::Integer(x) => {
                let r = Instruction::Value(Value::Primitive(Primitive::Integer(*x)));
                assert(compiled(r, *e));
                assert forall|m: Table| #[trigger] agree(exec_ins(r, m), eval_expr(*e, m)) by {
                    assert(exec_ins(r, m) == eval_expr(*e, m));
                }
                r
            },
            Atom::Float(f) => {
                let r = Instruction::Value(Value::Primitive(Primitive::Float(f.copy())));
                assert(compiled(r, *e));
                assert forall|m: Table| #[trigger] agree(exec_ins(r, m), eval_expr(*e, m)) by {
                    assert(exec_ins(r, m) == eval_expr(*e, m));
                }
                r
            },
            Atom::String(x) => {
                let r = Instruction::Value(Value::Primitive(Primitive::String(x.clone())));
                assert(compiled(r, *e));
                assert forall|m: Table| #[trigger] agree(exec_ins(r, m), eval_expr(*e, m)) by {
                    assert(exec_ins(r, m) == eval_expr(*e, m));
                }
                r
            },
            Atom::Paren(x) => {
                let r = compile_expr(&x.data);
                assert(compiled(r, *e));
                assert forall|m: Table| #[trigger] agree(exec_ins(r, m), eval_expr(*e, m)) by {
                    assert(agree(exec_ins(r, m), eval_expr(*x.data, m)));
                }
                r
            },
            Atom::Tuple(items) => {
                let cs = compile_list(items);
                let ghost g = cs@;
                let ghost gc = cs;
                let r = fold_list(cs, true);
                assert(lists_compiled(gc@, items@) && list_folded(r, gc, true));
                assert(compiled(r, *e));
                proof {
                    assert forall|m: Table| #[trigger] agree(exec_ins(r, m), eval_expr(*e, m)) by {
                        lemma_lists_agree(g, items@, m, Seq::empty());
                    }
                }
                r
            },
            Atom::ListDisplay(items) => {
                let cs = compile_list(items);
                let ghost g = cs@;
                let ghost gc = cs;
                let r = fold_list(cs, false);
                assert(lists_compiled(gc@, items@) && list_folded(r, gc, false));
                assert(compiled(r, *e));
                proof {
                    assert forall|m: Table| #[trigger] agree(exec_ins(r, m), eval_expr(*e, m)) by {
                        lemma_lists_agree(g, items@, m, Seq::empty());
                    }
                }
                r
            },
            Atom::DictDisplay(items) => {
                let cs = compile_dict(items);
                let ghost gv = cs;
                let r = fold_dict(cs);
                assert(dicts_compiled(gv@, items@) && dict_folded(r, gv));
                assert(compiled(r, *e));
                proof {
                    assert forall|m: Table| #[trigger] agree(exec_ins(r, m), eval_expr(*e, m)) by {
                        lemma_dicts_agree(gv@, items@, m, Seq::empty());
                        assert(agree(
                            exec_ins(r, m),
                            exec_ins(Instruction::Action(Action::DictDisplay(gv)), m),
                        ));
                    }
                }
                r
            },
            Atom::Block(xs) => {
                let cs = compile_nodes(xs);
                let ghost g = cs@;
                let r = Instruction::Block(Block(cs));
                assert(compiled(r, *e));
                proof {
                    assert forall|m: Table| #[trigger] agree(exec_ins(r, m), eval_expr(*e, m)) by {
                        lemma_blocks_agree(g, xs@, m, undefined());
                    }
                }
                r
            },
            _ => {
                assert(false);
                Instruction::Value(Value::Error)
            },
        },
        _ => {
            assert(false);
            Instruction::Value(Value::Error)
        },
    }
}

/// Compiles expression nodes, keeping their places.
pub fn compile_nodes(xs: &Vec<Node<Expr>>) -> (r: Vec<Node<Instruction>>)
    requires
        compilable_exprs(xs@),
    ensures
        blocks_agree(r@, xs@),
        forall|k: int| 0 <= k < r@.len() ==> (#[trigger] r@[k]).span == xs@[k].span,
        nodes_compiled(r@, xs@),
    decreases xs@,
{
    proof {
        lemma_compilable_exprs(xs@);
    }
    let mut out: Vec<Node<Instruction>> = Vec::new();
    let mut k: usize = 0;
    while k < xs.len()
        invariant
            k <= xs@.len(),
            forall|j: int| 0 <= j < xs@.len() ==> compilable_expr(#[trigger] *xs@[j].data),
            out@.len() == k,
            forall|j: int| 0 <= j < k ==> node_agrees(#[trigger] out@[j], xs@[j]),
            forall|j: int| 0 <= j < k ==> (#[trigger] out@[j]).span == xs@[j].span,
            forall|j: int| 0 <= j < k ==> compiled(*(#[trigger] out@[j]).data, *xs@[j].data),
        decreases xs@.len() - k,
    {
        assert(compilable_expr(*xs@[k as int].data));
        let i = compile_expr(&xs[k].data);
        let n = Node::new(xs[k].span, i);
        proof {
            lemma_node_agrees(n, xs@[k as int]);
        }
        out.push(n);
        k = k + 1;
    }
    out
}

/// Compiles the items of a tuple or list display, keeping their places.
pub fn compile_list(xs: &Vec<Node<ast::ListItem>>) -> (r: Vec<Node<ListItem<Instruction>>>)
    requires
        compilable_list(xs@),
    ensures
        lists_agree(r@, xs@),
        lists_compiled(r@, xs@),
    decreases xs@,
{
    proof {
        lemma_compilable_list(xs@);
    }
    let mut out: Vec<Node<ListItem<Instruction>>> = Vec::new();
    let mut k: usize = 0;
    while k < xs.len()
        invariant
            k <= xs@.len(),
            forall|j: int|
                0 <= j < xs@.len() ==> match #[trigger] *xs@[j].data {
                    ast::ListItem::Expr(e) => compilable_expr(e),
                    ast::ListItem::Spread(n) => compilable_expr(*n.data),
                },
            out@.len() == k,
            forall|j: int| 0 <= j < k ==> list_item_agrees(*(#[trigger] out@[j]).data, *xs@[j].data),
            forall|j: int|
                0 <= j < k ==> (#[trigger] out@[j]).span == xs@[j].span && list_item_compiled(
                    *out@[j].data,
                    *xs@[j].data,
                ),
        decreases xs@.len() - k,
    {
        let ghost x = *xs@[k as int].data;
        assert(match x {
            ast::ListItem::Expr(e) => compilable_expr(e),
            ast::ListItem::Spread(n) => compilable_expr(*n.data),
        });
        let item = match &*xs[k].data {
            ast::ListItem::Expr(e) => ListItem::Expr(compile_expr(e)),
            ast::ListItem::Spread(n) => ListItem::Spread(compile_expr(&n.data)),
        };
        out.push(Node::new(xs[k].span, item));
        k = k + 1;
    }
    out
}

/// Compiles the items of a dictionary display, keeping their places.
pub fn compile_dict(xs: &Vec<Node<ast::DictItem>>) -> (r: Vec<Node<DictItem<Instruction>>>)
    requires
        compilable_dict(xs@),
    ensures
        dicts_agree(r@, xs@),
        dicts_compiled(r@, xs@),
    decreases xs@,
{
    proof {
        lemma_compilable_dict(xs@);
    }
    let mut out: Vec<Node<DictItem<Instruction>>> = Vec::new();
    let mut k: usize = 0;
    while k < xs.len()
        invariant
            k <= xs@.len(),
            forall|j: int|
                0 <= j < xs@.len() ==> match #[trigger] *xs@[j].data {
                    ast::DictItem::KeyVal { key, val } => compilable_expr(*val.data),
                    ast::DictItem::DynKeyVal { key, val } => compilable_expr(*key.data)
                        && compilable_expr(*val.data),
                    ast::DictItem::Shorthand(_) => true,
                    ast::DictItem::Spread(n) => compilable_expr(*n.data),
                },
            out@.len() == k,
            forall|j: int| 0 <= j < k ==> dict_item_agrees(*(#[trigger] out@[j]).data, *xs@[j].data),
            forall|j: int|
                0 <= j < k ==> (#[trigger] out@[j]).span == xs@[j].span && dict_item_compiled(
                    *out@[j].data,
                    *xs@[j].data,
                ),
        decreases xs@.len() - k,
    {
        let ghost x = *xs@[k as int].data;
        assert(match x {
            ast::DictItem::KeyVal { key, val } => compilable_expr(*val.data),
            ast::DictItem::DynKeyVal { key, val } => compilable_expr(*key.data) && compilable_expr(
                *val.data,
            ),
            ast::DictItem::Shorthand(_) => true,
            ast::DictItem::Spread(n) => compilable_expr(*n.data),
        });
        let item = match &*xs[k].data {
            ast::DictItem::KeyVal { key, val } => {
                let v = Node::new(val.span, compile_expr(&val.data));
                proof {
                    lemma_node_agrees(v, *val);
                }
                DictItem::KeyVal { key: Node::new(key.span, key.data.copy()), val: v }
            },
            ast::DictItem::DynKeyVal { key, val } => {
                let kn = Node::new(key.span, compile_expr(&key.data));
                let v = Node::new(val.span, compile_expr(&val.data));
                proof {
                    lemma_node_agrees(kn, *key);
                    lemma_node_agrees(v, *val);
                }
                DictItem::DynKeyVal { key: kn, val: v }
            },
            ast::DictItem::Shorthand(x) => DictItem::Shorthand(x.copy()),
            ast::DictItem::Spread(n) => {
                let v = Node::new(n.span, compile_expr(&n.data));
                proof {
                    lemma_node_agrees(v, *n);
                }
                DictItem::Spread(v)
            },
        };
        out.push(Node::new(xs[k].span, item));
        k = k + 1;
    }
    out
}

/// Whether a dictionary item is known: a key with a known value, or a
/// spread of a known dictionary.
pub open spec fn dict_known(c: DictItem<Instruction>) -> bool {
    match c {
        DictItem::KeyVal { key, val } => *val.data is Value,
        DictItem::Spread(x) => *x.data matches Instruction::Value(Value::Collection(Collection::Dict(_))),
        _ => false,
    }
}

/// The item `c` placed at `span`: a key's value or a spread takes the place
/// too.
pub open spec fn placed_item(c: DictItem<Instruction>, span: Span) -> DictItem<Instruction> {
    match c {
        DictItem::KeyVal { key, val } => DictItem::KeyVal { key, val: BaseNode { span, data: val.data } },
        DictItem::Spread(x) => DictItem::Spread(BaseNode { span, data: x.data }),
        _ => c,
    }
}

/// Moving an item's value to another place changes only what its errors say.
pub proof fn lemma_placed_item(
    c: Node<DictItem<Instruction>>,
    span: Span,
    rest: Seq<Node<DictItem<Instruction>>>,
    m: Table,
    acc: Entries,
)
    ensures
        agree(
            dict_from(seq![BaseNode { span, data: Box::new(placed_item(*c.data, span)) }] + rest, m, acc),
            dict_from(seq![c] + rest, m, acc),
        ),
{
    let a = seq![BaseNode { span, data: Box::new(placed_item(*c.data, span)) }] + rest;
    let b = seq![c] + rest;
    assert(a.subrange(1, a.len() as int) =~= rest);
    assert(b.subrange(1, b.len() as int) =~= rest);
    assert(a[0] == BaseNode { span, data: Box::new(placed_item(*c.data, span)) });
    assert(b[0] == c);
    match *c.data {
        DictItem::KeyVal { key, val } => {
            let pv = BaseNode { span, data: val.data };
            assert(exec_ins(*pv.data, m) == exec_ins(*val.data, m));
            assert(agree_node(exec_node(pv, m), exec_node(val, m)));
        },
        DictItem::Spread(x) => {
            let px = BaseNode { span, data: x.data };
            assert(exec_ins(*px.data, m) == exec_ins(*x.data, m));
            assert(agree_node(exec_node(px, m), exec_node(x, m)));
        },
        _ => {
            assert(placed_item(*c.data, span) == *c.data);
        },
    }
}

/// A dictionary display whose leading items are known has their entries
/// worked out: all known, it becomes the dictionary; else the known entries
/// are spread first, then come the other items.
pub fn fold_dict(cs: Vec<Node<DictItem<Instruction>>>) -> (r: Instruction)
    ensures
        forall|m: Table|
            #[trigger] agree(exec_ins(r, m), exec_ins(Instruction::Action(Action::DictDisplay(cs)), m)),
        (forall|k: int| 0 <= k < cs@.len() ==> dict_known(#[trigger] *cs@[k].data)) ==> r is Value,
        dict_folded(r, cs),
{
    let ghost g = cs@;
    let n = cs.len();
    let mut acc = Dict::new();
    let mut k: usize = 0;
    assert(g.subrange(0, g.len() as int) =~= g);
    while k < n
        invariant
            k <= n,
            n == g.len(),
            g == cs@,
            keys_distinct(dict_entries(acc)),
            forall|j: int| 0 <= j < k ==> dict_known(#[trigger] *g[j].data),
            forall|m: Table|
                #[trigger] dict_from(g, m, Seq::empty()) == dict_from(
                    g.subrange(k as int, n as int),
                    m,
                    dict_entries(acc),
                ),
            lead_count(g) == k + lead_count(g.subrange(k as int, n as int)),
            lead_entries(g, Seq::empty()) == lead_entries(g.subrange(k as int, n as int), dict_entries(acc)),
        ensures
            k < n ==> !dict_known(*g[k as int].data),
            lead_count(g) == k + lead_count(g.subrange(k as int, n as int)),
            lead_entries(g, Seq::empty()) == lead_entries(g.subrange(k as int, n as int), dict_entries(acc)),
        decreases n - k,
    {
        let ghost e0 = dict_entries(acc);
        let ghost rest = g.subrange(k as int, n as int);
        assert(rest[0] == g[k as int]);
        assert(rest.subrange(1, rest.len() as int) =~= g.subrange(k + 1, n as int));
        proof {
            if dict_known(*rest[0].data) {
                lemma_lead_step(rest, e0);
            }
        }
        match &*cs[k].data {
            DictItem::KeyVal { key, val } => match &*val.data {
                Instruction::Value(v) => {
                    proof {
                        lemma_insert_keys(e0, key.data.0@, v@);
                        assert forall|m: Table| #[trigger] dict_from(rest, m, e0) == dict_from(
                            g.subrange(k + 1, n as int),
                            m,
                            entries_insert(e0, key.data.0@, v@),
                        ) by {
                            assert(exec_node(*val, m) == Ok::<(Table, ValueV), Node<Error>>((m, v@)));
                        }
                    }
                    acc.insert(key.data.copy(), v.copy());
                },
                _ => {
                    break ;
                },
            },
            DictItem::Spread(x) => match &*x.data {
                Instruction::Value(Value::Collection(Collection::Dict(d))) => {
                    proof {
                        lemma_merge_distinct(e0, dict_entries(*d));
                        assert forall|m: Table| #[trigger] dict_from(rest, m, e0) == dict_from(
                            g.subrange(k + 1, n as int),
                            m,
                            entries_merge(e0, dict_entries(*d)),
                        ) by {
                            assert(exec_node(*x, m) == Ok::<(Table, ValueV), Node<Error>>(
                                (m, ValueV::Dict(dict_entries(*d))),
                            ));
                        }
                    }
                    merge_into(&mut acc, d.copy());
                },
                _ => {
                    break ;
                },
            },
            _ => {
                break ;
            },
        }
        k = k + 1;
    }
    proof {
        lemma_lead_stop(g.subrange(k as int, n as int), dict_entries(acc));
        if k < n {
            assert(g.subrange(k as int, n as int)[0] == g[k as int]);
        }
    }
    if k == n {
        proof {
            assert forall|m: Table|
                #[trigger] agree(
                    exec_ins(Instruction::Value(Value::Collection(Collection::Dict(acc))), m),
                    exec_ins(Instruction::Action(Action::DictDisplay(cs)), m),
                ) by {
                assert(g.subrange(n as int, n as int) =~= Seq::<Node<DictItem<Instruction>>>::empty());
                assert(dict_from(g, m, Seq::empty()) == dict_from(
                    g.subrange(n as int, n as int),
                    m,
                    dict_entries(acc),
                ));
            }
        }
        return Instruction::Value(Value::Collection(Collection::Dict(acc)));
    }
    let ghost ek = dict_entries(acc);
    let ghost cs0 = cs;
    let mut head = cs;
    let mut rest = head.split_off(k);
    let first = rest.remove(0);
    let ghost c = first;
    let span = first.span;
    let item = match first.data() {
        DictItem::KeyVal { key, val } => DictItem::KeyVal { key, val: Node::new(span, val.data()) },
        DictItem::Spread(x) => DictItem::Spread(Node::new(span, x.data())),
        other => other,
    };
    assert(item == placed_item(*c.data, span));
    let lead = Node::new(
        span,
        DictItem::Spread(Node::new(span, Instruction::Value(Value::Collection(Collection::Dict(acc))))),
    );
    let ghost r0 = rest@;
    let mut out: Vec<Node<DictItem<Instruction>>> = Vec::new();
    out.push(lead);
    out.push(Node::new(span, item));
    out.append(&mut rest);
    proof {
        assert(g.subrange(k as int, n as int) =~= seq![c] + r0);
        lemma_merge_empty(ek);
        assert forall|m: Table|
            #[trigger] agree(
                exec_ins(Instruction::Action(Action::DictDisplay(out)), m),
                exec_ins(Instruction::Action(Action::DictDisplay(cs0)), m),
            ) by {
            let o = out@;
            let tail = seq![BaseNode { span, data: Box::new(placed_item(*c.data, span)) }] + r0;
            assert(o.subrange(1, o.len() as int) =~= tail);
            assert(o[0] == lead);
            assert(exec_node((*lead.data)->Spread_0, m) == Ok::<(Table, ValueV), Node<Error>>(
                (m, ValueV::Dict(ek)),
            ));
            assert(dict_from(o, m, Seq::empty()) == dict_from(tail, m, ek));
            lemma_placed_item(c, span, r0, m, ek);
            assert(dict_from(g, m, Seq::empty()) == dict_from(seq![c] + r0, m, ek));
        }
    }
    Instruction::Action(Action::DictDisplay(out))
}

} // verus!
