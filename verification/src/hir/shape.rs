use vstd::prelude::*;

use super::compile::{dict_known, is_known, known_value, placed_item};
use super::dict::{dict_entries, entries_insert, entries_merge, Entries};
use super::instruction::{Action, DictItem, Instruction, ListItem};
use super::value::{Collection, PrimitiveV, Value, ValueV};
use crate::ast;
use crate::ast::{Atom, Expr, Primary};
use crate::types::node::Node;

verus! {

/// `r` is the instruction that the compiler builds for `e`: a name is read
/// from the variables, a literal is a constant, parentheses vanish, a display
/// is folded from its compiled items (`list_folded`, `dict_folded`), and a
/// block keeps each of its expressions, compiled, in its place.
pub open spec fn compiled(r: Instruction, e: Expr) -> bool
    decreases e,
{
    match e {
        Expr::Primary(Primary::Atom(a)) => match a {
            Atom::Id(x) => r matches Instruction::Variable(y) && y.0@ == x@,
            Atom::Integer(n) => r matches Instruction::Value(v) && v@ == ValueV::Primitive(
                PrimitiveV::Integer(n),
            ),
            Atom::Float(f) => r matches Instruction::Value(v) && v@ == ValueV::Primitive(
                PrimitiveV::Float(f.digits@),
            ),
            Atom::String(s) => r matches Instruction::Value(v) && v@ == ValueV::Primitive(
                PrimitiveV::String(s@),
            ),
            Atom::Paren(x) => compiled(r, *x.data),
            Atom::Tuple(items) => exists|cs: Vec<Node<ListItem<Instruction>>>|
                lists_compiled(cs@, items@) && #[trigger] list_folded(r, cs, true),
            Atom::ListDisplay(items) => exists|cs: Vec<Node<ListItem<Instruction>>>|
                lists_compiled(cs@, items@) && #[trigger] list_folded(r, cs, false),
            Atom::DictDisplay(items) => exists|cs: Vec<Node<DictItem<Instruction>>>|
                dicts_compiled(cs@, items@) && #[trigger] dict_folded(r, cs),
            Atom::Block(xs) => r matches Instruction::Block(b) && nodes_compiled(b.0@, xs@),
            _ => false,
        },
        _ => false,
    }
}

/// Each compiled node holds what the compiler builds for the expression node
/// at the same index, in the same place.
pub open spec fn nodes_compiled(cs: Seq<Node<Instruction>>, xs: Seq<Node<Expr>>) -> bool
    decreases xs,
{
    &&& cs.len() == xs.len()
    &&& forall|k: int|
        #![trigger cs[k]]
        0 <= k < xs.len() ==> cs[k].span == xs[k].span && compiled(*cs[k].data, *xs[k].data)
}

/// A display item compiled: the same kind, holding the compiled expression.
pub open spec fn list_item_compiled(c: ListItem<Instruction>, a: ast::ListItem) -> bool
    decreases a,
{
    match (c, a) {
        (ListItem::Expr(i), ast::ListItem::Expr(e)) => compiled(i, e),
        (ListItem::Spread(i), ast::ListItem::Spread(n)) => compiled(i, *n.data),
        _ => false,
    }
}

/// Each compiled display item matches the item at the same index, in the same
/// place.
pub open spec fn lists_compiled(cs: Seq<Node<ListItem<Instruction>>>, xs: Seq<Node<ast::ListItem>>) -> bool
    decreases xs,
{
    &&& cs.len() == xs.len()
    &&& forall|k: int|
        #![trigger cs[k]]
        0 <= k < xs.len() ==> cs[k].span == xs[k].span && list_item_compiled(*cs[k].data, *xs[k].data)
}

/// A dictionary item compiled: the same kind, keys and values compiled, in
/// their places.
pub open spec fn dict_item_compiled(c: DictItem<Instruction>, a: ast::DictItem) -> bool
    decreases a,
{
    match (c, a) {
        (DictItem::KeyVal { key: k1, val: v1 }, ast::DictItem::KeyVal { key: k2, val: v2 }) => k1.span
            == k2.span && k1.data.0@ == k2.data.0@ && v1.span == v2.span && compiled(*v1.data, *v2.data),
        (DictItem::DynKeyVal { key: k1, val: v1 }, ast::DictItem::DynKeyVal { key: k2, val: v2 }) =>
            k1.span == k2.span && compiled(*k1.data, *k2.data) && v1.span == v2.span && compiled(
                *v1.data,
                *v2.data,
            ),
        (DictItem::Shorthand(x), ast::DictItem::Shorthand(y)) => x.0@ == y.0@,
        (DictItem::Spread(x), ast::DictItem::Spread(y)) => x.span == y.span && compiled(*x.data, *y.data),
        _ => false,
    }
}

/// Each compiled dictionary item matches the item at the same index, in the
/// same place.
pub open spec fn dicts_compiled(cs: Seq<Node<DictItem<Instruction>>>, xs: Seq<Node<ast::DictItem>>) -> bool
    decreases xs,
{
    &&& cs.len() == xs.len()
    &&& forall|k: int|
        #![trigger cs[k]]
        0 <= k < xs.len() ==> cs[k].span == xs[k].span && dict_item_compiled(*cs[k].data, *xs[k].data)
}

/// The known values of display items.
pub open spec fn known_values(cs: Seq<Node<ListItem<Instruction>>>) -> Seq<ValueV> {
    Seq::new(cs.len(), |k: int| known_value(*cs[k].data))
}

/// A tuple (`tuple`) or list display of the compiled items `cs`, folded: when
/// every item is a constant it is the constant collection of their values,
/// else the display of all the items, in order.
pub open spec fn list_folded(r: Instruction, cs: Vec<Node<ListItem<Instruction>>>, tuple: bool) -> bool {
    if forall|k: int| 0 <= k < cs@.len() ==> is_known(#[trigger] *cs@[k].data) {
        r matches Instruction::Value(v) && v@ == (if tuple {
            ValueV::Tuple(known_values(cs@))
        } else {
            ValueV::List(known_values(cs@))
        })
    } else {
        r == (if tuple {
            Instruction::Action(Action::Tuple(cs))
        } else {
            Instruction::Action(Action::ListDisplay(cs))
        })
    }
}

/// The entries `acc` after a known item.
pub open spec fn lead_step(acc: Entries, c: DictItem<Instruction>) -> Entries {
    match c {
        DictItem::KeyVal { key, val } => match *val.data {
            Instruction::Value(v) => entries_insert(acc, key.data.0@, v@),
            _ => acc,
        },
        DictItem::Spread(x) => match *x.data {
            Instruction::Value(Value::Collection(Collection::Dict(d))) => entries_merge(acc, dict_entries(d)),
            _ => acc,
        },
        _ => acc,
    }
}

/// How many items lead `g` that are known.
pub open spec fn lead_count(g: Seq<Node<DictItem<Instruction>>>) -> nat
    decreases g.len(),
{
    if g.len() > 0 && dict_known(*g[0].data) {
        1 + lead_count(g.subrange(1, g.len() as int))
    } else {
        0
    }
}

/// The entries `acc` after the known items that lead `g`, in order: a later
/// value for a key replaces the earlier one and keeps its place.
pub open spec fn lead_entries(g: Seq<Node<DictItem<Instruction>>>, acc: Entries) -> Entries
    decreases g.len(),
{
    if g.len() > 0 && dict_known(*g[0].data) {
        lead_entries(g.subrange(1, g.len() as int), lead_step(acc, *g[0].data))
    } else {
        acc
    }
}

/// A dictionary display of the compiled items `cs`, folded: when every item
/// is known it is the constant dictionary of their entries; else, with `p`
/// known items leading, a spread of the constant dictionary of their entries
/// placed at item `p`, then item `p` with its value moved to its own place,
/// then the items after it, unchanged.
pub open spec fn dict_folded(r: Instruction, cs: Vec<Node<DictItem<Instruction>>>) -> bool {
    let g = cs@;
    let p = lead_count(g) as int;
    let es = lead_entries(g, Seq::empty());
    if p == g.len() {
        r matches Instruction::Value(Value::Collection(Collection::Dict(d))) && dict_entries(d) == es
    } else {
        &&& r matches Instruction::Action(Action::DictDisplay(out))
        &&& out@.len() == g.len() - p + 1
        &&& out@[0].span == g[p].span
        &&& *out@[0].data matches DictItem::Spread(x)
        &&& x.span == g[p].span
        &&& *x.data matches Instruction::Value(Value::Collection(Collection::Dict(d)))
        &&& dict_entries(d) == es
        &&& out@[1].span == g[p].span
        &&& *out@[1].data == placed_item(*g[p].data, g[p].span)
        &&& forall|j: int| 2 <= j < out@.len() ==> #[trigger] out@[j] == g[p + j - 1]
    }
}

/// A leading known item is counted and its entries taken.
pub proof fn lemma_lead_step(g: Seq<Node<DictItem<Instruction>>>, acc: Entries)
    requires
        g.len() > 0,
        dict_known(*g[0].data),
    ensures
        lead_count(g) == 1 + lead_count(g.subrange(1, g.len() as int)),
        lead_entries(g, acc) == lead_entries(g.subrange(1, g.len() as int), lead_step(acc, *g[0].data)),
{
}

/// Items that start with an unknown one (or none) lead with nothing.
pub proof fn lemma_lead_stop(g: Seq<Node<DictItem<Instruction>>>, acc: Entries)
    requires
        g.len() == 0 || !dict_known(*g[0].data),
    ensures
        lead_count(g) == 0,
        lead_entries(g, acc) == acc,
{
}

} // verus!
