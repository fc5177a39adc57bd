use vstd::prelude::*;

use super::{
    Atom, DictItem, Expr, Id, ListItem, Primary, Target, TargetDictItem, TargetExpr, TargetListItem,
};
use crate::types::node::Node;

verus! {

/// Whether an expression is a name or a display of targets, so that it can
/// stand on the left of an assignment.
pub open spec fn expr_is_target(e: Expr) -> bool
    decreases e,
{
    match e {
        Expr::Primary(Primary::Atom(a)) => atom_is_target(a),
        _ => false,
    }
}

pub open spec fn atom_is_target(a: Atom) -> bool
    decreases a,
{
    match a {
        Atom::Id(_) => true,
        Atom::Paren(x) => expr_is_target(*x.data),
        Atom::Tuple(x) => forall|i: int|
            0 <= i < x@.len() ==> list_item_is_target(*(#[trigger] x@[i]).data),
        Atom::ListDisplay(x) => forall|i: int|
            0 <= i < x@.len() ==> list_item_is_target(*(#[trigger] x@[i]).data),
        Atom::DictDisplay(x) => forall|i: int|
            0 <= i < x@.len() ==> dict_item_is_target(*(#[trigger] x@[i]).data),
        _ => false,
    }
}

pub open spec fn list_item_is_target(li: ListItem) -> bool
    decreases li,
{
    match li {
        ListItem::Expr(e) => expr_is_target(e),
        ListItem::Spread(x) => expr_is_target(*x.data),
    }
}

pub open spec fn dict_item_is_target(d: DictItem) -> bool
    decreases d,
{
    match d {
        DictItem::Shorthand(_) => true,
        DictItem::Spread(x) => expr_is_target(*x.data),
        DictItem::KeyVal { key, val } => expr_is_target(*val.data),
        DictItem::DynKeyVal { .. } => false,
    }
}

/// The target `t` is what the expression `e` reads as: names stay names,
/// a parenthesized target becomes a tuple of one, tuple, list and dictionary
/// displays become the targets of the same shape, item by item.
pub open spec fn expr_target(e: Expr, t: Target) -> bool
    decreases e,
{
    match e {
        Expr::Primary(Primary::Atom(a)) => atom_target(a, t),
        _ => false,
    }
}

pub open spec fn atom_target(a: Atom, t: Target) -> bool
    decreases a,
{
    match a {
        Atom::Id(x) => t matches Target::Id(y) && y@ == x@,
        Atom::Paren(x) => t matches Target::TargetTuple(v) && v@.len() == 1 && paren_target(x, v@[0]),
        Atom::Tuple(x) => t matches Target::TargetTuple(v) && list_items_target(x@, v@),
        Atom::ListDisplay(x) => t matches Target::TargetList(v) && list_items_target(x@, v@),
        Atom::DictDisplay(x) => t matches Target::TargetDict(v) && dict_items_target(x@, v@),
        _ => false,
    }
}

/// The one item of the tuple that a parenthesized target reads as.
pub open spec fn paren_target(x: Node<Expr>, v: Node<TargetListItem<Target>>) -> bool
    decreases x,
{
    v.span == x.span && (*v.data matches TargetListItem::Target(tt) && expr_target(*x.data, tt))
}

/// Items of a tuple or list display, read one by one as target items.
pub open spec fn list_items_target(x: Seq<Node<ListItem>>, v: Seq<Node<TargetListItem<Target>>>) -> bool
    decreases x,
{
    x.len() == v.len() && (x.len() > 0 ==> list_item_target(x[0], v[0]) && list_items_target(
        x.subrange(1, x.len() as int),
        v.subrange(1, v.len() as int),
    ))
}

/// An item `e` reads as a target item at the item's span; `...e` as a spread
/// target at the span of `e`.
pub open spec fn list_item_target(li: Node<ListItem>, v: Node<TargetListItem<Target>>) -> bool
    decreases li,
{
    match *li.data {
        ListItem::Expr(e) => v.span == li.span && (*v.data matches TargetListItem::Target(tt)
            && expr_target(e, tt)),
        ListItem::Spread(e) => v.span == e.span && (*v.data matches TargetListItem::Spread(tn)
            && tn.span == e.span && expr_target(*e.data, *tn.data)),
    }
}

/// Items of a dictionary display, read one by one as target items.
pub open spec fn dict_items_target(x: Seq<Node<DictItem>>, v: Seq<Node<TargetDictItem<Target>>>) -> bool
    decreases x,
{
    x.len() == v.len() && (x.len() > 0 ==> dict_item_target(x[0], v[0]) && dict_items_target(
        x.subrange(1, x.len() as int),
        v.subrange(1, v.len() as int),
    ))
}

/// Items read one by one make the items read as a whole.
proof fn lemma_list_items_target(x: Seq<Node<ListItem>>, v: Seq<Node<TargetListItem<Target>>>)
    requires
        x.len() == v.len(),
        forall|k: int| 0 <= k < x.len() ==> #[trigger] list_item_target(x[k], v[k]),
    ensures
        list_items_target(x, v),
    decreases x.len(),
{
    if x.len() > 0 {
        let x1 = x.subrange(1, x.len() as int);
        let v1 = v.subrange(1, v.len() as int);
        assert forall|k: int| 0 <= k < x1.len() implies #[trigger] list_item_target(x1[k], v1[k]) by {
            assert(x1[k] == x[k + 1] && v1[k] == v[k + 1]);
        }
        lemma_list_items_target(x1, v1);
        assert(list_item_target(x[0], v[0]));
    }
}

/// Items read one by one make the items read as a whole.
proof fn lemma_dict_items_target(x: Seq<Node<DictItem>>, v: Seq<Node<TargetDictItem<Target>>>)
    requires
        x.len() == v.len(),
        forall|k: int| 0 <= k < x.len() ==> #[trigger] dict_item_target(x[k], v[k]),
    ensures
        dict_items_target(x, v),
    decreases x.len(),
{
    if x.len() > 0 {
        let x1 = x.subrange(1, x.len() as int);
        let v1 = v.subrange(1, v.len() as int);
        assert forall|k: int| 0 <= k < x1.len() implies #[trigger] dict_item_target(x1[k], v1[k]) by {
            assert(x1[k] == x[k + 1] && v1[k] == v[k + 1]);
        }
        lemma_dict_items_target(x1, v1);
        assert(dict_item_target(x[0], v[0]));
    }
}

/// `name` reads as the target `name`, `...e` as a spread target at the span
/// of `e`, `name: e` as the pair of `name` and the target of `e`.
pub open spec fn dict_item_target(d: Node<DictItem>, v: Node<TargetDictItem<Target>>) -> bool
    decreases d,
{
    match *d.data {
        DictItem::Shorthand(id) => v.span == d.span && (*v.data matches TargetDictItem::Target(
            Target::Id(y),
        ) && y@ == id.0@),
        DictItem::Spread(e) => v.span == e.span && (*v.data matches TargetDictItem::Spread(tn)
            && tn.span == e.span && expr_target(*e.data, *tn.data)),
        DictItem::KeyVal { key, val } => v.span == d.span && (*v.data matches TargetDictItem::Pair {
            key: k2,
            val: tn,
        } && k2.span == key.span && k2.data.0@ == key.data.0@ && tn.span == val.span && expr_target(
            *val.data,
            *tn.data,
        )),
        DictItem::DynKeyVal { .. } => false,
    }
}

/// Reads an expression as an assignment target; fails unless
/// `expr_is_target` holds.
pub fn expr_to_target(val: &Node<Expr>) -> (r: Result<Node<Target>, ()>)
    ensures
        r matches Ok(t) ==> expr_target(*val.data, *t.data),
        r is Ok <==> expr_is_target(*val.data),
        r matches Ok(t) ==> t.span == val.span,
    decreases val,
{
    match &*val.data {
        Expr::Primary(Primary::Atom(x)) => atom_to_target(val.span, x),
        _ => Err(()),
    }
}

/// Reads an atom at `span` as an assignment target.
pub fn atom_to_target(span: crate::types::span::Span, val: &Atom) -> (r: Result<Node<Target>, ()>)
    ensures
        r matches Ok(t) ==> atom_target(*val, *t.data),
        r is Ok <==> atom_is_target(*val),
        r matches Ok(t) ==> t.span == span,
    decreases val,
{
    match val {
        Atom::Id(x) => Ok(Node::new(span, Target::Id(x.clone()))),
        Atom::Paren(x) => {
            let t = expr_to_target(x)?;
            let item = Node::new(t.span, TargetListItem::Target(*t.data));
            assert(paren_target(*x, item));
            let mut v: Vec<Node<TargetListItem<Target>>> = Vec::new();
            v.push(item);
            Ok(Node::new(span, Target::TargetTuple(v)))
        },
        Atom::Tuple(x) => {
            let y = list_items_to_target(val, x)?;
            Ok(Node::new(span, Target::TargetTuple(y)))
        },
        Atom::ListDisplay(x) => {
            let y = list_items_to_target(val, x)?;
            Ok(Node::new(span, Target::TargetList(y)))
        },
        Atom::DictDisplay(x) => {
            let mut y: Vec<Node<TargetDictItem<Target>>> = Vec::new();
            let mut i: usize = 0;
            while i < x.len()
                invariant
                    i <= x@.len(),
                    *val == Atom::DictDisplay(*x),
                    y@.len() == i,
                    forall|j: int| 0 <= j < i ==> dict_item_is_target(*(#[trigger] x@[j]).data),
                    forall|j: int| 0 <= j < i ==> #[trigger] dict_item_target(x@[j], y@[j]),
                decreases x@.len() - i,
            {
                let item = &x[i];
                proof {
                    assert(decreases_to!(*val => val->DictDisplay_0));
                    assert(decreases_to!(val->DictDisplay_0 => x@));
                    assert(decreases_to!(x@ => x@[i as int]));
                    assert(decreases_to!(x@[i as int] => x@[i as int].data));
                }
                let t = match &*item.data {
                    DictItem::Shorthand(id) => Node::new(
                        item.span,
                        TargetDictItem::Target(Target::Id(id.0.clone())),
                    ),
                    DictItem::Spread(e) => {
                        let t = match expr_to_target(e) {
                            Ok(t) => t,
                            Err(()) => {
                                assert(!dict_item_is_target(*x@[i as int].data));
                                return Err(());
                            },
                        };
                        Node::new(t.span, TargetDictItem::Spread(t))
                    },
                    DictItem::KeyVal { key, val: v } => {
                        let t = match expr_to_target(v) {
                            Ok(t) => t,
                            Err(()) => {
                                assert(!dict_item_is_target(*x@[i as int].data));
                                return Err(());
                            },
                        };
                        Node::new(
                            item.span,
                            TargetDictItem::Pair { key: Node::new(key.span, Id(key.data.0.clone())), val: t },
                        )
                    },
                    DictItem::DynKeyVal { .. } => {
                        assert(!dict_item_is_target(*x@[i as int].data));
                        return Err(());
                    },
                };
                y.push(t);
                i = i + 1;
            }
            proof {
                lemma_dict_items_target(x@, y@);
            }
            Ok(Node::new(span, Target::TargetDict(y)))
        },
        _ => Err(()),
    }
}

/// Reads the items of a tuple or list display as target items.
fn list_items_to_target(parent: &Atom, x: &Vec<Node<ListItem>>) -> (r: Result<
    Vec<Node<TargetListItem<Target>>>,
    (),
>)
    requires
        *parent == Atom::Tuple(*x) || *parent == Atom::ListDisplay(*x),
    ensures
        r matches Ok(y) ==> list_items_target(x@, y@),
        r is Ok <==> forall|i: int| 0 <= i < x@.len() ==> list_item_is_target(*(#[trigger] x@[i]).data),
        r matches Ok(y) ==> y@.len() == x@.len(),
    decreases parent, 0nat,
{
    let mut y: Vec<Node<TargetListItem<Target>>> = Vec::new();
    let mut i: usize = 0;
    while i < x.len()
        invariant
            i <= x@.len(),
            y@.len() == i,
            *parent == Atom::Tuple(*x) || *parent == Atom::ListDisplay(*x),
            forall|j: int| 0 <= j < i ==> list_item_is_target(*(#[trigger] x@[j]).data),
            forall|j: int| 0 <= j < i ==> #[trigger] list_item_target(x@[j], y@[j]),
        decreases x@.len() - i,
    {
        let item = &x[i];
        proof {
            if *parent is Tuple {
                assert(decreases_to!(*parent => parent->Tuple_0));
            } else {
                assert(decreases_to!(*parent => parent->ListDisplay_0));
            }
            assert(decreases_to!(*x => x@));
            assert(decreases_to!(x@ => x@[i as int]));
            assert(decreases_to!(x@[i as int] => x@[i as int].data));
        }
        let t = match &*item.data {
            ListItem::Expr(e) => {
                let t = match atom_expr_to_target(item.span, e) {
                    Ok(t) => t,
                    Err(()) => {
                        assert(!list_item_is_target(*x@[i as int].data));
                        return Err(());
                    },
                };
                Node::new(t.span, TargetListItem::Target(*t.data))
            },
            ListItem::Spread(e) => {
                let t = match expr_to_target(e) {
                    Ok(t) => t,
                    Err(()) => {
                        assert(!list_item_is_target(*x@[i as int].data));
                        return Err(());
                    },
                };
                Node::new(t.span, TargetListItem::Spread(t))
            },
        };
        y.push(t);
        i = i + 1;
    }
    proof {
        lemma_list_items_target(x@, y@);
    }
    Ok(y)
}

/// Reads an expression at `span` as an assignment target.
pub fn atom_expr_to_target(span: crate::types::span::Span, e: &Expr) -> (r: Result<Node<Target>, ()>)
    ensures
        r matches Ok(t) ==> expr_target(*e, *t.data),
        r is Ok <==> expr_is_target(*e),
        r matches Ok(t) ==> t.span == span,
    decreases e,
{
    match e {
        Expr::Primary(Primary::Atom(x)) => atom_to_target(span, x),
        _ => Err(()),
    }
}

/// `te` is the target `t` with nothing changed but its type: the same names,
/// shapes and spans.
pub open spec fn target_copy(t: Target, te: TargetExpr) -> bool
    decreases t,
{
    match t {
        Target::Id(x) => te matches TargetExpr::Id(y) && y@ == x@,
        Target::TargetTuple(v) => te matches TargetExpr::TargetTuple(w) && list_copy(v@, w@),
        Target::TargetList(v) => te matches TargetExpr::TargetList(w) && list_copy(v@, w@),
        Target::TargetDict(v) => te matches TargetExpr::TargetDict(w) && dict_copy(v@, w@),
    }
}

pub open spec fn list_copy(v: Seq<Node<TargetListItem<Target>>>, w: Seq<Node<TargetListItem<TargetExpr>>>) -> bool
    decreases v,
{
    v.len() == w.len() && (v.len() > 0 ==> list_item_copy(v[0], w[0]) && list_copy(
        v.subrange(1, v.len() as int),
        w.subrange(1, w.len() as int),
    ))
}

pub open spec fn list_item_copy(a: Node<TargetListItem<Target>>, b: Node<TargetListItem<TargetExpr>>) -> bool
    decreases a,
{
    b.span == a.span && match *a.data {
        TargetListItem::Spread(n) => *b.data matches TargetListItem::Spread(m) && m.span == n.span
            && target_copy(*n.data, *m.data),
        TargetListItem::Target(t) => *b.data matches TargetListItem::Target(te) && target_copy(t, te),
    }
}

pub open spec fn dict_copy(v: Seq<Node<TargetDictItem<Target>>>, w: Seq<Node<TargetDictItem<TargetExpr>>>) -> bool
    decreases v,
{
    v.len() == w.len() && (v.len() > 0 ==> dict_item_copy(v[0], w[0]) && dict_copy(
        v.subrange(1, v.len() as int),
        w.subrange(1, w.len() as int),
    ))
}

pub open spec fn dict_item_copy(a: Node<TargetDictItem<Target>>, b: Node<TargetDictItem<TargetExpr>>) -> bool
    decreases a,
{
    b.span == a.span && match *a.data {
        TargetDictItem::Pair { key, val } => *b.data matches TargetDictItem::Pair { key: k2, val: v2 }
            && k2.span == key.span && k2.data.0@ == key.data.0@ && v2.span == val.span && target_copy(
            *val.data,
            *v2.data,
        ),
        TargetDictItem::Spread(n) => *b.data matches TargetDictItem::Spread(m) && m.span == n.span
            && target_copy(*n.data, *m.data),
        TargetDictItem::Target(t) => *b.data matches TargetDictItem::Target(te) && target_copy(t, te),
    }
}

proof fn lemma_list_copy(v: Seq<Node<TargetListItem<Target>>>, w: Seq<Node<TargetListItem<TargetExpr>>>)
    requires
        v.len() == w.len(),
        forall|k: int| 0 <= k < v.len() ==> #[trigger] list_item_copy(v[k], w[k]),
    ensures
        list_copy(v, w),
    decreases v.len(),
{
    if v.len() > 0 {
        let v1 = v.subrange(1, v.len() as int);
        let w1 = w.subrange(1, w.len() as int);
        assert forall|k: int| 0 <= k < v1.len() implies #[trigger] list_item_copy(v1[k], w1[k]) by {
            assert(v1[k] == v[k + 1] && w1[k] == w[k + 1]);
        }
        lemma_list_copy(v1, w1);
        assert(list_item_copy(v[0], w[0]));
    }
}

proof fn lemma_dict_copy(v: Seq<Node<TargetDictItem<Target>>>, w: Seq<Node<TargetDictItem<TargetExpr>>>)
    requires
        v.len() == w.len(),
        forall|k: int| 0 <= k < v.len() ==> #[trigger] dict_item_copy(v[k], w[k]),
    ensures
        dict_copy(v, w),
    decreases v.len(),
{
    if v.len() > 0 {
        let v1 = v.subrange(1, v.len() as int);
        let w1 = w.subrange(1, w.len() as int);
        assert forall|k: int| 0 <= k < v1.len() implies #[trigger] dict_item_copy(v1[k], w1[k]) by {
            assert(v1[k] == v[k + 1] && w1[k] == w[k + 1]);
        }
        lemma_dict_copy(v1, w1);
        assert(dict_item_copy(v[0], w[0]));
    }
}

/// `te` is the target, without default values, that the expression `e`
/// reads as.
pub open spec fn expr_target_expr(e: Expr, te: TargetExpr) -> bool {
    exists|t: Target| #[trigger] expr_target(e, t) && target_copy(t, te)
}

/// The same target, read as a target without default values.
pub fn target_to_target_expr(t: &Target) -> (r: TargetExpr)
    ensures
        target_copy(*t, r),
        t is Id <==> r is Id,
        t is TargetTuple <==> r is TargetTuple,
        t is TargetList <==> r is TargetList,
        t is TargetDict <==> r is TargetDict,
    decreases t,
{
    match t {
        Target::Id(x) => TargetExpr::Id(x.clone()),
        Target::TargetTuple(x) => TargetExpr::TargetTuple(list_items_to_target_expr(t, x)),
        Target::TargetList(x) => TargetExpr::TargetList(list_items_to_target_expr(t, x)),
        Target::TargetDict(x) => {
            let mut y: Vec<Node<TargetDictItem<TargetExpr>>> = Vec::new();
            let mut i: usize = 0;
            while i < x.len()
                invariant
                    i <= x@.len(),
                    y@.len() == i,
                    *t == Target::TargetDict(*x),
                    forall|j: int| 0 <= j < i ==> #[trigger] dict_item_copy(x@[j], y@[j]),
                decreases x@.len() - i,
            {
                let item = &x[i];
                proof {
                    assert(decreases_to!(*t => t->TargetDict_0));
                    assert(decreases_to!(t->TargetDict_0 => x@));
                    assert(decreases_to!(x@ => x@[i as int]));
                    assert(decreases_to!(x@[i as int] => x@[i as int].data));
                }
                let d = match &*item.data {
                    TargetDictItem::Pair { key, val } => TargetDictItem::Pair {
                        key: Node::new(key.span, Id(key.data.0.clone())),
                        val: Node::new(val.span, target_to_target_expr(&val.data)),
                    },
                    TargetDictItem::Spread(v) => TargetDictItem::Spread(
                        Node::new(v.span, target_to_target_expr(&v.data)),
                    ),
                    TargetDictItem::Target(v) => TargetDictItem::Target(target_to_target_expr(v)),
                };
                y.push(Node::new(item.span, d));
                i = i + 1;
            }
            proof {
                lemma_dict_copy(x@, y@);
            }
            TargetExpr::TargetDict(y)
        },
    }
}

/// The items of a tuple or list target, read as targets without defaults.
pub fn list_items_to_target_expr(parent: &Target, x: &Vec<Node<TargetListItem<Target>>>) -> (r: Vec<
    Node<TargetListItem<TargetExpr>>,
>)
    requires
        *parent == Target::TargetTuple(*x) || *parent == Target::TargetList(*x),
    ensures
        list_copy(x@, r@),
        r@.len() == x@.len(),
    decreases parent, 0nat,
{
    let mut y: Vec<Node<TargetListItem<TargetExpr>>> = Vec::new();
    let mut i: usize = 0;
    while i < x.len()
        invariant
            i <= x@.len(),
            y@.len() == i,
            *parent == Target::TargetTuple(*x) || *parent == Target::TargetList(*x),
            forall|j: int| 0 <= j < i ==> #[trigger] list_item_copy(x@[j], y@[j]),
        decreases x@.len() - i,
    {
        let item = &x[i];
        proof {
            if *parent is TargetTuple {
                assert(decreases_to!(*parent => parent->TargetTuple_0));
            } else {
                assert(decreases_to!(*parent => parent->TargetList_0));
            }
            assert(decreases_to!(*x => x@));
            assert(decreases_to!(x@ => x@[i as int]));
            assert(decreases_to!(x@[i as int] => x@[i as int].data));
        }
        let d = match &*item.data {
            TargetListItem::Spread(v) => TargetListItem::Spread(
                Node::new(v.span, target_to_target_expr(&v.data)),
            ),
            TargetListItem::Target(v) => TargetListItem::Target(target_to_target_expr(v)),
        };
        y.push(Node::new(item.span, d));
        i = i + 1;
    }
    proof {
        lemma_list_copy(x@, y@);
    }
    y
}

/// The parameter item that a tuple or list item reads as.
pub open spec fn list_item_param(li: Node<ListItem>, r: Node<TargetListItem<TargetExpr>>) -> bool {
    match *li.data {
        ListItem::Expr(e) => r.span == li.span && (*r.data matches TargetListItem::Target(te)
            && expr_target_expr(e, te)),
        ListItem::Spread(e) => r.span == e.span && (*r.data matches TargetListItem::Spread(m)
            && m.span == e.span && expr_target_expr(*e.data, *m.data)),
    }
}

/// The parameter item that a dictionary item reads as.
pub open spec fn dict_item_param(d: Node<DictItem>, r: Node<TargetDictItem<TargetExpr>>) -> bool {
    match *d.data {
        DictItem::Shorthand(id) => r.span == d.span && (*r.data matches TargetDictItem::Target(
            TargetExpr::Id(y),
        ) && y@ == id.0@),
        DictItem::Spread(e) => r.span == e.span && (*r.data matches TargetDictItem::Spread(m)
            && m.span == e.span && expr_target_expr(*e.data, *m.data)),
        DictItem::KeyVal { key, val } => r.span == d.span && (*r.data matches TargetDictItem::Pair {
            key: k2,
            val: v2,
        } && k2.span == key.span && k2.data.0@ == key.data.0@ && v2.span == val.span
            && expr_target_expr(*val.data, *v2.data)),
        DictItem::DynKeyVal { .. } => false,
    }
}

/// Reads an item of a list or tuple display as an item of a target with
/// default values.
pub fn list_item_to_target_expr(val: &Node<ListItem>) -> (r: Result<Node<TargetListItem<TargetExpr>>, ()>)
    ensures
        r matches Ok(x) ==> list_item_param(*val, x),
        r is Ok <==> list_item_is_target(*val.data),
{
    match &*val.data {
        ListItem::Expr(e) => {
            let t = atom_expr_to_target(val.span, e)?;
            Ok(Node::new(val.span, TargetListItem::Target(target_to_target_expr(&t.data))))
        },
        ListItem::Spread(e) => {
            let t = expr_to_target(e)?;
            let span = t.span;
            let te = Node::new(span, target_to_target_expr(&t.data));
            Ok(Node::new(span, TargetListItem::Spread(te)))
        },
    }
}

/// Reads an item of a dictionary display as an item of a target with default
/// values.
pub fn dict_item_to_target_expr(val: &Node<DictItem>) -> (r: Result<Node<TargetDictItem<TargetExpr>>, ()>)
    ensures
        r matches Ok(x) ==> dict_item_param(*val, x),
        r is Ok <==> dict_item_is_target(*val.data),
{
    match &*val.data {
        DictItem::Shorthand(id) => Ok(
            Node::new(val.span, TargetDictItem::Target(TargetExpr::Id(id.0.clone()))),
        ),
        DictItem::Spread(e) => {
            let t = expr_to_target(e)?;
            let span = t.span;
            let te = Node::new(span, target_to_target_expr(&t.data));
            Ok(Node::new(span, TargetDictItem::Spread(te)))
        },
        DictItem::KeyVal { key, val: v } => {
            let t = expr_to_target(v)?;
            let te = Node::new(t.span, target_to_target_expr(&t.data));
            Ok(
                Node::new(
                    val.span,
                    TargetDictItem::Pair { key: Node::new(key.span, Id(key.data.0.clone())), val: te },
                ),
            )
        },
        DictItem::DynKeyVal { .. } => Err(()),
    }
}

/// Reads an expression as a name.
pub fn expr_to_id(val: &Node<Expr>) -> (r: Result<Node<Id>, ()>)
    ensures
        r is Ok <==> (*val.data matches Expr::Primary(Primary::Atom(Atom::Id(_)))),
        r matches Ok(n) ==> n.span == val.span && (*val.data matches Expr::Primary(
            Primary::Atom(Atom::Id(s)),
        ) && n.data.0 == s),
{
    match &*val.data {
        Expr::Primary(Primary::Atom(Atom::Id(x))) => Ok(Node::new(val.span, Id(x.clone()))),
        _ => Err(()),
    }
}

} // verus!
