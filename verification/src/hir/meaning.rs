use vstd::prelude::*;

use super::dict::{entries_insert, entries_merge, Entries};
use super::instruction::{wrap, Error, Outcome, Table};
use super::symbol::table_get;
use super::value::{undefined, PrimitiveV, ValueV};
use crate::ast::{Atom, DictItem, Expr, ExprTop, ListItem, Primary};
use crate::types::node::Node;

verus! {

/// Whether a program is made only of what the compiler handles: names,
/// literals, parentheses, tuple, list and dictionary displays, and blocks.
pub open spec fn compilable_expr(e: Expr) -> bool
    decreases e,
{
    match e {
        Expr::Primary(Primary::Atom(a)) => match a {
            Atom::Id(_) => true,
            Atom::Integer(_) => true,
            Atom::Float(_) => true,
            Atom::String(_) => true,
            Atom::Paren(x) => compilable_expr(*x.data),
            Atom::Tuple(items) => compilable_list(items@),
            Atom::ListDisplay(items) => compilable_list(items@),
            Atom::DictDisplay(items) => compilable_dict(items@),
            Atom::Block(xs) => compilable_exprs(xs@),
            _ => false,
        },
        _ => false,
    }
}

/// Every expression of `s` is compilable.
pub open spec fn compilable_exprs(s: Seq<Node<Expr>>) -> bool
    decreases s,
{
    s.len() == 0 || (compilable_expr(*s[0].data) && compilable_exprs(s.subrange(1, s.len() as int)))
}

/// Every item of `s` is compilable.
pub open spec fn compilable_list(s: Seq<Node<ListItem>>) -> bool
    decreases s,
{
    s.len() == 0 || ((match *s[0].data {
        ListItem::Expr(e) => compilable_expr(e),
        ListItem::Spread(n) => compilable_expr(*n.data),
    }) && compilable_list(s.subrange(1, s.len() as int)))
}

/// Every item of `s` is compilable.
pub open spec fn compilable_dict(s: Seq<Node<DictItem>>) -> bool
    decreases s,
{
    s.len() == 0 || ((match *s[0].data {
        DictItem::KeyVal { key, val } => compilable_expr(*val.data),
        DictItem::DynKeyVal { key, val } => compilable_expr(*key.data) && compilable_expr(*val.data),
        DictItem::Shorthand(_) => true,
        DictItem::Spread(n) => compilable_expr(*n.data),
    }) && compilable_dict(s.subrange(1, s.len() as int)))
}

/// Whether the compiler handles the whole program.
pub open spec fn compilable_top(p: ExprTop) -> bool {
    compilable_exprs(p.0@)
}

/// What evaluating an expression on the variables `m` gives.
pub open spec fn eval_expr(e: Expr, m: Table) -> Outcome
    decreases e,
{
    match e {
        Expr::Primary(Primary::Atom(a)) => match a {
            Atom::Id(x) => Ok(table_get(m, x@)),
            Atom::Integer(x) => Ok((m, ValueV::Primitive(PrimitiveV::Integer(x)))),
            Atom::Float(f) => Ok((m, ValueV::Primitive(PrimitiveV::Float(f.digits@)))),
            Atom::String(s) => Ok((m, ValueV::Primitive(PrimitiveV::String(s@)))),
            Atom::Paren(x) => eval_expr(*x.data, m),
            Atom::Tuple(items) => match eval_list(items@, m, Seq::empty()) {
                Ok((m2, vs)) => Ok((m2, ValueV::Tuple(vs))),
                Err(e) => Err(e),
            },
            Atom::ListDisplay(items) => match eval_list(items@, m, Seq::empty()) {
                Ok((m2, vs)) => Ok((m2, ValueV::List(vs))),
                Err(e) => Err(e),
            },
            Atom::DictDisplay(items) => match eval_dict(items@, m, Seq::empty()) {
                Ok((m2, es)) => Ok((m2, ValueV::Dict(es))),
                Err(e) => Err(e),
            },
            Atom::Block(xs) => eval_block(xs@, m, undefined()),
            _ => Err(Error::Never),
        },
        _ => Err(Error::Never),
    }
}

/// Evaluating a node: an error gets the node's place unless it has one.
pub open spec fn eval_node(n: Node<Expr>, m: Table) -> Result<(Table, ValueV), Node<Error>>
    decreases n,
{
    match eval_expr(*n.data, m) {
        Ok(x) => Ok(x),
        Err(e) => Err(wrap(n.span, e)),
    }
}

/// Evaluating expressions in order after a value `v`: the last value.
pub open spec fn eval_block(s: Seq<Node<Expr>>, m: Table, v: ValueV) -> Outcome
    decreases s,
{
    if s.len() == 0 {
        Ok((m, v))
    } else {
        match eval_node(s[0], m) {
            Ok((m2, v2)) => eval_block(s.subrange(1, s.len() as int), m2, v2),
            Err(x) => Err(Error::Node(x)),
        }
    }
}

/// The values of display items, after those in `acc`; a spread item adds the
/// values of a list or tuple.
pub open spec fn eval_list(s: Seq<Node<ListItem>>, m: Table, acc: Seq<ValueV>) -> Result<
    (Table, Seq<ValueV>),
    Error,
>
    decreases s,
{
    if s.len() == 0 {
        Ok((m, acc))
    } else {
        let rest = s.subrange(1, s.len() as int);
        match *s[0].data {
            ListItem::Expr(x) => match eval_expr(x, m) {
                Ok((m2, v)) => eval_list(rest, m2, acc.push(v)),
                Err(e) => Err(e),
            },
            ListItem::Spread(n) => match eval_expr(*n.data, m) {
                Ok((m2, ValueV::List(vs))) => eval_list(rest, m2, acc + vs),
                Ok((m2, ValueV::Tuple(vs))) => eval_list(rest, m2, acc + vs),
                Ok(_) => Err(Error::TypeMismatch),
                Err(e) => Err(e),
            },
        }
    }
}

/// The entries of dictionary items, inserted in order into `acc`; a name
/// alone stands for itself and its value, a spread item adds a dictionary.
pub open spec fn eval_dict(s: Seq<Node<DictItem>>, m: Table, acc: Entries) -> Result<
    (Table, Entries),
    Error,
>
    decreases s,
{
    if s.len() == 0 {
        Ok((m, acc))
    } else {
        let rest = s.subrange(1, s.len() as int);
        match *s[0].data {
            DictItem::KeyVal { key, val } => match eval_node(val, m) {
                Ok((m2, v)) => eval_dict(rest, m2, entries_insert(acc, key.data.0@, v)),
                Err(x) => Err(Error::Node(x)),
            },
            DictItem::DynKeyVal { key, val } => match eval_node(key, m) {
                Ok((m2, ValueV::Primitive(PrimitiveV::String(k)))) => match eval_node(val, m2) {
                    Ok((m3, v)) => eval_dict(rest, m3, entries_insert(acc, k, v)),
                    Err(x) => Err(Error::Node(x)),
                },
                Ok(_) => Err(Error::TypeMismatch),
                Err(x) => Err(Error::Node(x)),
            },
            DictItem::Shorthand(k) => {
                let (m2, v) = table_get(m, k.0@);
                eval_dict(rest, m2, entries_insert(acc, k.0@, v))
            },
            DictItem::Spread(x) => match eval_node(x, m) {
                Ok((m2, ValueV::Dict(es))) => eval_dict(rest, m2, entries_merge(acc, es)),
                Ok(_) => Err(Error::TypeMismatch),
                Err(x) => Err(Error::Node(x)),
            },
        }
    }
}

/// What running a whole program gives: the value of its last expression.
pub open spec fn eval_top(p: ExprTop, m: Table) -> Outcome {
    eval_block(p.0@, m, undefined())
}

/// Two outcomes agree: both fail, or both succeed alike.
pub open spec fn agree<T>(a: Result<T, Error>, b: Result<T, Error>) -> bool {
    &&& (a is Ok <==> b is Ok)
    &&& (a is Ok ==> a == b)
}

/// Two node outcomes agree: both fail, or both succeed alike.
pub open spec fn agree_node<T>(a: Result<T, Node<Error>>, b: Result<T, Node<Error>>) -> bool {
    &&& (a is Ok <==> b is Ok)
    &&& (a is Ok ==> a == b)
}

/// Whether the compiler handles an expression.
pub fn check_expr(e: &Expr) -> (r: bool)
    ensures
        r == compilable_expr(*e),
    decreases e,
{
    match e {
        Expr::Primary(Primary::Atom(a)) => match a {
            Atom::Id(_) => true,
            Atom::Integer(_) => true,
            Atom::Float(_) => true,
            Atom::String(_) => true,
            Atom::Paren(x) => check_expr(&x.data),
            Atom::Tuple(items) => check_list(items),
            Atom::ListDisplay(items) => check_list(items),
            Atom::DictDisplay(items) => check_dict(items),
            Atom::Block(xs) => check_exprs(xs),
            _ => false,
        },
        _ => false,
    }
}

/// Whether the compiler handles every expression node.
pub fn check_exprs(s: &Vec<Node<Expr>>) -> (r: bool)
    ensures
        r == compilable_exprs(s@),
    decreases s@,
{
    let mut k: usize = 0;
    assert(s@.subrange(0, s@.len() as int) =~= s@);
    while k < s.len()
        invariant
            k <= s@.len(),
            compilable_exprs(s@) == compilable_exprs(s@.subrange(k as int, s@.len() as int)),
        decreases s@.len() - k,
    {
        let ghost rest = s@.subrange(k as int, s@.len() as int);
        assert(rest[0] == s@[k as int]);
        assert(rest.subrange(1, rest.len() as int) =~= s@.subrange(k + 1, s@.len() as int));
        if !check_expr(&s[k].data) {
            return false;
        }
        k = k + 1;
    }
    true
}

/// Whether the compiler handles every display item.
pub fn check_list(s: &Vec<Node<ListItem>>) -> (r: bool)
    ensures
        r == compilable_list(s@),
    decreases s@,
{
    let mut k: usize = 0;
    assert(s@.subrange(0, s@.len() as int) =~= s@);
    while k < s.len()
        invariant
            k <= s@.len(),
            compilable_list(s@) == compilable_list(s@.subrange(k as int, s@.len() as int)),
        decreases s@.len() - k,
    {
        let ghost rest = s@.subrange(k as int, s@.len() as int);
        assert(rest[0] == s@[k as int]);
        assert(rest.subrange(1, rest.len() as int) =~= s@.subrange(k + 1, s@.len() as int));
        let ok = match &*s[k].data {
            ListItem::Expr(e) => check_expr(e),
            ListItem::Spread(n) => check_expr(&n.data),
        };
        if !ok {
            return false;
        }
        k = k + 1;
    }
    true
}

/// Whether the compiler handles every dictionary item.
pub fn check_dict(s: &Vec<Node<DictItem>>) -> (r: bool)
    ensures
        r == compilable_dict(s@),
    decreases s@,
{
    let mut k: usize = 0;
    assert(s@.subrange(0, s@.len() as int) =~= s@);
    while k < s.len()
        invariant
            k <= s@.len(),
            compilable_dict(s@) == compilable_dict(s@.subrange(k as int, s@.len() as int)),
        decreases s@.len() - k,
    {
        let ghost rest = s@.subrange(k as int, s@.len() as int);
        assert(rest[0] == s@[k as int]);
        assert(rest.subrange(1, rest.len() as int) =~= s@.subrange(k + 1, s@.len() as int));
        let ok = match &*s[k].data {
            DictItem::KeyVal { key, val } => check_expr(&val.data),
            DictItem::DynKeyVal { key, val } => check_expr(&key.data) && check_expr(&val.data),
            DictItem::Shorthand(_) => true,
            DictItem::Spread(n) => check_expr(&n.data),
        };
        if !ok {
            return false;
        }
        k = k + 1;
    }
    true
}

/// Whether the compiler handles a whole program.
pub fn is_compilable(p: &ExprTop) -> (r: bool)
    ensures
        r == compilable_top(*p),
{
    check_exprs(&p.0)
}

} // verus!
