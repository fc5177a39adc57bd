//! Display items: names, strings and numbers, with a sign or without,
//! dice `d6` and `2d6`, `a op b`, comparisons `a < b`, calls of a name with display items as arguments, and list
//! displays of display items, nested to any depth: where each ends, and the
//! tree each reads as.
use vstd::prelude::*;

use super::grammar::{
    add_tok, arith_at, arith_pair, arith_tok, atom_at, compare_expr, compare_pair, ends_at, eqs_tok, pair_expr, plain_at,
    plain_expr,
};
use super::tok::{is_tok, tok_at};
use super::atom::{atom_of_token, token_admitted};
use super::call_form::{args_close, args_tree, call_at, call_end, call_expr, call_open, lemma_args_close_after};
use crate::ast::{Atom, Expr, ListItem, Op, Primary};
use crate::lexer::token::{Token, TokenV};
use crate::types::node::{BaseNode, Node};
use crate::types::span::span_union;

verus! {

/// Where the display item that starts at `a` ends: after two names,
/// strings or numbers joined by one of `+ - * / %` or compared by one of
/// `== != < <= > >=`, after the closing
/// parenthesis of a call of a name, right after a name, string or number
/// alone or with a sign before it, after a die or a number of dice, or after
/// the closing bracket of a nested list display; `-1` when no such item
/// starts there.
#[verifier::opaque]
pub open spec fn item_end(ts: Seq<Node<Token>>, a: int) -> int
    decreases ts.len() - a, 1int,
{
    if atom_at(ts, a) {
        if arith_tok(ts, a + 1) && atom_at(ts, a + 2) {
            a + 3
        } else if eqs_tok(ts, a + 1) && atom_at(ts, a + 2) {
            a + 3
        } else if call_open(ts, a) {
            call_end(ts, a)
        } else if dice_open(ts, a) {
            a + 3
        } else {
            a + 1
        }
    } else if add_tok(ts, a) && atom_at(ts, a + 1) {
        a + 2
    } else if die_open(ts, a) {
        a + 2
    } else if is_tok(ts, a, TokenV::LBRACKET) {
        list_end(ts, a)
    } else {
        -1
    }
}

/// Where the closing bracket stands after the items that start at `a`:
/// items separated by commas, maybe with one after the last; `-1` when the
/// items are not of that form.
#[verifier::opaque]
pub open spec fn items_close(ts: Seq<Node<Token>>, a: int) -> int
    decreases ts.len() - a, 2int,
{
    if is_tok(ts, a, TokenV::RBRACKET) {
        a
    } else {
        let k = item_end(ts, a);
        if a < k && is_tok(ts, k, TokenV::COMMA) {
            items_close(ts, k + 1)
        } else if a < k && is_tok(ts, k, TokenV::RBRACKET) {
            k
        } else {
            -1
        }
    }
}

/// Where the list display that starts at `i` ends, right after its closing
/// bracket; `-1` when none of this form starts there.
#[verifier::opaque]
pub open spec fn list_end(ts: Seq<Node<Token>>, i: int) -> int
    decreases ts.len() - i, 0int,
{
    if is_tok(ts, i, TokenV::LBRACKET) {
        let k = items_close(ts, i + 1);
        if i < k {
            k + 1
        } else {
            -1
        }
    } else {
        -1
    }
}

/// A sign before a name, string or number that is a whole expression:
/// `-a`, `+1`.
pub open spec fn sign_at(ts: Seq<Node<Token>>, i: int) -> bool {
    add_tok(ts, i) && atom_at(ts, i + 1) && ends_at(ts, i + 2)
}

/// `x` is the sign at `i` applied to the atom after it.
pub open spec fn sign_expr(ts: Seq<Node<Token>>, i: int, x: Node<Expr>) -> bool {
    0 <= i && i + 1 < ts.len() && x.span == span_union(ts[i].span, ts[i + 1].span) && (*x.data matches Expr::Op(
        Op::Unary(op, r),
    ) && arith_at(ts, i, op) && plain_expr(ts, i + 1, r))
}

/// A die `d6` at `i`, or a number of dice `2d6`, that is a whole
/// expression.
pub open spec fn dice_at(ts: Seq<Node<Token>>, i: int) -> bool {
    ||| is_tok(ts, i, TokenV::DIE) && i + 1 < ts.len() && token_admitted(tok_at(ts, i + 1), 4u8) && ends_at(ts, i + 2)
    ||| 0 <= i < ts.len() && token_admitted(tok_at(ts, i), 4u8) && is_tok(ts, i + 1, TokenV::DIE) && i + 2 < ts.len()
        && token_admitted(tok_at(ts, i + 2), 4u8) && ends_at(ts, i + 3)
}

/// A die at `i`: `d`, then a number.
pub open spec fn die_open(ts: Seq<Node<Token>>, i: int) -> bool {
    is_tok(ts, i, TokenV::DIE) && i + 1 < ts.len() && token_admitted(tok_at(ts, i + 1), 4u8)
}

/// Dice at `i`: a number, then a die.
pub open spec fn dice_open(ts: Seq<Node<Token>>, i: int) -> bool {
    0 <= i < ts.len() && token_admitted(tok_at(ts, i), 4u8) && die_open(ts, i + 1)
}

/// Where the die or the dice at `i` end.
pub open spec fn dice_end(ts: Seq<Node<Token>>, i: int) -> int {
    if is_tok(ts, i, TokenV::DIE) {
        i + 2
    } else {
        i + 3
    }
}

/// `x` is the die at `k`: `d` and the number of its faces.
pub open spec fn die_node(ts: Seq<Node<Token>>, k: int, x: Node<Expr>) -> bool {
    0 <= k && k + 1 < ts.len() && x.span == span_union(ts[k].span, ts[k + 1].span) && (*x.data matches Expr::Op(
        Op::Die(n),
    ) && n.span == ts[k + 1].span && atom_of_token(tok_at(ts, k + 1), *n.data))
}

/// `x` is the die or the dice at `i`: the number of dice, then the die.
pub open spec fn dice_expr(ts: Seq<Node<Token>>, i: int, x: Node<Expr>) -> bool {
    if is_tok(ts, i, TokenV::DIE) {
        die_node(ts, i, x)
    } else {
        0 <= i < ts.len() && (*x.data matches Expr::Op(Op::Coefficient(c, d)) && c.span == ts[i].span && atom_of_token(
            tok_at(ts, i),
            *c.data,
        ) && die_node(ts, i + 1, d) && x.span == span_union(c.span, d.span))
    }
}

/// A list display of display items starts at `i`.
pub open spec fn nested_list(ts: Seq<Node<Token>>, i: int) -> bool {
    0 <= i && is_tok(ts, i, TokenV::LBRACKET) && list_end(ts, i) > i
}

/// A `nested_list` at `i` that is a whole expression: the expression ends
/// after its closing bracket.
pub open spec fn nested_at(ts: Seq<Node<Token>>, i: int) -> bool {
    nested_list(ts, i) && is_tok(ts, i, TokenV::LBRACKET) && ends_at(ts, list_end(ts, i))
}

/// `x` is the display item at `a` read as an expression: the operation, the
/// comparison, the call, the atom, the signed atom, the dice, or the nested
/// list display.
#[verifier::opaque]
pub open spec fn item_tree(ts: Seq<Node<Token>>, a: int, x: Node<Expr>) -> bool
    decreases ts.len() - a, 1int,
{
    if atom_at(ts, a) {
        if arith_tok(ts, a + 1) && atom_at(ts, a + 2) {
            pair_expr(ts, a, x)
        } else if eqs_tok(ts, a + 1) && atom_at(ts, a + 2) {
            compare_expr(ts, a, x)
        } else if call_open(ts, a) {
            &&& *x.data matches Expr::Primary(Primary::Call(f, args))
            &&& f.span == ts[a].span
            &&& *f.data matches Primary::Atom(at) && atom_of_token(tok_at(ts, a), at)
            &&& a + 2 <= args_close(ts, a + 2)
            &&& args.span == span_union(ts[a + 1].span, ts[args_close(ts, a + 2)].span)
            &&& x.span == span_union(f.span, args.span)
            &&& args_tree(ts, a + 2, args.data.0@)
        } else if dice_open(ts, a) {
            dice_expr(ts, a, x)
        } else {
            plain_expr(ts, a, x)
        }
    } else if add_tok(ts, a) && atom_at(ts, a + 1) {
        sign_expr(ts, a, x)
    } else if die_open(ts, a) {
        dice_expr(ts, a, x)
    } else {
        *x.data matches Expr::Primary(Primary::Atom(at)) && list_tree(ts, a, BaseNode { span: x.span, data: Box::new(at) })
    }
}

/// `v` are the items that start at `a`, in order, each read as an
/// expression in its place.
#[verifier::opaque]
pub open spec fn items_tree(ts: Seq<Node<Token>>, a: int, v: Seq<Node<ListItem>>) -> bool
    decreases ts.len() - a, 2int,
{
    if is_tok(ts, a, TokenV::RBRACKET) {
        v.len() == 0
    } else {
        let k = item_end(ts, a);
        &&& v.len() >= 1
        &&& (*v[0].data matches ListItem::Expr(e) && item_tree(ts, a, BaseNode { span: v[0].span, data: Box::new(e) }))
        &&& if a < k && is_tok(ts, k, TokenV::COMMA) {
            items_tree(ts, k + 1, v.drop_first())
        } else {
            v.len() == 1
        }
    }
}

/// `a` is the list display that starts at `i`: from its opening to its
/// closing bracket, holding its items in order.
#[verifier::opaque]
pub open spec fn list_tree(ts: Seq<Node<Token>>, i: int, a: Node<Atom>) -> bool
    decreases ts.len() - i, 0int,
{
    if is_tok(ts, i, TokenV::LBRACKET) {
        &&& i < list_end(ts, i)
        &&& a.span == span_union(ts[i].span, ts[list_end(ts, i) - 1].span)
        &&& *a.data matches Atom::ListDisplay(v) && items_tree(ts, i + 1, v@)
    } else {
        false
    }
}

/// `x` is the list display that starts at `i`, as an expression.
pub open spec fn list_expr(ts: Seq<Node<Token>>, i: int, x: Node<Expr>) -> bool {
    *x.data matches Expr::Primary(Primary::Atom(at)) && list_tree(ts, i, BaseNode { span: x.span, data: Box::new(at) })
}

/// What follows the items read so far, `w`, from the end `m` of the last of
/// them: after a comma, the items from there; else none.
pub open spec fn items_tail(ts: Seq<Node<Token>>, m: int, w: Seq<Node<ListItem>>) -> bool {
    if is_tok(ts, m, TokenV::COMMA) {
        items_tree(ts, m + 1, w)
    } else {
        w.len() == 0
    }
}

/// An item at `a` whose items close where those at `a` close ends after `a`,
/// and a comma or the closing bracket follows it.
pub proof fn lemma_item_step(ts: Seq<Node<Token>>, a: int, c: int)
    requires
        items_close(ts, a) == c,
        c >= 0,
        !is_tok(ts, a, TokenV::RBRACKET),
    ensures
        a < item_end(ts, a),
        is_tok(ts, item_end(ts, a), TokenV::COMMA) ==> items_close(ts, item_end(ts, a) + 1) == c,
        !is_tok(ts, item_end(ts, a), TokenV::COMMA) ==> is_tok(ts, item_end(ts, a), TokenV::RBRACKET) && item_end(ts, a) == c,
{
    reveal(item_end);
    reveal(items_close);
    reveal(list_end);
    reveal(items_tree);
    reveal(item_tree);
    reveal(list_tree);
}

/// A list display ends after its opening bracket, at its closing one.
pub proof fn lemma_list_end(ts: Seq<Node<Token>>, i: int)
    requires
        nested_list(ts, i),
    ensures
        is_tok(ts, i, TokenV::LBRACKET),
        items_close(ts, i + 1) == list_end(ts, i) - 1,
        i + 1 <= list_end(ts, i) - 1,
        is_tok(ts, list_end(ts, i) - 1, TokenV::RBRACKET),
        list_end(ts, i) <= ts.len(),
{
    reveal(item_end);
    reveal(items_close);
    reveal(list_end);
    reveal(items_tree);
    reveal(item_tree);
    reveal(list_tree);
    lemma_close_after(ts, i + 1);
}

/// The items that start at `a` close at `a` or after it, on a closing
/// bracket.
pub proof fn lemma_close_after(ts: Seq<Node<Token>>, a: int)
    ensures
        items_close(ts, a) >= 0 ==> a <= items_close(ts, a) && is_tok(ts, items_close(ts, a), TokenV::RBRACKET),
    decreases ts.len() - a,
{
    reveal(item_end);
    reveal(items_close);
    reveal(list_end);
    reveal(items_tree);
    reveal(item_tree);
    reveal(list_tree);
    if !is_tok(ts, a, TokenV::RBRACKET) {
        let k = item_end(ts, a);
        if a < k && is_tok(ts, k, TokenV::COMMA) {
            lemma_close_after(ts, k + 1);
        }
    }
}

/// An item read at `a` with the items after it read from its end: the items
/// from `a`.
pub proof fn lemma_items_cons(ts: Seq<Node<Token>>, a: int, x: Node<ListItem>, w: Seq<Node<ListItem>>)
    requires
        !is_tok(ts, a, TokenV::RBRACKET),
        a < item_end(ts, a),
        *x.data matches ListItem::Expr(e) && item_tree(ts, a, BaseNode { span: x.span, data: Box::new(e) }),
        items_tail(ts, item_end(ts, a), w),
    ensures
        items_tree(ts, a, seq![x] + w),
{
    reveal(item_end);
    reveal(items_close);
    reveal(list_end);
    reveal(items_tree);
    reveal(item_tree);
    reveal(list_tree);
    assert((seq![x] + w).drop_first() =~= w);
    assert((seq![x] + w)[0] == x);
}


/// An item is an atom, ending right after it, or a nested list display.
pub proof fn lemma_item_kinds(ts: Seq<Node<Token>>, a: int)
    requires
        0 <= a < item_end(ts, a),
    ensures
        atom_at(ts, a) && arith_tok(ts, a + 1) && atom_at(ts, a + 2) ==> item_end(ts, a) == a + 3 && (ends_at(
            ts,
            a + 3,
        ) ==> arith_pair(ts, a)),
        atom_at(ts, a) && !(arith_tok(ts, a + 1) && atom_at(ts, a + 2)) && eqs_tok(ts, a + 1) && atom_at(ts, a + 2)
            ==> item_end(ts, a) == a + 3 && (ends_at(ts, a + 3) ==> compare_pair(ts, a)),
        atom_at(ts, a) && !(arith_tok(ts, a + 1) && atom_at(ts, a + 2)) && !(eqs_tok(ts, a + 1) && atom_at(ts, a + 2))
            && !call_open(ts, a) && !dice_open(ts, a) ==> item_end(ts, a) == a + 1 && (ends_at(ts, a + 1) ==> plain_at(
            ts,
            a,
        )),
        atom_at(ts, a) && !(arith_tok(ts, a + 1) && atom_at(ts, a + 2)) && !(eqs_tok(ts, a + 1) && atom_at(ts, a + 2))
            && !call_open(ts, a) && dice_open(ts, a) ==> item_end(ts, a) == a + 3 && (ends_at(ts, a + 3) ==> dice_at(
            ts,
            a,
        ) && dice_end(ts, a) == a + 3),
        atom_at(ts, a) && !(arith_tok(ts, a + 1) && atom_at(ts, a + 2)) && !(eqs_tok(ts, a + 1) && atom_at(ts, a + 2))
            && call_open(ts, a) ==> item_end(ts, a) == call_end(ts, a) && (ends_at(ts, item_end(ts, a)) ==> call_at(ts, a)),
        !atom_at(ts, a) && add_tok(ts, a) ==> item_end(ts, a) == a + 2 && atom_at(ts, a + 1) && (ends_at(ts, a + 2)
            ==> sign_at(ts, a)),
        !atom_at(ts, a) && !add_tok(ts, a) && die_open(ts, a) ==> item_end(ts, a) == a + 2 && (ends_at(ts, a + 2)
            ==> dice_at(ts, a) && dice_end(ts, a) == a + 2),
        !atom_at(ts, a) && !add_tok(ts, a) && !die_open(ts, a) ==> nested_list(ts, a) && item_end(ts, a) == list_end(
            ts,
            a,
        ),
{
    reveal(item_end);
    reveal(items_close);
    reveal(list_end);
    reveal(items_tree);
    reveal(item_tree);
    reveal(list_tree);
    if !atom_at(ts, a) && !add_tok(ts, a) && !die_open(ts, a) {
        assert(is_tok(ts, a, TokenV::LBRACKET));
    }
}

/// The tree of an atom item, or of a nested list item.
pub proof fn lemma_item_tree_of(ts: Seq<Node<Token>>, a: int, x: Node<Expr>)
    ensures
        atom_at(ts, a) && arith_tok(ts, a + 1) && atom_at(ts, a + 2) && pair_expr(ts, a, x) ==> item_tree(ts, a, x),
        atom_at(ts, a) && !(arith_tok(ts, a + 1) && atom_at(ts, a + 2)) && eqs_tok(ts, a + 1) && atom_at(ts, a + 2)
            && compare_expr(ts, a, x) ==> item_tree(ts, a, x),
        atom_at(ts, a) && !(arith_tok(ts, a + 1) && atom_at(ts, a + 2)) && !(eqs_tok(ts, a + 1) && atom_at(ts, a + 2))
            && !call_open(ts, a) && !dice_open(ts, a) && plain_expr(ts, a, x) ==> item_tree(ts, a, x),
        atom_at(ts, a) && !(arith_tok(ts, a + 1) && atom_at(ts, a + 2)) && !(eqs_tok(ts, a + 1) && atom_at(ts, a + 2))
            && !call_open(ts, a) && dice_open(ts, a) && dice_expr(ts, a, x) ==> item_tree(ts, a, x),
        atom_at(ts, a) && !(arith_tok(ts, a + 1) && atom_at(ts, a + 2)) && !(eqs_tok(ts, a + 1) && atom_at(ts, a + 2))
            && call_open(ts, a) && call_expr(ts, a, x) ==> item_tree(ts, a, x),
        !atom_at(ts, a) && add_tok(ts, a) && atom_at(ts, a + 1) && sign_expr(ts, a, x) ==> item_tree(ts, a, x),
        !atom_at(ts, a) && !add_tok(ts, a) && die_open(ts, a) && dice_expr(ts, a, x) ==> item_tree(ts, a, x),
        !atom_at(ts, a) && !add_tok(ts, a) && !die_open(ts, a) && list_expr(ts, a, x) ==> item_tree(ts, a, x),
{
    reveal(item_end);
    reveal(items_close);
    reveal(list_end);
    reveal(items_tree);
    reveal(item_tree);
    reveal(list_tree);
    reveal(args_tree);
    reveal(args_close);
}

/// No items before the closing bracket.
pub proof fn lemma_items_empty(ts: Seq<Node<Token>>, a: int)
    requires
        is_tok(ts, a, TokenV::RBRACKET),
    ensures
        items_tree(ts, a, Seq::empty()),
        items_close(ts, a) == a,
{
    reveal(item_end);
    reveal(items_close);
    reveal(list_end);
    reveal(items_tree);
    reveal(item_tree);
    reveal(list_tree);
}

/// `[]` is a list display that ends after its closing bracket.
pub proof fn lemma_empty_list(ts: Seq<Node<Token>>, i: int, a: Node<Atom>)
    requires
        is_tok(ts, i, TokenV::LBRACKET),
        is_tok(ts, i + 1, TokenV::RBRACKET),
    ensures
        list_end(ts, i) == i + 2,
        a.span == span_union(ts[i].span, ts[i + 1].span) && (*a.data matches Atom::ListDisplay(v) && v@.len() == 0)
            ==> list_tree(ts, i, a),
{
    reveal(item_end);
    reveal(items_close);
    reveal(list_end);
    reveal(items_tree);
    reveal(item_tree);
    reveal(list_tree);
    if let Atom::ListDisplay(v) = *a.data {
        if v@.len() == 0 {
            assert(v@ =~= Seq::<Node<ListItem>>::empty());
        }
    }
}

/// A list display whose items were read in order, from its opening to its
/// closing bracket.
pub proof fn lemma_list_close(ts: Seq<Node<Token>>, i: int, a: Node<Atom>, v: Seq<Node<ListItem>>)
    requires
        nested_list(ts, i),
        items_tree(ts, i + 1, v),
        a.span == span_union(ts[i].span, ts[list_end(ts, i) - 1].span),
        *a.data matches Atom::ListDisplay(w) && w@ == v,
    ensures
        list_tree(ts, i, a),
{
    reveal(item_end);
    reveal(items_close);
    reveal(list_end);
    reveal(items_tree);
    reveal(item_tree);
    reveal(list_tree);
}


/// Two token sequences with the same tokens in the same places.
pub open spec fn same_tokens(ts1: Seq<Node<Token>>, ts2: Seq<Node<Token>>) -> bool {
    &&& ts1.len() == ts2.len()
    &&& forall|k: int| 0 <= k < ts1.len() ==> #[trigger] tok_at(ts1, k) == tok_at(ts2, k) && ts1[k].span == ts2[k].span
}

/// Where items and list displays end depends only on the tokens.
pub proof fn lemma_same_ends(ts1: Seq<Node<Token>>, ts2: Seq<Node<Token>>, a: int)
    requires
        same_tokens(ts1, ts2),
    ensures
        item_end(ts1, a) == item_end(ts2, a),
        items_close(ts1, a) == items_close(ts2, a),
        list_end(ts1, a) == list_end(ts2, a),
        args_close(ts1, a) == args_close(ts2, a),
    decreases ts1.len() - a,
{
    reveal(args_close);
    reveal(item_end);
    reveal(items_close);
    reveal(list_end);
    reveal(items_tree);
    reveal(item_tree);
    reveal(list_tree);
    if 0 <= a < ts1.len() {
        assert(tok_at(ts1, a) == tok_at(ts2, a));
        if a + 1 < ts1.len() {
            assert(tok_at(ts1, a + 1) == tok_at(ts2, a + 1));
        }
        if a + 2 < ts1.len() {
            assert(tok_at(ts1, a + 2) == tok_at(ts2, a + 2));
        }
        lemma_same_ends(ts1, ts2, a + 1);
        if a + 2 <= ts1.len() {
            lemma_same_ends(ts1, ts2, a + 2);
        }
        assert(call_end(ts1, a) == call_end(ts2, a));
        assert(item_end(ts1, a) == item_end(ts2, a));
        let k = item_end(ts1, a);
        if a < k && k < ts1.len() {
            assert(tok_at(ts1, k) == tok_at(ts2, k));
            lemma_same_ends(ts1, ts2, k + 1);
            assert(items_close(ts1, k + 1) == items_close(ts2, k + 1));
            assert(args_close(ts1, k + 1) == args_close(ts2, k + 1));
        }
        assert(items_close(ts1, a) == items_close(ts2, a));
        assert(args_close(ts1, a) == args_close(ts2, a));
    } else {
        assert(item_end(ts1, a) == -1 && item_end(ts2, a) == -1);
    }
}

/// The trees of items and list displays depend only on the tokens.
pub proof fn lemma_same_trees(ts1: Seq<Node<Token>>, ts2: Seq<Node<Token>>, a: int)
    requires
        same_tokens(ts1, ts2),
    ensures
        forall|x: Node<Expr>| item_tree(ts1, a, x) == item_tree(ts2, a, x),
        forall|v: Seq<Node<ListItem>>| items_tree(ts1, a, v) == items_tree(ts2, a, v),
        forall|at: Node<Atom>| list_tree(ts1, a, at) == list_tree(ts2, a, at),
        forall|v: Seq<Node<Expr>>| args_tree(ts1, a, v) == args_tree(ts2, a, v),
    decreases ts1.len() - a,
{
    reveal(args_tree);
    reveal(args_close);
    reveal(item_end);
    reveal(items_close);
    reveal(list_end);
    reveal(items_tree);
    reveal(item_tree);
    reveal(list_tree);
    lemma_same_ends(ts1, ts2, a);
    if 0 <= a < ts1.len() {
        assert(tok_at(ts1, a) == tok_at(ts2, a));
        if a + 1 < ts1.len() {
            assert(tok_at(ts1, a + 1) == tok_at(ts2, a + 1));
        }
        if a + 2 < ts1.len() {
            assert(tok_at(ts1, a + 2) == tok_at(ts2, a + 2));
        }
        lemma_same_trees(ts1, ts2, a + 1);
        if a + 2 <= ts1.len() {
            lemma_same_trees(ts1, ts2, a + 2);
            lemma_same_ends(ts1, ts2, a + 2);
            let c = args_close(ts1, a + 2);
            if 0 <= c < ts1.len() {
                assert(tok_at(ts1, c) == tok_at(ts2, c));
            }
        }
        let k = item_end(ts1, a);
        if a < k && k < ts1.len() {
            assert(tok_at(ts1, k) == tok_at(ts2, k));
            lemma_same_trees(ts1, ts2, k + 1);
        }
        if nested_list(ts1, a) {
            lemma_list_end(ts1, a);
            let e = list_end(ts1, a);
            assert(tok_at(ts1, e - 1) == tok_at(ts2, e - 1));
        }
        assert forall|at: Node<Atom>| list_tree(ts1, a, at) == list_tree(ts2, a, at) by {
            if let Atom::ListDisplay(w) = *at.data {
                assert(items_tree(ts1, a + 1, w@) == items_tree(ts2, a + 1, w@));
            }
            assert(ts1[a].span == ts2[a].span);
        }
        assert forall|x: Node<Expr>| item_tree(ts1, a, x) == item_tree(ts2, a, x) by {
            assert(ts1[a].span == ts2[a].span);
            if a + 1 < ts1.len() {
                assert(ts1[a + 1].span == ts2[a + 1].span);
            }
            if a + 2 < ts1.len() {
                assert(ts1[a + 2].span == ts2[a + 2].span);
            }
            if let Expr::Primary(Primary::Atom(at)) = *x.data {
                assert(list_tree(ts1, a, BaseNode { span: x.span, data: Box::new(at) }) == list_tree(
                    ts2,
                    a,
                    BaseNode { span: x.span, data: Box::new(at) },
                ));
            }
            if let Expr::Primary(Primary::Call(f, args)) = *x.data {
                if call_open(ts1, a) {
                    assert(args_tree(ts1, a + 2, args.data.0@) == args_tree(ts2, a + 2, args.data.0@));
                    assert(args_close(ts1, a + 2) == args_close(ts2, a + 2));
                    let c = args_close(ts1, a + 2);
                    if 0 <= c < ts1.len() {
                        assert(ts1[c].span == ts2[c].span);
                    }
                }
            }
            if atom_at(ts1, a) && arith_tok(ts1, a + 1) && atom_at(ts1, a + 2) {
                assert(pair_expr(ts1, a, x) == pair_expr(ts2, a, x));
                assert(item_tree(ts1, a, x) == item_tree(ts2, a, x));
            } else if atom_at(ts1, a) && !call_open(ts1, a) {
                assert(plain_expr(ts1, a, x) == plain_expr(ts2, a, x));
                assert(item_tree(ts1, a, x) == item_tree(ts2, a, x));
            } else if atom_at(ts1, a) {
                assert(call_open(ts2, a));
                assert(atom_at(ts2, a));
                assert(!(arith_tok(ts2, a + 1) && atom_at(ts2, a + 2)));
                if let Expr::Primary(Primary::Call(f, args)) = *x.data {
                    let c = args_close(ts1, a + 2);
                    assert(args_close(ts2, a + 2) == c);
                    assert(args_tree(ts1, a + 2, args.data.0@) == args_tree(ts2, a + 2, args.data.0@));
                    if 0 <= c < ts1.len() {
                        assert(ts1[c].span == ts2[c].span);
                    }
                    assert(ts1[a + 1].span == ts2[a + 1].span);
                    assert(tok_at(ts1, a) == tok_at(ts2, a));
                    if item_tree(ts1, a, x) {
                        assert(a + 2 <= c);
                        assert(0 <= c < ts1.len()) by {
                            lemma_args_close_after(ts1, a + 2);
                        }
                    }
                    if item_tree(ts2, a, x) {
                        assert(a + 2 <= c);
                        assert(0 <= c < ts1.len()) by {
                            lemma_args_close_after(ts2, a + 2);
                        }
                    }
                }
                assert(item_tree(ts1, a, x) == item_tree(ts2, a, x));
            } else {
                assert(item_tree(ts1, a, x) == item_tree(ts2, a, x));
            }
        }
        assert forall|v: Seq<Node<ListItem>>| items_tree(ts1, a, v) == items_tree(ts2, a, v) by {
            if v.len() >= 1 {
                if let ListItem::Expr(e0) = *v[0].data {
                    assert(item_tree(ts1, a, BaseNode { span: v[0].span, data: Box::new(e0) }) == item_tree(
                        ts2,
                        a,
                        BaseNode { span: v[0].span, data: Box::new(e0) },
                    ));
                }
                if a < k && k < ts1.len() {
                    assert(items_tree(ts1, k + 1, v.drop_first()) == items_tree(ts2, k + 1, v.drop_first()));
                }
            }
        }
        assert forall|v: Seq<Node<Expr>>| args_tree(ts1, a, v) == args_tree(ts2, a, v) by {
            if v.len() >= 1 {
                assert(item_tree(ts1, a, v[0]) == item_tree(ts2, a, v[0]));
                if a < k && k < ts1.len() {
                    assert(args_tree(ts1, k + 1, v.drop_first()) == args_tree(ts2, k + 1, v.drop_first()));
                }
            }
        }
    } else {
        assert forall|x: Node<Expr>| item_tree(ts1, a, x) == item_tree(ts2, a, x) by {
            if let Expr::Primary(Primary::Atom(at)) = *x.data {
                assert(!list_tree(ts1, a, BaseNode { span: x.span, data: Box::new(at) }));
                assert(!list_tree(ts2, a, BaseNode { span: x.span, data: Box::new(at) }));
            }
        }
        assert forall|v: Seq<Node<ListItem>>| items_tree(ts1, a, v) == items_tree(ts2, a, v) by {
            if v.len() >= 1 {
                if let ListItem::Expr(e0) = *v[0].data {
                    assert(item_tree(ts1, a, BaseNode { span: v[0].span, data: Box::new(e0) }) == item_tree(
                        ts2,
                        a,
                        BaseNode { span: v[0].span, data: Box::new(e0) },
                    ));
                }
            }
        }
        assert forall|v: Seq<Node<Expr>>| args_tree(ts1, a, v) == args_tree(ts2, a, v) by {
            if v.len() >= 1 {
                assert(item_tree(ts1, a, v[0]) == item_tree(ts2, a, v[0]));
            }
        }
    }
}

} // verus!
