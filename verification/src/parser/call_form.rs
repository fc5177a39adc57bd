//! Calls of a name whose arguments are display items: `f()`, `f(a, [1, 2],
//! g(b * 3))`. Where each ends, and the tree each reads as.
use vstd::prelude::*;

use super::atom::atom_of_token;
use super::grammar::ends_at;
use super::nested::{item_end, item_tree};
use super::tok::{is_tok, tok_at};
use crate::ast::{Args, Expr, Primary};
use crate::lexer::token::{Token, TokenV};
use crate::types::node::{BaseNode, Node};
use crate::types::span::span_union;

verus! {

/// Where the closing parenthesis stands after the arguments that start at
/// `a`: display items separated by commas, maybe with one after the last;
/// `-1` when the arguments are not of that form.
#[verifier::opaque]
pub open spec fn args_close(ts: Seq<Node<Token>>, a: int) -> int
    decreases ts.len() - a, 2int,
{
    if is_tok(ts, a, TokenV::RPAREN) {
        a
    } else {
        let k = item_end(ts, a);
        if a < k && is_tok(ts, k, TokenV::COMMA) {
            args_close(ts, k + 1)
        } else if a < k && is_tok(ts, k, TokenV::RPAREN) {
            k
        } else {
            -1
        }
    }
}

/// `v` are the arguments that start at `a`, in order, each the display
/// item in its place read as an expression.
#[verifier::opaque]
pub open spec fn args_tree(ts: Seq<Node<Token>>, a: int, v: Seq<Node<Expr>>) -> bool
    decreases ts.len() - a, 2int,
{
    if is_tok(ts, a, TokenV::RPAREN) {
        v.len() == 0
    } else {
        let k = item_end(ts, a);
        &&& v.len() >= 1
        &&& item_tree(ts, a, v[0])
        &&& if a < k && is_tok(ts, k, TokenV::COMMA) {
            args_tree(ts, k + 1, v.drop_first())
        } else {
            v.len() == 1
        }
    }
}

/// What follows the arguments read so far, `w`, from the end `m` of the
/// last of them: after a comma, the arguments from there; else none.
pub open spec fn args_tail(ts: Seq<Node<Token>>, m: int, w: Seq<Node<Expr>>) -> bool {
    if is_tok(ts, m, TokenV::COMMA) {
        args_tree(ts, m + 1, w)
    } else {
        w.len() == 0
    }
}

/// Where the call of a name that starts at `i` ends, right after its closing
/// parenthesis; `-1` when no such call starts there.
pub open spec fn call_end(ts: Seq<Node<Token>>, i: int) -> int
    decreases ts.len() - i, 0int,
{
    if call_open(ts, i) && args_close(ts, i + 2) >= i + 2 {
        args_close(ts, i + 2) + 1
    } else {
        -1
    }
}

/// A name at `i` and an opening parenthesis right after it.
pub open spec fn call_open(ts: Seq<Node<Token>>, i: int) -> bool {
    0 <= i < ts.len() && tok_at(ts, i) is Id && is_tok(ts, i + 1, TokenV::LPAREN)
}

/// A call of a name with display items as arguments is a whole expression
/// at `i`: the expression ends after its closing parenthesis.
pub open spec fn call_at(ts: Seq<Node<Token>>, i: int) -> bool {
    0 <= i < call_end(ts, i) && ends_at(ts, call_end(ts, i))
}

/// `a` are the arguments in parentheses that open at `i`: the span from the
/// opening to the closing parenthesis, and the arguments in order.
pub open spec fn args_node(ts: Seq<Node<Token>>, i: int, a: Node<Args>) -> bool {
    &&& i + 1 <= args_close(ts, i + 1)
    &&& a.span == span_union(ts[i].span, ts[args_close(ts, i + 1)].span)
    &&& args_tree(ts, i + 1, a.data.0@)
}

/// `p` is the call that starts at `i`: the name, then its arguments.
pub open spec fn call_prim(ts: Seq<Node<Token>>, i: int, p: Node<Primary>) -> bool {
    *p.data matches Primary::Call(f, a) && f.span == ts[i].span && (*f.data matches Primary::Atom(at) && atom_of_token(
        tok_at(ts, i),
        at,
    )) && args_node(ts, i + 1, a) && p.span == span_union(f.span, a.span)
}

/// `x` is the call that starts at `i`, as an expression.
pub open spec fn call_expr(ts: Seq<Node<Token>>, i: int, x: Node<Expr>) -> bool {
    *x.data matches Expr::Primary(p) && call_prim(ts, i, BaseNode { span: x.span, data: Box::new(p) })
}

/// An argument at `a` whose arguments close where those at `a` close ends
/// after `a`, and a comma or the closing parenthesis follows it.
pub proof fn lemma_arg_step(ts: Seq<Node<Token>>, a: int, c: int)
    requires
        args_close(ts, a) == c,
        c >= 0,
        !is_tok(ts, a, TokenV::RPAREN),
    ensures
        a < item_end(ts, a),
        is_tok(ts, item_end(ts, a), TokenV::COMMA) ==> args_close(ts, item_end(ts, a) + 1) == c,
        !is_tok(ts, item_end(ts, a), TokenV::COMMA) ==> is_tok(ts, item_end(ts, a), TokenV::RPAREN) && item_end(ts, a) == c,
{
    reveal(args_close);
}

/// The arguments that start at `a` close at `a` or after it, on a closing
/// parenthesis.
pub proof fn lemma_args_close_after(ts: Seq<Node<Token>>, a: int)
    ensures
        args_close(ts, a) >= 0 ==> a <= args_close(ts, a) && is_tok(ts, args_close(ts, a), TokenV::RPAREN),
    decreases ts.len() - a,
{
    reveal(args_close);
    if !is_tok(ts, a, TokenV::RPAREN) {
        let k = item_end(ts, a);
        if a < k && is_tok(ts, k, TokenV::COMMA) {
            lemma_args_close_after(ts, k + 1);
        }
    }
}

/// No arguments before the closing parenthesis.
pub proof fn lemma_args_empty(ts: Seq<Node<Token>>, a: int)
    requires
        is_tok(ts, a, TokenV::RPAREN),
    ensures
        args_tree(ts, a, Seq::empty()),
        args_close(ts, a) == a,
{
    reveal(args_close);
    reveal(args_tree);
}

/// An argument read at `a` with the arguments after it read from its end:
/// the arguments from `a`.
pub proof fn lemma_args_cons(ts: Seq<Node<Token>>, a: int, x: Node<Expr>, w: Seq<Node<Expr>>)
    requires
        !is_tok(ts, a, TokenV::RPAREN),
        a < item_end(ts, a),
        item_tree(ts, a, x),
        args_tail(ts, item_end(ts, a), w),
    ensures
        args_tree(ts, a, seq![x] + w),
{
    reveal(args_tree);
    assert((seq![x] + w).drop_first() =~= w);
    assert((seq![x] + w)[0] == x);
}

} // verus!
