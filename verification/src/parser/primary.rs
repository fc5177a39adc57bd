use vstd::prelude::*;

use super::atom::{atom, atom_of_token, token_admitted};
use super::grammar::{
    args_rel, atom_stop, call_split, eitems_exact, enclosed, no_atom_at, plain_at, plain_expr, primary_rel,
    sub_split,
};
use super::error::{append, clean, err_ok, res_adv, Error, NomKind, PErr, PResult};
use super::expr::expr;
use super::tok::{get0, is_tok, opt_tag, tok_at, token_tag, token_tag_id};
use crate::ast::{Args, Expr, Id, Primary};
use crate::lexer::token::{Token, TokenV};
use crate::types::node::{BaseNode, Node};
use crate::types::span::{span_union, Span};

use super::nested::{item_end, lemma_item_kinds, lemma_item_tree_of, list_end, list_tree, nested_at, nested_list};
use super::call_form::{
    args_close, args_node, args_tree, call_at, call_end, call_prim, lemma_arg_step, lemma_args_close_after, lemma_args_cons,
    lemma_args_empty,
};
verus! {

/// What may follow a primary: an attribute, a subscription or a call.
#[derive(Debug)]
pub enum Suffix {
    /// `.name`
    Attribute(Node<Id>),
    /// `[a, b]`, with the spans of its brackets.
    Subscription(Span, Vec<Node<Expr>>, Span),
    /// `(a, b)`
    Call(Node<Args>),
}

/// The suffix `suf` is read from `ts[i..j]`.
pub open spec fn suffix_rel(ts: Seq<Node<Token>>, i: int, j: int, suf: Suffix) -> bool {
    match suf {
        Suffix::Attribute(id) => j == i + 2 && is_tok(ts, i, TokenV::DOT) && is_tok(
            ts,
            i + 1,
            TokenV::Id(id.data.0@),
        ) && id.span == ts[i + 1].span,
        Suffix::Subscription(lhs, vals, rhs) => enclosed(
            ts,
            i,
            j,
            span_union(lhs, rhs),
            TokenV::LBRACKET,
            TokenV::RBRACKET,
        ) && lhs == ts[i].span && rhs == ts[j - 1].span && vals@.len() >= 1,
        Suffix::Call(args) => enclosed(ts, i, j, args.span, TokenV::LPAREN, TokenV::RPAREN),
    }
}

/// The expressions that the suffix `suf` at `ts[i..j]` holds.
pub open spec fn suffix_content(ts: Seq<Node<Token>>, i: int, j: int, suf: Suffix) -> bool {
    match suf {
        Suffix::Attribute(_) => true,
        Suffix::Subscription(_, vals, _) => eitems_exact(ts, i + 1, j - 1, vals@),
        Suffix::Call(args) => args_rel(ts, i + 1, j - 1, args.data.0@),
    }
}

/// A primary: an atom followed by any number of suffixes.
pub fn primary(ts: &[Node<Token>], i: usize) -> (r: PResult<Node<Primary>>)
    requires
        i <= ts@.len(),
    ensures
        nested_at(ts@, i as int) ==> (r matches Ok((j, p)) && j == list_end(ts@, i as int) && (*p.data matches Primary::Atom(a) && list_tree(ts@, i as int, BaseNode { span: p.span, data: Box::new(a) }))),
        call_at(ts@, i as int) ==> (r matches Ok((j, p)) && j == call_end(ts@, i as int) && call_prim(ts@, i as int, p)),
        no_atom_at(ts@, i as int) ==> r matches Err(PErr::Error(_)),
        atom_stop(ts@, i as int) ==> (r matches Ok((j, p)) && j == i + 1 && p.span == ts@[i as int].span
            && (*p.data matches Primary::Atom(a) && atom_of_token(tok_at(ts@, i as int), a))),
        res_adv(r, ts@, i as int),
        r matches Ok((j, p)) ==> primary_rel(ts@, i as int, j as int, p.span, *p.data),
    decreases ts@.len() - i, 11int,
{
    let (mut j, mut iter) = primary_node(ts, i)?;
    loop
        invariant
            i < j <= ts@.len(),
            clean(ts@, i as int, j as int),
            primary_rel(ts@, i as int, j as int, iter.span, *iter.data),
            !no_atom_at(ts@, i as int),
            atom_stop(ts@, i as int) ==> (j == i + 1 && iter.span == ts@[i as int].span && (*iter.data matches Primary::Atom(a)
                && atom_of_token(tok_at(ts@, i as int), a))),
            nested_at(ts@, i as int) ==> (j == list_end(ts@, i as int) && (*iter.data matches Primary::Atom(a) && list_tree(
                ts@,
                i as int,
                BaseNode { span: iter.span, data: Box::new(a) },
            ))),
            call_at(ts@, i as int) ==> ((j == i + 1 && iter.span == ts@[i as int].span && (*iter.data matches Primary::Atom(a)
                && atom_of_token(tok_at(ts@, i as int), a))) || (j == call_end(ts@, i as int) && call_prim(ts@, i as int, iter))),
        decreases ts@.len() - j,
    {
        match primary_iter(ts, j) {
            Ok((k, Suffix::Attribute(val))) => {
                let span = iter.span.add(val.span);
                iter = Node::new(span, Primary::Attribute(iter, val));
                j = k;
            },
            Ok((k, Suffix::Subscription(lhs, val, rhs))) => {
                let ghost q = iter;
                let ghost j0 = j as int;
                let ghost vs = val@;
                iter = Node::new(lhs.add(rhs), Primary::Subscription(iter, val));
                j = k;
                assert(sub_split(ts@, i as int, j as int, iter.span, q, vs)) by {
                    assert(enclosed(ts@, j0, j as int, iter.span, TokenV::LBRACKET, TokenV::RBRACKET));
                }
            },
            Ok((k, Suffix::Call(val))) => {
                let ghost q = iter;
                let span = iter.span.add(val.span);
                let ghost j0 = j as int;
                let ghost vs = val.data.0@;
                let ghost es = val.span;
                iter = Node::new(span, Primary::Call(iter, val));
                j = k;
                assert(call_split(ts@, i as int, j as int, q, es, vs)) by {
                    assert(enclosed(ts@, j0, j as int, es, TokenV::LPAREN, TokenV::RPAREN));
                }
            },
            Err(PErr::Error(_)) => {
                return Ok((j, iter));
            },
            Err(e) => {
                return Err(e);
            },
        }
    }
}

/// One suffix of a primary.
pub fn primary_iter(ts: &[Node<Token>], i: usize) -> (r: PResult<Suffix>)
    requires
        i <= ts@.len(),
    ensures
        is_tok(ts@, i as int, TokenV::DOT) && i + 1 < ts@.len() && tok_at(ts@, i + 1) is Id ==> (r matches Ok((j, Suffix::Attribute(n)))
            && j == i + 2 && n.span == ts@[i + 1].span && tok_at(ts@, i + 1) == TokenV::Id(n.data.0@)),
        is_tok(ts@, i as int, TokenV::LPAREN) && is_tok(ts@, i + 1, TokenV::RPAREN) ==> (r matches Ok((j, Suffix::Call(a)))
            && j == i + 2 && a.data.0@.len() == 0),
        is_tok(ts@, i as int, TokenV::LBRACKET) && plain_at(ts@, i + 1) && is_tok(ts@, i + 2, TokenV::RBRACKET) ==> (r matches Ok(
            (j, Suffix::Subscription(_, v, _)),
        ) && j == i + 3 && v@.len() == 1 && plain_expr(ts@, i + 1, v@[0])),
        no_atom_at(ts@, i as int) || is_tok(ts@, i as int, TokenV::LBRACE) ==> r matches Err(PErr::Error(_)),
        is_tok(ts@, i as int, TokenV::LPAREN) && i + 1 <= args_close(ts@, i + 1) ==> (r matches Ok((j, Suffix::Call(a)))
            && j == args_close(ts@, i + 1) + 1 && args_node(ts@, i as int, a)),
        r matches Ok((j, suf)) ==> suffix_content(ts@, i as int, j as int, suf),
        res_adv(r, ts@, i as int),
        r matches Ok((j, suf)) ==> suffix_rel(ts@, i as int, j as int, suf),
    decreases ts@.len() - i, 10int,
{
    match attribute(ts, i) {
        Ok((j, val)) => {
            return Ok((j, Suffix::Attribute(val)));
        },
        Err(PErr::Error(_)) => {},
        Err(e) => {
            return Err(e);
        },
    }
    match subscription(ts, i) {
        Ok((j, (lhs, val, rhs))) => {
            return Ok((j, Suffix::Subscription(lhs, val, rhs)));
        },
        Err(PErr::Error(_)) => {},
        Err(e) => {
            return Err(e);
        },
    }
    match call(ts, i) {
        Ok((j, val)) => Ok((j, Suffix::Call(val))),
        Err(PErr::Error(last)) => Err(
            PErr::Error(
                append(get0(ts, i), NomKind::Alt, last),
            ),
        ),
        Err(e) => Err(e),
    }
}

/// `.name`
pub fn attribute(ts: &[Node<Token>], i: usize) -> (r: PResult<Node<Id>>)
    requires
        i <= ts@.len(),
    ensures
        !is_tok(ts@, i as int, TokenV::DOT) ==> r matches Err(PErr::Error(_)),
        r is Ok <==> (is_tok(ts@, i as int, TokenV::DOT) && i + 1 < ts@.len() && (*ts@[i + 1].data)@ is Id),
        r matches Ok((j, n)) ==> j == i + 2 && n.span == ts@[i + 1].span && (*ts@[i + 1].data)@
            == TokenV::Id(n.data.0@),
        r is Err ==> r->Err_0 is Error && err_ok(r->Err_0, ts@, i as int),
{
    let (j, _) = token_tag(ts, i, &Token::DOT)?;
    token_tag_id(ts, j)
}

/// `[a, b, ...]`: one or more expressions between brackets.
pub fn subscription(ts: &[Node<Token>], i: usize) -> (r: PResult<(Span, Vec<Node<Expr>>, Span)>)
    requires
        i <= ts@.len(),
    ensures
        is_tok(ts@, i as int, TokenV::LBRACKET) && plain_at(ts@, i + 1) && is_tok(ts@, i + 2, TokenV::RBRACKET) ==> (r matches Ok(
            (j, (l, v, rr)),
        ) && j == i + 3 && l == ts@[i as int].span && rr == ts@[i + 2].span && v@.len() == 1 && plain_expr(ts@, i + 1, v@[0])),
        !is_tok(ts@, i as int, TokenV::LBRACKET) ==> r matches Err(PErr::Error(_)),
        r matches Ok((j, (_, val, _))) ==> eitems_exact(ts@, i + 1, j - 1, val@),
        res_adv(r, ts@, i as int),
        r matches Ok((j, (lhs, val, rhs))) ==> lhs == ts@[i as int].span && val@.len() >= 1
            && is_tok(ts@, i as int, TokenV::LBRACKET) && is_tok(ts@, j - 1, TokenV::RBRACKET)
            && rhs == ts@[j - 1].span,
    decreases ts@.len() - i, 9int,
{
    let ghost one = is_tok(ts@, i as int, TokenV::LBRACKET) && plain_at(ts@, i + 1) && is_tok(ts@, i + 2, TokenV::RBRACKET);
    let (j, lhs) = token_tag(ts, i, &Token::LBRACKET)?;
    let (mut k, first) = expr(ts, j)?;
    let mut vals: Vec<Node<Expr>> = Vec::new();
    vals.push(first);
    assert(eitems_exact(ts@, j as int, k as int, vals@));
    loop
        invariant
            is_tok(ts@, i as int, TokenV::LBRACKET),
            j <= k <= ts@.len(),
            vals@.len() >= 1,
            i < j,
            j == i + 1,
            clean(ts@, i as int, k as int),
            eitems_exact(ts@, j as int, k as int, vals@),
            one == (is_tok(ts@, i as int, TokenV::LBRACKET) && plain_at(ts@, i + 1) && is_tok(ts@, i + 2, TokenV::RBRACKET)),
            one ==> k == i + 2 && vals@.len() == 1 && plain_expr(ts@, i + 1, vals@[0]),
        decreases ts@.len() - k,
    {
        match opt_tag(ts, k, &Token::COMMA) {
            Some((k1, _)) => match expr(ts, k1) {
                Ok((k2, v)) => {
                    let ghost old_vals = vals@;
                    let ghost k0 = k as int;
                    vals.push(v);
                    k = k2;
                    assert(vals@.subrange(0, vals@.len() - 1) =~= old_vals);
                    assert(is_tok(ts@, k0, TokenV::COMMA));
                },
                Err(PErr::Error(_)) => {
                    break ;
                },
                Err(e) => {
                    return Err(e);
                },
            },
            None => {
                break ;
            },
        }
    }
    let (l, rhs) = token_tag(ts, k, &Token::RBRACKET)?;
    Ok((l, (lhs.span, vals, rhs.span)))
}

/// `(a, b, ...)`: the arguments of a call.
pub fn call(ts: &[Node<Token>], i: usize) -> (r: PResult<Node<Args>>)
    requires
        i <= ts@.len(),
    ensures
        is_tok(ts@, i as int, TokenV::LPAREN) && is_tok(ts@, i + 1, TokenV::RPAREN) ==> (r matches Ok((j, a)) && j == i + 2
            && a.span == span_union(ts@[i as int].span, ts@[i + 1].span) && a.data.0@.len() == 0),
        !is_tok(ts@, i as int, TokenV::LPAREN) ==> r matches Err(PErr::Error(_)),
        r matches Ok((j, a)) ==> args_rel(ts@, i + 1, j - 1, a.data.0@),
        res_adv(r, ts@, i as int),
        r matches Ok((j, a)) ==> is_tok(ts@, i as int, TokenV::LPAREN) && is_tok(ts@, j - 1, TokenV::RPAREN)
            && a.span == span_union(ts@[i as int].span, ts@[j - 1].span),
        is_tok(ts@, i as int, TokenV::LPAREN) && i + 1 <= args_close(ts@, i + 1) ==> (r matches Ok((j, a))
            && j == args_close(ts@, i + 1) + 1 && args_node(ts@, i as int, a)),
    decreases ts@.len() - i, 9int,
{
    let ghost ghost_empty = is_tok(ts@, i as int, TokenV::LPAREN) && is_tok(ts@, i + 1, TokenV::RPAREN);
    let ghost ac = is_tok(ts@, i as int, TokenV::LPAREN) && i + 1 <= args_close(ts@, i + 1);
    let ghost c = args_close(ts@, i + 1);
    let (j, lhs) = token_tag(ts, i, &Token::LPAREN)?;
    let mut args: Vec<Node<Expr>> = Vec::new();
    let mut k = j;
    let ghost mut e_end = j as int;
    proof {
        assert forall|w: Seq<Node<Expr>>| #[trigger] args_tree(ts@, k as int, w) implies args_tree(ts@, j as int, args@ + w) by {
            assert(args@ + w =~= w);
        }
    }
    loop
        invariant_except_break
            is_tok(ts@, i as int, TokenV::LPAREN),
            args@.len() > 0 ==> k == e_end + 1 && is_tok(ts@, e_end, TokenV::COMMA),
        invariant
            ac == (is_tok(ts@, i as int, TokenV::LPAREN) && i + 1 <= args_close(ts@, i + 1)),
            c == args_close(ts@, i + 1),
            ac ==> args_close(ts@, k as int) == c && c >= 0,
            ac ==> forall|w: Seq<Node<Expr>>| #[trigger] args_tree(ts@, k as int, w) ==> args_tree(ts@, j as int, args@ + w),
            is_tok(ts@, i as int, TokenV::LPAREN),
            j <= k <= ts@.len(),
            i < j,
            j == i + 1,
            clean(ts@, i as int, k as int),
            args@.len() == 0 ==> k == j,
            ghost_empty == (is_tok(ts@, i as int, TokenV::LPAREN) && is_tok(ts@, i + 1, TokenV::RPAREN)),
            ghost_empty ==> args@.len() == 0,
            j <= e_end <= k,
            args@.len() > 0 ==> eitems_exact(ts@, j as int, e_end, args@) && (k == e_end || (k == e_end
                + 1 && is_tok(ts@, e_end, TokenV::COMMA))),
        ensures
            ac ==> is_tok(ts@, k as int, TokenV::RPAREN),
        decreases ts@.len() - k,
    {
        proof {
            if ac && !is_tok(ts@, k as int, TokenV::RPAREN) {
                lemma_arg_step(ts@, k as int, c);
                lemma_item_kinds(ts@, k as int);
            }
        }
        let ghost k0 = k as int;
        match expr(ts, k) {
            Ok((k1, arg)) => {
                let ghost old_args = args@;
                let ghost c0 = e_end;
                let ghost g_arg = arg;
                args.push(arg);
                proof {
                    e_end = k1 as int;
                }
                assert(args@.subrange(0, args@.len() - 1) =~= old_args);
                proof {
                    if old_args.len() > 0 {
                        assert(is_tok(ts@, c0, TokenV::COMMA));
                    }
                    if ac {
                        if is_tok(ts@, k0, TokenV::RPAREN) {
                            assert(false);
                        }
                        lemma_item_tree_of(ts@, k0, g_arg);
                        assert(k1 == item_end(ts@, k0));
                    }
                }
                match opt_tag(ts, k1, &Token::COMMA) {
                    Some((k2, _)) => {
                        k = k2;
                        proof {
                            if ac {
                                assert forall|w: Seq<Node<Expr>>| #[trigger] args_tree(ts@, k as int, w) implies args_tree(
                                    ts@,
                                    j as int,
                                    args@ + w,
                                ) by {
                                    lemma_args_cons(ts@, k0, g_arg, w);
                                    assert(args_tree(ts@, k0, seq![g_arg] + w));
                                    assert(old_args + (seq![g_arg] + w) =~= args@ + w);
                                }
                            }
                        }
                    },
                    None => {
                        k = k1;
                        proof {
                            if ac {
                                lemma_args_empty(ts@, k as int);
                                lemma_args_cons(ts@, k0, g_arg, Seq::empty());
                                assert(seq![g_arg] + Seq::<Node<Expr>>::empty() =~= seq![g_arg]);
                                assert(old_args + seq![g_arg] =~= args@);
                                assert forall|w: Seq<Node<Expr>>| #[trigger] args_tree(ts@, k as int, w) implies args_tree(
                                    ts@,
                                    j as int,
                                    args@ + w,
                                ) by {
                                    reveal(args_tree);
                                    assert(w.len() == 0);
                                    assert(args@ + w =~= args@);
                                    assert(args_tree(ts@, k0, seq![g_arg] + Seq::<Node<Expr>>::empty()));
                                    assert(args_tree(ts@, j as int, old_args + seq![g_arg]));
                                }
                            }
                        }
                        break ;
                    },
                }
            },
            Err(PErr::Error(_)) => {
                break ;
            },
            Err(e) => {
                return Err(e);
            },
        }
    }
    let (l, rhs) = token_tag(ts, k, &Token::RPAREN)?;
    proof {
        if ac {
            lemma_args_empty(ts@, k as int);
            assert(args@ + Seq::<Node<Expr>>::empty() =~= args@);
            assert(args_tree(ts@, j as int, args@ + Seq::<Node<Expr>>::empty()));
        }
    }
    Ok((l, Node::new(lhs.span.add(rhs.span), Args(args))))
}

/// An atom as a primary.
pub fn primary_node(ts: &[Node<Token>], i: usize) -> (r: PResult<Node<Primary>>)
    requires
        i <= ts@.len(),
    ensures
        nested_list(ts@, i as int) ==> (r matches Ok((j, p)) && j == list_end(ts@, i as int) && (*p.data matches Primary::Atom(a) && list_tree(ts@, i as int, BaseNode { span: p.span, data: Box::new(a) }))),
        no_atom_at(ts@, i as int) ==> r matches Err(PErr::Error(_)),
        i < ts@.len() && token_admitted(tok_at(ts@, i as int), 0) ==> (r matches Ok((j, p)) && j == i + 1
            && p.span == ts@[i as int].span && (*p.data matches Primary::Atom(a) && atom_of_token(
            tok_at(ts@, i as int),
            a,
        ))),
        res_adv(r, ts@, i as int),
        r matches Ok((j, p)) ==> *p.data is Atom && primary_rel(ts@, i as int, j as int, p.span, *p.data),
    decreases ts@.len() - i, 10int,
{
    let (j, val) = atom(ts, i)?;
    let span = val.span;
    Ok((j, Node::new(span, Primary::Atom(val.data()))))
}

} // verus!
