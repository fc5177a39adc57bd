use vstd::prelude::*;

use super::atom::{numeric_literal, token_admitted};
use super::error::{clean, err, err_ok, res_ok, Error, ErrorKind, PErr, PResult};
use super::primary::primary;
use super::grammar::{
    arith_at,
    compare_expr,
    compare_pair,
    eqs_tok,
    plain_at,
    lemma_a_shape,
    lemma_and_shape,
    lemma_c_shape,
    lemma_coef_shape,
    lemma_die_shape,
    lemma_m_shape,
    lemma_not_shape,
    lemma_p_shape,
    lemma_r_shape,
    lemma_u_shape,
    a_rel,
    a_split,
    and_rel,
    and_split,
    c_rel,
    coef_rel,
    die_rel,
    add_tok,
    atom_at,
    atom_end,
    range_form,
    range_len,
    range_tok,
    range_tree,
    arith_pair,
    atom_stop,
    atom_then_add,
    ends_at,
    eqs_at,
    no_atom_at,
    pair_expr,
    m_rel,
    m_split,
    not_rel,
    or_rel,
    or_split,
    p_rel,
    p_split,
    plain_expr,
    r_rel,
    range_split,
    u_rel,
};
use super::tok::{get0, is_tok, opt_tag, tok_at, token};
use crate::ast::{Expr, Op, OpArith, OpEqs, OpRange, Primary, Range};
use crate::lexer::token::{Token, TokenV};
use crate::types::node::Node;

use super::nested::{dice_at, dice_end, dice_expr, die_node, list_end, list_expr, nested_at, sign_at, sign_expr};
use super::call_form::{call_at, call_end, call_expr};
verus! {

/// `a or b or ...`, grouped to the right.
pub fn or_test(ts: &[Node<Token>], i: usize) -> (r: PResult<Node<Expr>>)
    requires
        i <= ts@.len(),
    ensures
        nested_at(ts@, i as int) ==> (r matches Ok((j, x)) && j == list_end(ts@, i as int) && list_expr(ts@, i as int, x)),
        call_at(ts@, i as int) ==> (r matches Ok((j, x)) && j == call_end(ts@, i as int) && call_expr(ts@, i as int, x)),
        sign_at(ts@, i as int) ==> (r matches Ok((j, x)) && j == i + 2 && sign_expr(ts@, i as int, x)),
        dice_at(ts@, i as int) ==> (r matches Ok((j, x)) && j == dice_end(ts@, i as int) && dice_expr(ts@, i as int, x)),
        compare_pair(ts@, i as int) ==> (r matches Ok((j, x)) && j == i + 3 && compare_expr(ts@, i as int, x)),
        arith_pair(ts@, i as int) ==> (r matches Ok((j, x)) && j == i + 3 && pair_expr(ts@, i as int, x)),
        atom_end(ts@, i as int) ==> (r matches Ok((j, x)) && j == i + 1 && plain_expr(ts@, i as int, x)),
        ends_at(ts@, i as int) ==> r matches Err(PErr::Error(_)),
        r matches Ok((j, x)) ==> or_rel(ts@, i as int, j as int, x.span, *x.data),
        res_ok(r, ts@, i as int),
    decreases ts@.len() - i, 24int,
{
    let (j, lhs) = and_test(ts, i)?;
    proof {
        lemma_and_shape(ts@, i as int, j as int, lhs.span, *lhs.data);
    }
    match opt_tag(ts, j, &Token::OR) {
        Some((k, _)) => match or_test(ts, k) {
            Ok((k2, rhs)) => {
                assert(or_split(ts@, i as int, k2 as int, lhs, rhs));
                Ok((k2, Node::new(lhs.span.add(rhs.span), Expr::Op(Op::Or(lhs, rhs)))))
            },
            Err(PErr::Error(_)) => Ok((j, lhs)),
            Err(e) => Err(e),
        },
        None => Ok((j, lhs)),
    }
}

/// `a and b and ...`, grouped to the right.
pub fn and_test(ts: &[Node<Token>], i: usize) -> (r: PResult<Node<Expr>>)
    requires
        i <= ts@.len(),
    ensures
        nested_at(ts@, i as int) ==> (r matches Ok((j, x)) && j == list_end(ts@, i as int) && list_expr(ts@, i as int, x)),
        call_at(ts@, i as int) ==> (r matches Ok((j, x)) && j == call_end(ts@, i as int) && call_expr(ts@, i as int, x)),
        sign_at(ts@, i as int) ==> (r matches Ok((j, x)) && j == i + 2 && sign_expr(ts@, i as int, x)),
        dice_at(ts@, i as int) ==> (r matches Ok((j, x)) && j == dice_end(ts@, i as int) && dice_expr(ts@, i as int, x)),
        compare_pair(ts@, i as int) ==> (r matches Ok((j, x)) && j == i + 3 && compare_expr(ts@, i as int, x)),
        arith_pair(ts@, i as int) ==> (r matches Ok((j, x)) && j == i + 3 && pair_expr(ts@, i as int, x)),
        atom_end(ts@, i as int) ==> (r matches Ok((j, x)) && j == i + 1 && plain_expr(ts@, i as int, x)),
        ends_at(ts@, i as int) ==> r matches Err(PErr::Error(_)),
        r matches Ok((j, x)) ==> and_rel(ts@, i as int, j as int, x.span, *x.data),
        res_ok(r, ts@, i as int),
    decreases ts@.len() - i, 23int,
{
    let (j, lhs) = not_test(ts, i)?;
    proof {
        lemma_not_shape(ts@, i as int, j as int, lhs.span, *lhs.data);
    }
    match opt_tag(ts, j, &Token::AND) {
        Some((k, _)) => match and_test(ts, k) {
            Ok((k2, rhs)) => {
                assert(and_split(ts@, i as int, k2 as int, lhs, rhs));
                Ok((k2, Node::new(lhs.span.add(rhs.span), Expr::Op(Op::And(lhs, rhs)))))
            },
            Err(PErr::Error(_)) => Ok((j, lhs)),
            Err(e) => Err(e),
        },
        None => Ok((j, lhs)),
    }
}

/// `not a`.
pub fn not_test(ts: &[Node<Token>], i: usize) -> (r: PResult<Node<Expr>>)
    requires
        i <= ts@.len(),
    ensures
        nested_at(ts@, i as int) ==> (r matches Ok((j, x)) && j == list_end(ts@, i as int) && list_expr(ts@, i as int, x)),
        call_at(ts@, i as int) ==> (r matches Ok((j, x)) && j == call_end(ts@, i as int) && call_expr(ts@, i as int, x)),
        sign_at(ts@, i as int) ==> (r matches Ok((j, x)) && j == i + 2 && sign_expr(ts@, i as int, x)),
        dice_at(ts@, i as int) ==> (r matches Ok((j, x)) && j == dice_end(ts@, i as int) && dice_expr(ts@, i as int, x)),
        compare_pair(ts@, i as int) ==> (r matches Ok((j, x)) && j == i + 3 && compare_expr(ts@, i as int, x)),
        arith_pair(ts@, i as int) ==> (r matches Ok((j, x)) && j == i + 3 && pair_expr(ts@, i as int, x)),
        atom_end(ts@, i as int) ==> (r matches Ok((j, x)) && j == i + 1 && plain_expr(ts@, i as int, x)),
        ends_at(ts@, i as int) ==> r matches Err(PErr::Error(_)),
        r matches Ok((j, x)) ==> not_rel(ts@, i as int, j as int, x.span, *x.data),
        res_ok(r, ts@, i as int),
        is_tok(ts@, i as int, TokenV::NOT) ==> (r matches Ok((_, x)) ==> *x.data matches Expr::Op(
            Op::Not(_),
        )),
    decreases ts@.len() - i, 22int,
{
    match opt_tag(ts, i, &Token::NOT) {
        Some((j, op)) => {
            let (k, rhs) = c_expr(ts, j)?;
            Ok((k, Node::new(op.add(rhs.span), Expr::Op(Op::Not(rhs)))))
        },
        None => {
            let r = c_expr(ts, i);
            proof {
                if r is Ok {
                    let (j, x) = r->Ok_0;
                    lemma_c_shape(ts@, i as int, j as int, x.span, *x.data);
                }
            }
            r
        },
    }
}

/// An optional comparison operator followed by a range expression.
fn opt_compare(ts: &[Node<Token>], i: usize) -> (r: Result<
    (usize, Option<(Node<OpEqs>, Node<Expr>)>),
    PErr,
>)
    requires
        i <= ts@.len(),
    ensures
        ends_at(ts@, i as int) || is_tok(ts@, i as int, TokenV::ARROW) || is_tok(ts@, i as int, TokenV::LBRACE) || is_tok(ts@, i as int, TokenV::FOR) ==> (r matches Ok((j, None)) && j == i),
        r matches Ok((j, Some((op, val)))) ==> eqs_at(ts@, i as int, op) && r_rel(ts@, i + 1, j as int, val.span, *val.data),
        eqs_tok(ts@, i as int) && plain_at(ts@, i + 1) ==> (r matches Ok((j, Some((op, val)))) && j == i + 2 && plain_expr(
            ts@,
            i + 1,
            val,
        )),
        match r {
            Ok((j, x)) => i <= j <= ts@.len() && clean(ts@, i as int, j as int) && (x is None ==> j == i),
            Err(e) => err_ok(e, ts@, i as int),
        },
    decreases ts@.len() - i, 20int,
{
    match eqs(ts, i) {
        Ok((j, op)) => match r_expr(ts, j) {
            Ok((k, val)) => Ok((k, Some((op, val)))),
            Err(PErr::Error(_)) => Ok((i, None)),
            Err(e) => Err(e),
        },
        Err(PErr::Error(_)) => Ok((i, None)),
        Err(e) => Err(e),
    }
}

/// Comparisons: `a < b`, and bounded comparisons `a < b < c`.
pub fn c_expr(ts: &[Node<Token>], i: usize) -> (r: PResult<Node<Expr>>)
    requires
        i <= ts@.len(),
    ensures
        nested_at(ts@, i as int) ==> (r matches Ok((j, x)) && j == list_end(ts@, i as int) && list_expr(ts@, i as int, x)),
        call_at(ts@, i as int) ==> (r matches Ok((j, x)) && j == call_end(ts@, i as int) && call_expr(ts@, i as int, x)),
        sign_at(ts@, i as int) ==> (r matches Ok((j, x)) && j == i + 2 && sign_expr(ts@, i as int, x)),
        dice_at(ts@, i as int) ==> (r matches Ok((j, x)) && j == dice_end(ts@, i as int) && dice_expr(ts@, i as int, x)),
        compare_pair(ts@, i as int) ==> (r matches Ok((j, x)) && j == i + 3 && compare_expr(ts@, i as int, x)),
        arith_pair(ts@, i as int) ==> (r matches Ok((j, x)) && j == i + 3 && pair_expr(ts@, i as int, x)),
        atom_end(ts@, i as int) ==> (r matches Ok((j, x)) && j == i + 1 && plain_expr(ts@, i as int, x)),
        ends_at(ts@, i as int) ==> r matches Err(PErr::Error(_)),
        r matches Ok((j, x)) ==> c_rel(ts@, i as int, j as int, x.span, *x.data),
        res_ok(r, ts@, i as int),
    decreases ts@.len() - i, 21int,
{
    let (j, lhs) = r_expr(ts, i)?;
    proof {
        lemma_r_shape(ts@, i as int, j as int, lhs.span, *lhs.data);
    }
    let (k, val) = opt_compare(ts, j)?;
    let (l, rhs) = opt_compare(ts, k)?;
    match (val, rhs) {
        (Some((l_op, val)), Some((r_op, rhs))) => {
            let span = lhs.span.add(rhs.span);
            Ok(
                (
                    l,
                    Node::new(
                        span,
                        Expr::Op(Op::CompareBound { l_val: lhs, l_op, val, r_op, r_val: rhs }),
                    ),
                ),
            )
        },
        (Some((op, rhs)), None) => {
            let span = lhs.span.add(rhs.span);
            Ok((l, Node::new(span, Expr::Op(Op::Compare(lhs, op, rhs)))))
        },
        (None, Some((op, rhs))) => {
            let span = lhs.span.add(rhs.span);
            Ok((l, Node::new(span, Expr::Op(Op::Compare(lhs, op, rhs)))))
        },
        (None, None) => Ok((l, lhs)),
    }
}

/// An optional arithmetic expression.
fn opt_a_expr(ts: &[Node<Token>], i: usize) -> (r: Result<(usize, Option<Node<Expr>>), PErr>)
    requires
        i <= ts@.len(),
    ensures
        nested_at(ts@, i as int) ==> (r matches Ok((j, Some(x))) && j == list_end(ts@, i as int) && list_expr(ts@, i as int, x)),
        call_at(ts@, i as int) ==> (r matches Ok((j, Some(x))) && j == call_end(ts@, i as int) && call_expr(ts@, i as int, x)),
        sign_at(ts@, i as int) ==> (r matches Ok((j, Some(x))) && j == i + 2 && sign_expr(ts@, i as int, x)),
        dice_at(ts@, i as int) ==> (r matches Ok((j, Some(x))) && j == dice_end(ts@, i as int) && dice_expr(ts@, i as int, x)),
        range_tok(ts@, i as int) ==> r == Ok::<(usize, Option<Node<Expr>>), PErr>((i, None)),
        atom_at(ts@, i as int) && range_tok(ts@, i + 1) ==> (r matches Ok((j, Some(x))) && j == i + 1 && plain_expr(ts@, i as int, x)),
        arith_pair(ts@, i as int) ==> (r matches Ok((j, Some(x))) && j == i + 3 && pair_expr(ts@, i as int, x)),
        atom_end(ts@, i as int) ==> (r matches Ok((j, Some(x))) && j == i + 1 && plain_expr(ts@, i as int, x)),
        atom_at(ts@, i as int) && eqs_tok(ts@, i + 1) ==> (r matches Ok((j, Some(x))) && j == i + 1 && plain_expr(ts@, i as int, x)),
        ends_at(ts@, i as int) ==> r == Ok::<(usize, Option<Node<Expr>>), PErr>((i, None)),
        r matches Ok((j, Some(x))) ==> a_rel(ts@, i as int, j as int, x.span, *x.data),
        match r {
            Ok((j, x)) => i <= j <= ts@.len() && clean(ts@, i as int, j as int) && (x is None ==> j == i),
            Err(e) => err_ok(e, ts@, i as int),
        },
    decreases ts@.len() - i, 19int,
{
    match a_expr(ts, i) {
        Ok((j, x)) => Ok((j, Some(x))),
        Err(PErr::Error(_)) => Ok((i, None)),
        Err(e) => Err(e),
    }
}

/// Ranges: `a..b`, `a..`, `..b`, `..`, `a..=b`, `..=b`.
#[verifier::rlimit(60)]
pub fn r_expr(ts: &[Node<Token>], i: usize) -> (r: PResult<Node<Expr>>)
    requires
        i <= ts@.len(),
    ensures
        nested_at(ts@, i as int) ==> (r matches Ok((j, x)) && j == list_end(ts@, i as int) && list_expr(ts@, i as int, x)),
        call_at(ts@, i as int) ==> (r matches Ok((j, x)) && j == call_end(ts@, i as int) && call_expr(ts@, i as int, x)),
        sign_at(ts@, i as int) ==> (r matches Ok((j, x)) && j == i + 2 && sign_expr(ts@, i as int, x)),
        dice_at(ts@, i as int) ==> (r matches Ok((j, x)) && j == dice_end(ts@, i as int) && dice_expr(ts@, i as int, x)),
        range_form(ts@, i as int) ==> (r matches Ok((j, x)) && j == i + range_len(ts@, i as int) && range_tree(ts@, i as int, x)),
        arith_pair(ts@, i as int) ==> (r matches Ok((j, x)) && j == i + 3 && pair_expr(ts@, i as int, x)),
        atom_end(ts@, i as int) ==> (r matches Ok((j, x)) && j == i + 1 && plain_expr(ts@, i as int, x)),
        atom_at(ts@, i as int) && eqs_tok(ts@, i + 1) ==> (r matches Ok((j, x)) && j == i + 1 && plain_expr(ts@, i as int, x)),
        ends_at(ts@, i as int) ==> r matches Err(PErr::Error(_)),
        r matches Ok((j, x)) ==> r_rel(ts@, i as int, j as int, x.span, *x.data),
        res_ok(r, ts@, i as int),
    decreases ts@.len() - i, 20int,
{
    let (j, start) = opt_a_expr(ts, i)?;
    let (k, rhs) = match ranges(ts, j) {
        Ok((k, op)) => {
            let (k2, end) = opt_a_expr(ts, k)?;
            (k2, Some((op, end)))
        },
        Err(PErr::Error(_)) => (j, None),
        Err(e) => {
            return Err(e);
        },
    };
    match (start, rhs) {
        (Some(start), Some((op, Some(end)))) => {
            let span = start.span.add(end.span);
            let range = match *op.data {
                OpRange::RANGE => {
                    assert(range_split(ts@, i as int, k as int, start, TokenV::RANGE, end)) by {
                        assert(is_tok(ts@, j as int, TokenV::RANGE));
                    }
                    Range::Range { start, end }
                },
                OpRange::RANGEI => {
                    assert(range_split(ts@, i as int, k as int, start, TokenV::RANGEI, end)) by {
                        assert(is_tok(ts@, j as int, TokenV::RANGEI));
                    }
                    Range::RangeI { start, end }
                },
            };
            Ok((k, Node::new(span, Expr::Op(Op::Range(range)))))
        },
        (Some(start), Some((op, None))) => {
            let span = start.span.add(op.span);
            Ok((k, Node::new(span, Expr::Op(Op::Range(Range::RangeFrom { start })))))
        },
        (None, Some((op, Some(end)))) => {
            let span = op.span.add(end.span);
            let range = match *op.data {
                OpRange::RANGE => Range::RangeTo { end },
                OpRange::RANGEI => Range::RangeToI { end },
            };
            Ok((k, Node::new(span, Expr::Op(Op::Range(range)))))
        },
        (None, Some((op, None))) => Ok((k, Node::new(op.span, Expr::Op(Op::Range(Range::RangeFull))))),
        (Some(lhs), None) => {
            proof {
                lemma_a_shape(ts@, i as int, k as int, lhs.span, *lhs.data);
            }
            Ok((k, lhs))
        },
        (None, None) => Err(err(get0(ts, k), ErrorKind::Grammar)),
    }
}

/// Sums `a + b` and differences, grouped to the right.
pub fn a_expr(ts: &[Node<Token>], i: usize) -> (r: PResult<Node<Expr>>)
    requires
        i <= ts@.len(),
    ensures
        nested_at(ts@, i as int) ==> (r matches Ok((j, x)) && j == list_end(ts@, i as int) && list_expr(ts@, i as int, x)),
        call_at(ts@, i as int) ==> (r matches Ok((j, x)) && j == call_end(ts@, i as int) && call_expr(ts@, i as int, x)),
        sign_at(ts@, i as int) ==> (r matches Ok((j, x)) && j == i + 2 && sign_expr(ts@, i as int, x)),
        dice_at(ts@, i as int) ==> (r matches Ok((j, x)) && j == dice_end(ts@, i as int) && dice_expr(ts@, i as int, x)),
        atom_at(ts@, i as int) && range_tok(ts@, i + 1) ==> (r matches Ok((j, x)) && j == i + 1 && plain_expr(ts@, i as int, x)),
        range_tok(ts@, i as int) ==> r matches Err(PErr::Error(_)),
        arith_pair(ts@, i as int) ==> (r matches Ok((j, x)) && j == i + 3 && pair_expr(ts@, i as int, x)),
        atom_end(ts@, i as int) ==> (r matches Ok((j, x)) && j == i + 1 && plain_expr(ts@, i as int, x)),
        atom_at(ts@, i as int) && eqs_tok(ts@, i + 1) ==> (r matches Ok((j, x)) && j == i + 1 && plain_expr(ts@, i as int, x)),
        ends_at(ts@, i as int) ==> r matches Err(PErr::Error(_)),
        r matches Ok((j, x)) ==> a_rel(ts@, i as int, j as int, x.span, *x.data),
        res_ok(r, ts@, i as int),
    decreases ts@.len() - i, 18int,
{
    let (j, lhs) = m_expr(ts, i)?;
    proof {
        lemma_m_shape(ts@, i as int, j as int, lhs.span, *lhs.data);
    }
    match adds(ts, j) {
        Ok((k, op)) => match a_expr(ts, k) {
            Ok((l, rhs)) => {
                assert(arith_at(ts@, j as int, op));
                assert(a_split(ts@, i as int, l as int, lhs, op, rhs));
                let span = lhs.span.add(rhs.span);
                Ok((l, Node::new(span, Expr::Op(Op::Arith(lhs, op, rhs)))))
            },
            Err(PErr::Error(_)) => Ok((j, lhs)),
            Err(e) => Err(e),
        },
        Err(PErr::Error(_)) => Ok((j, lhs)),
        Err(e) => Err(e),
    }
}

/// Products `a * b`, quotients and remainders, grouped to the right.
pub fn m_expr(ts: &[Node<Token>], i: usize) -> (r: PResult<Node<Expr>>)
    requires
        i <= ts@.len(),
    ensures
        nested_at(ts@, i as int) ==> (r matches Ok((j, x)) && j == list_end(ts@, i as int) && list_expr(ts@, i as int, x)),
        call_at(ts@, i as int) ==> (r matches Ok((j, x)) && j == call_end(ts@, i as int) && call_expr(ts@, i as int, x)),
        sign_at(ts@, i as int) ==> (r matches Ok((j, x)) && j == i + 2 && sign_expr(ts@, i as int, x)),
        dice_at(ts@, i as int) ==> (r matches Ok((j, x)) && j == dice_end(ts@, i as int) && dice_expr(ts@, i as int, x)),
        range_tok(ts@, i as int) ==> r matches Err(PErr::Error(_)),
        arith_pair(ts@, i as int) && !add_tok(ts@, i + 1) ==> (r matches Ok((j, x)) && j == i + 3 && pair_expr(ts@, i as int, x)),
        atom_then_add(ts@, i as int) ==> (r matches Ok((j, x)) && j == i + 1 && plain_expr(ts@, i as int, x)),
        ends_at(ts@, i as int) ==> r matches Err(PErr::Error(_)),
        r matches Ok((j, x)) ==> m_rel(ts@, i as int, j as int, x.span, *x.data),
        res_ok(r, ts@, i as int),
    decreases ts@.len() - i, 17int,
{
    let (j, lhs) = p_expr(ts, i)?;
    proof {
        lemma_p_shape(ts@, i as int, j as int, lhs.span, *lhs.data);
    }
    match muls(ts, j) {
        Ok((k, op)) => match m_expr(ts, k) {
            Ok((l, rhs)) => {
                assert(arith_at(ts@, j as int, op));
                assert(m_split(ts@, i as int, l as int, lhs, op, rhs));
                let span = lhs.span.add(rhs.span);
                Ok((l, Node::new(span, Expr::Op(Op::Arith(lhs, op, rhs)))))
            },
            Err(PErr::Error(_)) => Ok((j, lhs)),
            Err(e) => Err(e),
        },
        Err(PErr::Error(_)) => Ok((j, lhs)),
        Err(e) => Err(e),
    }
}

/// Powers `a ^ b`, grouped to the right.
pub fn p_expr(ts: &[Node<Token>], i: usize) -> (r: PResult<Node<Expr>>)
    requires
        i <= ts@.len(),
    ensures
        nested_at(ts@, i as int) ==> (r matches Ok((j, x)) && j == list_end(ts@, i as int) && list_expr(ts@, i as int, x)),
        call_at(ts@, i as int) ==> (r matches Ok((j, x)) && j == call_end(ts@, i as int) && call_expr(ts@, i as int, x)),
        sign_at(ts@, i as int) ==> (r matches Ok((j, x)) && j == i + 2 && sign_expr(ts@, i as int, x)),
        dice_at(ts@, i as int) ==> (r matches Ok((j, x)) && j == dice_end(ts@, i as int) && dice_expr(ts@, i as int, x)),
        range_tok(ts@, i as int) ==> r matches Err(PErr::Error(_)),
        atom_stop(ts@, i as int) ==> (r matches Ok((j, x)) && j == i + 1 && plain_expr(ts@, i as int, x)),
        ends_at(ts@, i as int) ==> r matches Err(PErr::Error(_)),
        r matches Ok((j, x)) ==> p_rel(ts@, i as int, j as int, x.span, *x.data),
        res_ok(r, ts@, i as int),
    decreases ts@.len() - i, 16int,
{
    let (j, lhs) = u_expr(ts, i)?;
    proof {
        lemma_u_shape(ts@, i as int, j as int, lhs.span, *lhs.data);
    }
    match pow(ts, j) {
        Ok((k, op)) => match p_expr(ts, k) {
            Ok((l, rhs)) => {
                assert(arith_at(ts@, j as int, op));
                assert(p_split(ts@, i as int, l as int, lhs, op, rhs));
                let span = lhs.span.add(rhs.span);
                Ok((l, Node::new(span, Expr::Op(Op::Arith(lhs, op, rhs)))))
            },
            Err(PErr::Error(_)) => Ok((j, lhs)),
            Err(e) => Err(e),
        },
        Err(PErr::Error(_)) => Ok((j, lhs)),
        Err(e) => Err(e),
    }
}

/// A sign: `+a`, `-a`.
pub fn u_expr(ts: &[Node<Token>], i: usize) -> (r: PResult<Node<Expr>>)
    requires
        i <= ts@.len(),
    ensures
        nested_at(ts@, i as int) ==> (r matches Ok((j, x)) && j == list_end(ts@, i as int) && list_expr(ts@, i as int, x)),
        call_at(ts@, i as int) ==> (r matches Ok((j, x)) && j == call_end(ts@, i as int) && call_expr(ts@, i as int, x)),
        sign_at(ts@, i as int) ==> (r matches Ok((j, x)) && j == i + 2 && sign_expr(ts@, i as int, x)),
        dice_at(ts@, i as int) ==> (r matches Ok((j, x)) && j == dice_end(ts@, i as int) && dice_expr(ts@, i as int, x)),
        range_tok(ts@, i as int) ==> r matches Err(PErr::Error(_)),
        atom_stop(ts@, i as int) ==> (r matches Ok((j, x)) && j == i + 1 && plain_expr(ts@, i as int, x)),
        ends_at(ts@, i as int) ==> r matches Err(PErr::Error(_)),
        r matches Ok((j, x)) ==> u_rel(ts@, i as int, j as int, x.span, *x.data),
        res_ok(r, ts@, i as int),
        (is_tok(ts@, i as int, TokenV::ADD) || is_tok(ts@, i as int, TokenV::SUB)) ==> (r matches Ok(
            (_, x),
        ) ==> *x.data matches Expr::Op(Op::Unary(_, _))),
    decreases ts@.len() - i, 15int,
{
    match adds(ts, i) {
        Ok((j, op)) => {
            let (k, rhs) = coefficient(ts, j)?;
            let span = op.span.add(rhs.span);
            Ok((k, Node::new(span, Expr::Op(Op::Unary(op, rhs)))))
        },
        Err(PErr::Error(_)) => {
            let r = coefficient(ts, i);
            proof {
                if r is Ok {
                    let (j, x) = r->Ok_0;
                    lemma_coef_shape(ts@, i as int, j as int, x.span, *x.data);
                }
            }
            r
        },
        Err(e) => Err(e),
    }
}

/// A number in front of a die or a primary: `2d6`, `2x`; or either alone.
#[verifier::rlimit(60)]
pub fn coefficient(ts: &[Node<Token>], i: usize) -> (r: PResult<Node<Expr>>)
    requires
        i <= ts@.len(),
    ensures
        nested_at(ts@, i as int) ==> (r matches Ok((j, x)) && j == list_end(ts@, i as int) && list_expr(ts@, i as int, x)),
        call_at(ts@, i as int) ==> (r matches Ok((j, x)) && j == call_end(ts@, i as int) && call_expr(ts@, i as int, x)),
        dice_at(ts@, i as int) ==> (r matches Ok((j, x)) && j == dice_end(ts@, i as int) && dice_expr(ts@, i as int, x)),
        atom_stop(ts@, i as int) ==> (r matches Ok((j, x)) && j == i + 1 && plain_expr(ts@, i as int, x)),
        no_atom_at(ts@, i as int) ==> r matches Err(PErr::Error(_)),
        r matches Ok((j, x)) ==> coef_rel(ts@, i as int, j as int, x.span, *x.data),
        res_ok(r, ts@, i as int),
    decreases ts@.len() - i, 14int,
{
    let (j, lhs) = match numeric_literal(ts, i) {
        Ok((j, x)) => (j, Some(x)),
        Err(PErr::Error(_)) => (i, None),
        Err(e) => {
            return Err(e);
        },
    };
    let (k, rhs) = match die(ts, j) {
        Ok((k, x)) => (k, Some(x)),
        Err(PErr::Error(_)) => (j, None),
        Err(e) => {
            return Err(e);
        },
    };
    match (lhs, rhs) {
        (Some(lhs), Some(rhs)) => {
            let span = lhs.span.add(rhs.span);
            Ok((k, Node::new(span, Expr::Op(Op::Coefficient(lhs, rhs)))))
        },
        (Some(lhs), None) => {
            let span = lhs.span;
            Ok((k, Node::new(span, Expr::Primary(Primary::Atom(lhs.data())))))
        },
        (None, Some(rhs)) => {
            proof {
                lemma_die_shape(ts@, i as int, k as int, rhs.span, *rhs.data);
            }
            Ok((k, rhs))
        },
        (None, None) => Err(err(get0(ts, k), ErrorKind::Grammar)),
    }
}

/// A die `d6`, or a primary.
pub fn die(ts: &[Node<Token>], i: usize) -> (r: PResult<Node<Expr>>)
    requires
        i <= ts@.len(),
    ensures
        nested_at(ts@, i as int) ==> (r matches Ok((j, x)) && j == list_end(ts@, i as int) && list_expr(ts@, i as int, x)),
        call_at(ts@, i as int) ==> (r matches Ok((j, x)) && j == call_end(ts@, i as int) && call_expr(ts@, i as int, x)),
        atom_stop(ts@, i as int) ==> (r matches Ok((j, x)) && j == i + 1 && plain_expr(ts@, i as int, x)),
        no_atom_at(ts@, i as int) ==> r matches Err(PErr::Error(_)),
        r matches Ok((j, x)) ==> die_rel(ts@, i as int, j as int, x.span, *x.data),
        res_ok(r, ts@, i as int),
        is_tok(ts@, i as int, TokenV::DIE) && i + 1 < ts@.len() && token_admitted(
            tok_at(ts@, i + 1),
            4u8,
        ) ==> (r matches Ok((j, x)) && j == i + 2 && die_node(ts@, i as int, x)),
    decreases ts@.len() - i, 13int,
{
    match opt_tag(ts, i, &Token::DIE) {
        Some((j, op)) => match numeric_literal(ts, j) {
            Ok((k, rhs)) => {
                let span = op.add(rhs.span);
                return Ok((k, Node::new(span, Expr::Op(Op::Die(rhs)))));
            },
            Err(PErr::Error(_)) => {},
            Err(e) => {
                return Err(e);
            },
        },
        None => {},
    }
    expr_node(ts, i)
}

/// A primary as an expression.
pub fn expr_node(ts: &[Node<Token>], i: usize) -> (r: PResult<Node<Expr>>)
    requires
        i <= ts@.len(),
    ensures
        nested_at(ts@, i as int) ==> (r matches Ok((j, x)) && j == list_end(ts@, i as int) && list_expr(ts@, i as int, x)),
        call_at(ts@, i as int) ==> (r matches Ok((j, x)) && j == call_end(ts@, i as int) && call_expr(ts@, i as int, x)),
        atom_stop(ts@, i as int) ==> (r matches Ok((j, x)) && j == i + 1 && plain_expr(ts@, i as int, x)),
        no_atom_at(ts@, i as int) ==> r matches Err(PErr::Error(_)),
        r matches Ok((j, x)) ==> *x.data is Primary && die_rel(ts@, i as int, j as int, x.span, *x.data),
        res_ok(r, ts@, i as int),
    decreases ts@.len() - i, 12int,
{
    let (j, val) = primary(ts, i)?;
    let span = val.span;
    Ok((j, Node::new(span, Expr::Primary(val.data()))))
}

/// A comparison operator.
pub fn eqs(ts: &[Node<Token>], i: usize) -> (r: PResult<Node<OpEqs>>)
    requires
        i <= ts@.len(),
    ensures
        r is Ok <==> (i < ts@.len() && (tok_at(ts@, i as int) is EQ || tok_at(ts@, i as int) is NE || tok_at(ts@, i as int) is LT || tok_at(ts@, i as int) is LE || tok_at(ts@, i as int) is GT || tok_at(ts@, i as int) is GE)),
        r matches Ok((j, op)) ==> j == i + 1 && i < ts@.len() && op.span == ts@[i as int].span && (match tok_at(
            ts@,
            i as int,
        ) {
            TokenV::EQ => *op.data == OpEqs::EQ,
            TokenV::NE => *op.data == OpEqs::NE,
            TokenV::LT => *op.data == OpEqs::LT,
            TokenV::LE => *op.data == OpEqs::LE,
            TokenV::GT => *op.data == OpEqs::GT,
            TokenV::GE => *op.data == OpEqs::GE,
            _ => false,
        }),
        r is Err ==> r->Err_0 is Error && err_ok(r->Err_0, ts@, i as int),
{
    let (j, x) = token(ts, i)?;
    let op = match &*x.data {
        Token::EQ => OpEqs::EQ,
        Token::NE => OpEqs::NE,
        Token::LT => OpEqs::LT,
        Token::LE => OpEqs::LE,
        Token::GT => OpEqs::GT,
        Token::GE => OpEqs::GE,
        _ => {
            return Err(err(Some(x.span), ErrorKind::Predicate));
        },
    };
    Ok((j, Node::new(x.span, op)))
}

/// A range operator.
pub fn ranges(ts: &[Node<Token>], i: usize) -> (r: PResult<Node<OpRange>>)
    requires
        i <= ts@.len(),
    ensures
        r is Ok <==> (i < ts@.len() && (tok_at(ts@, i as int) is RANGE || tok_at(ts@, i as int) is RANGEI)),
        r matches Ok((j, op)) ==> j == i + 1 && i < ts@.len() && op.span == ts@[i as int].span && (match tok_at(
            ts@,
            i as int,
        ) {
            TokenV::RANGE => *op.data == OpRange::RANGE,
            TokenV::RANGEI => *op.data == OpRange::RANGEI,
            _ => false,
        }),
        r is Err ==> r->Err_0 is Error && err_ok(r->Err_0, ts@, i as int),
{
    let (j, x) = token(ts, i)?;
    let op = match &*x.data {
        Token::RANGE => OpRange::RANGE,
        Token::RANGEI => OpRange::RANGEI,
        _ => {
            return Err(err(Some(x.span), ErrorKind::Predicate));
        },
    };
    Ok((j, Node::new(x.span, op)))
}

/// `+` or `-`.
pub fn adds(ts: &[Node<Token>], i: usize) -> (r: PResult<Node<OpArith>>)
    requires
        i <= ts@.len(),
    ensures
        r is Ok <==> (i < ts@.len() && (tok_at(ts@, i as int) is ADD || tok_at(ts@, i as int) is SUB)),
        r matches Ok((j, op)) ==> j == i + 1 && i < ts@.len() && op.span == ts@[i as int].span && (match tok_at(
            ts@,
            i as int,
        ) {
            TokenV::ADD => *op.data == OpArith::ADD,
            TokenV::SUB => *op.data == OpArith::SUB,
            _ => false,
        }),
        r is Err ==> r->Err_0 is Error && err_ok(r->Err_0, ts@, i as int),
{
    let (j, x) = token(ts, i)?;
    let op = match &*x.data {
        Token::ADD => OpArith::ADD,
        Token::SUB => OpArith::SUB,
        _ => {
            return Err(err(Some(x.span), ErrorKind::Predicate));
        },
    };
    Ok((j, Node::new(x.span, op)))
}

/// `%`, `*` or `/`.
pub fn muls(ts: &[Node<Token>], i: usize) -> (r: PResult<Node<OpArith>>)
    requires
        i <= ts@.len(),
    ensures
        r is Ok <==> (i < ts@.len() && (tok_at(ts@, i as int) is MOD || tok_at(ts@, i as int) is MUL || tok_at(ts@, i as int) is DIV)),
        r matches Ok((j, op)) ==> j == i + 1 && i < ts@.len() && op.span == ts@[i as int].span && (match tok_at(
            ts@,
            i as int,
        ) {
            TokenV::MOD => *op.data == OpArith::MOD,
            TokenV::MUL => *op.data == OpArith::MUL,
            TokenV::DIV => *op.data == OpArith::DIV,
            _ => false,
        }),
        r is Err ==> r->Err_0 is Error && err_ok(r->Err_0, ts@, i as int),
{
    let (j, x) = token(ts, i)?;
    let op = match &*x.data {
        Token::MOD => OpArith::MOD,
        Token::MUL => OpArith::MUL,
        Token::DIV => OpArith::DIV,
        _ => {
            return Err(err(Some(x.span), ErrorKind::Predicate));
        },
    };
    Ok((j, Node::new(x.span, op)))
}

/// `^`.
pub fn pow(ts: &[Node<Token>], i: usize) -> (r: PResult<Node<OpArith>>)
    requires
        i <= ts@.len(),
    ensures
        r is Ok <==> (i < ts@.len() && tok_at(ts@, i as int) is POW),
        r matches Ok((j, op)) ==> j == i + 1 && i < ts@.len() && op.span == ts@[i as int].span && tok_at(ts@, i as int)
            is POW && *op.data == OpArith::POW,
        r is Err ==> r->Err_0 is Error && err_ok(r->Err_0, ts@, i as int),
{
    let (j, x) = token(ts, i)?;
    match &*x.data {
        Token::POW => Ok((j, Node::new(x.span, OpArith::POW))),
        _ => Err(err(Some(x.span), ErrorKind::Predicate)),
    }
}

} // verus!
