use vstd::prelude::*;

use super::error::{
    append,
    clean,
    convert,
    fail,
    res_adv,
    res_ok,
    ConvertKind,
    Error,
    ErrorKind,
    NomKind,
    PErr,
    PResult,
};
use super::op::or_test;
use super::target_grammar::{id_at, mt_rel, tgt_id, tgt_rel};
use super::atom::{atom_of_token, token_admitted};
use super::grammar::{
    or_rel,
    arith_tok, atom_at, fn_split, item_rel, lemma_or_shape, ends_at, plain_at, plain_expr, arith_pair, pair_expr, expr_end, id_brace,
    two_plain, one_block, one_expr, atom_end,
    enclosed,
    arms_last, arms_rel, assign_split, block_rel, cond_rel, delims, enclosure_rel, expr_rel, for_split, if_rel, items_rel,
    loop_block, loop_kind_rel, loop_rel, match_rel, while_split,
};
use super::target::{target, target_match};
use super::stmt::{stmt_plain, stmt_width};
use super::tok::{tok_at, get0, is_tok, many_tag, opt_tag, token_tag, token_tag_id};
use crate::ast::convert::{expr_target, expr_to_target, list_items_to_target_expr};
use crate::ast::{
    Branch, CommaList, Expr, ExprEnclosure, Id, Loop, LoopKind, Match, MatchArm, Target, TargetExpr,
    TargetListItem,
};
use crate::lexer::token::{Token, TokenV};
use crate::types::node::{Node, ONode};
use crate::types::span::{span_union, Span};

use super::nested::{dice_at, dice_end, dice_expr, list_end, list_expr, nested_at, sign_at, sign_expr};
use super::call_form::{call_at, call_end, call_expr};
use super::grammar::{compare_expr, compare_pair};
verus! {

/// Simple expressions from `i` up to a closing brace, each an atom or
/// `a op b`, with one separator between each two: expression `q` starts at
/// `ps[q]`.
pub open spec fn simple_inner(ts: Seq<Node<Token>>, i: int, ps: Seq<int>) -> bool {
    &&& ps.len() >= 1
    &&& ps[0] == i
    &&& forall|q: int|
        0 <= q < ps.len() ==> atom_at(ts, #[trigger] ps[q]) && (arith_tok(ts, ps[q] + 1) ==> atom_at(ts, ps[q] + 2))
    &&& forall|q: int|
        0 <= q < ps.len() - 1 ==> is_tok(ts, #[trigger] ps[q] + stmt_width(ts, ps[q]), TokenV::DELIM) && ps[q + 1]
            == ps[q] + stmt_width(ts, ps[q]) + 1
    &&& is_tok(ts, ps.last() + stmt_width(ts, ps.last()), TokenV::RBRACE)
}

/// Two readings of a `simple_inner` agree on where their first expressions
/// start.
proof fn lemma_simple_inner_prefix(ts: Seq<Node<Token>>, i: int, ps1: Seq<int>, ps2: Seq<int>, q: int)
    requires
        simple_inner(ts, i, ps1),
        simple_inner(ts, i, ps2),
        0 <= q < ps1.len(),
        q < ps2.len(),
    ensures
        ps1[q] == ps2[q],
    decreases q,
{
    if q > 0 {
        lemma_simple_inner_prefix(ts, i, ps1, ps2, q - 1);
    }
}

/// A `simple_inner` has one reading.
pub proof fn lemma_simple_inner_unique(ts: Seq<Node<Token>>, i: int, ps1: Seq<int>, ps2: Seq<int>)
    requires
        simple_inner(ts, i, ps1),
        simple_inner(ts, i, ps2),
    ensures
        ps1 == ps2,
{
    if ps1.len() < ps2.len() {
        let q = ps1.len() - 1;
        lemma_simple_inner_prefix(ts, i, ps1, ps2, q);
        assert(is_tok(ts, ps2[q] + stmt_width(ts, ps2[q]), TokenV::DELIM));
    } else if ps2.len() < ps1.len() {
        let q = ps2.len() - 1;
        lemma_simple_inner_prefix(ts, i, ps1, ps2, q);
        assert(is_tok(ts, ps1[q] + stmt_width(ts, ps1[q]), TokenV::DELIM));
    } else {
        assert forall|q: int| 0 <= q < ps1.len() implies ps1[q] == ps2[q] by {
            lemma_simple_inner_prefix(ts, i, ps1, ps2, q);
        }
        assert(ps1 =~= ps2);
    }
}

/// The block `b` holds the simple expressions that start at `ps`, in order.
pub open spec fn block_holds(ts: Seq<Node<Token>>, ps: Seq<int>, b: Node<ExprEnclosure>) -> bool {
    b.data.0@.len() == ps.len() && forall|q: int| 0 <= q < ps.len() ==> stmt_plain(ts, ps[q], #[trigger] b.data.0@[q])
}

/// The position of the closing brace after a `simple_inner`.
pub open spec fn inner_end(ts: Seq<Node<Token>>, ps: Seq<int>) -> int {
    ps.last() + stmt_width(ts, ps.last())
}

/// An expression inside a block, as `expr` reads it.
fn expr_item(ts: &[Node<Token>], i: usize) -> (r: PResult<Node<Expr>>)
    requires
        i <= ts@.len(),
    ensures
        ends_at(ts@, i as int) && !is_tok(ts@, i as int, TokenV::COLON) ==> r matches Err(PErr::Error(_)),
        arith_pair(ts@, i as int) ==> (r matches Ok((j, x)) && j == i + 3 && pair_expr(ts@, i as int, x)),
        expr_end(ts@, i as int) ==> (r matches Ok((j, x)) && j == i + 1 && plain_expr(ts@, i as int, x)),
        r matches Ok((j, x)) ==> expr_rel(ts@, i as int, j as int, x.span, *x.data),
        res_ok(r, ts@, i as int),
    decreases ts@.len() - i, 28int,
{
    expr(ts, i)
}

/// Expressions separated by line breaks or `;`, with any number of
/// separators around them.  `None` only at the end of input.
#[verifier::rlimit(100)]
#[verifier::spinoff_prover]
pub fn expr_block0(ts: &[Node<Token>], i: usize) -> (r: PResult<Option<Node<Vec<Node<Expr>>>>>)
    requires
        i <= ts@.len(),
    ensures
        i < ts@.len() && is_tok(ts@, i as int, TokenV::RBRACE) ==> (r matches Ok((end, Some(b))) && end == i && (*b.data)@.len() == 0),
        plain_at(ts@, i as int) && is_tok(ts@, i + 1, TokenV::RBRACE) ==> (r matches Ok((end, Some(b))) && end
            == i + 1 && (*b.data)@.len() == 1 && plain_expr(ts@, i as int, (*b.data)@[0])),
        arith_pair(ts@, i as int) && is_tok(ts@, i + 3, TokenV::RBRACE) ==> (r matches Ok((end, Some(b))) && end
            == i + 3 && (*b.data)@.len() == 1 && pair_expr(ts@, i as int, (*b.data)@[0])),
        forall|ps: Seq<int>|
            #![trigger simple_inner(ts@, i as int, ps)]
            simple_inner(ts@, i as int, ps) ==> (r matches Ok((end, Some(b))) && end == inner_end(ts@, ps) && (*b.data)@.len()
                == ps.len() && forall|q: int| 0 <= q < ps.len() ==> stmt_plain(ts@, ps[q], #[trigger] (*b.data)@[q])),
        res_ok(r, ts@, i as int),
        r matches Ok((j, x)) ==> (x is None <==> i == ts@.len()),
        r matches Ok((j, Some(n))) ==> block_rel(ts@, i as int, j as int, (*n.data)@, false),
    decreases ts@.len() - i, 30int,
{
    let i_span = match get0(ts, i) {
        Some(x) => x,
        None => {
            return Ok((i, None));
        },
    };
    let ghost single = plain_at(ts@, i as int) && is_tok(ts@, i + 1, TokenV::RBRACE);
    let ghost pair1 = arith_pair(ts@, i as int) && is_tok(ts@, i + 3, TokenV::RBRACE);
    let ghost empty = is_tok(ts@, i as int, TokenV::RBRACE);
    let ghost sb = exists|ps: Seq<int>| simple_inner(ts@, i as int, ps);
    let ghost sps = choose|ps: Seq<int>| simple_inner(ts@, i as int, ps);
    proof {
        if sb {
            assert(atom_at(ts@, sps[0]));
            assert(!is_tok(ts@, i as int, TokenV::DELIM));
            if sps.len() > 1 {
                assert(is_tok(ts@, sps[0] + stmt_width(ts@, sps[0]), TokenV::DELIM));
            }
            if arith_tok(ts@, i + 1) {
                assert(atom_at(ts@, i + 2));
                assert(arith_pair(ts@, i as int));
            } else {
                assert(plain_at(ts@, i as int));
            }
        }
    }
    proof {
        if empty {
            assert(!is_tok(ts@, i as int, TokenV::DELIM));
            assert(ends_at(ts@, i as int) && !is_tok(ts@, i as int, TokenV::COLON));
        }
    }
    let (j, _) = many_tag(ts, i, &Token::DELIM);
    proof {
        if single || pair1 || sb {
            assert(!is_tok(ts@, i as int, TokenV::DELIM));
            assert(j == i);
        }
    }
    let mut vals: Vec<Node<Expr>> = Vec::new();
    let mut k = j;
    match expr_item(ts, j) {
        Ok((k1, v)) => {
            assert(item_rel(ts@, j as int, k1 as int, v.span, *v.data, false));
            vals.push(v);
            k = k1;
            assert(items_rel(ts@, j as int, k as int, vals@, false));
            proof {
                if sb {
                    assert(stmt_plain(ts@, sps[0], vals@[0]));
                }
            }
            loop
                invariant
                    i <= j <= k <= ts@.len(),
                    clean(ts@, i as int, k as int),
                    items_rel(ts@, j as int, k as int, vals@, false),
                    single == (plain_at(ts@, i as int) && is_tok(ts@, i + 1, TokenV::RBRACE)),
                    single ==> k == i + 1 && vals@.len() == 1 && plain_expr(ts@, i as int, vals@[0]),
                    pair1 == (arith_pair(ts@, i as int) && is_tok(ts@, i + 3, TokenV::RBRACE)),
                    pair1 ==> k == i + 3 && vals@.len() == 1 && pair_expr(ts@, i as int, vals@[0]),
                    sb == (exists|ps: Seq<int>| simple_inner(ts@, i as int, ps)),
                    sb ==> simple_inner(ts@, i as int, sps),
                    sb ==> j == i && 1 <= vals@.len() <= sps.len() && k == sps[vals@.len() - 1] + stmt_width(
                        ts@,
                        sps[vals@.len() - 1],
                    ) && forall|q: int| 0 <= q < vals@.len() ==> stmt_plain(ts@, sps[q], #[trigger] vals@[q]),
                    !empty,
                    empty == is_tok(ts@, i as int, TokenV::RBRACE),
                ensures
                    i <= j <= k <= ts@.len(),
                    clean(ts@, i as int, k as int),
                    items_rel(ts@, j as int, k as int, vals@, false),
                    single == (plain_at(ts@, i as int) && is_tok(ts@, i + 1, TokenV::RBRACE)),
                    single ==> k == i + 1 && vals@.len() == 1 && plain_expr(ts@, i as int, vals@[0]),
                    pair1 == (arith_pair(ts@, i as int) && is_tok(ts@, i + 3, TokenV::RBRACE)),
                    pair1 ==> k == i + 3 && vals@.len() == 1 && pair_expr(ts@, i as int, vals@[0]),
                    sb == (exists|ps: Seq<int>| simple_inner(ts@, i as int, ps)),
                    sb ==> simple_inner(ts@, i as int, sps),
                    sb ==> j == i && 1 <= vals@.len() <= sps.len() && k == sps[vals@.len() - 1] + stmt_width(
                        ts@,
                        sps[vals@.len() - 1],
                    ) && forall|q: int| 0 <= q < vals@.len() ==> stmt_plain(ts@, sps[q], #[trigger] vals@[q]),
                    !empty,
                    empty == is_tok(ts@, i as int, TokenV::RBRACE),
                    sb ==> vals@.len() == sps.len() && k == inner_end(ts@, sps) && forall|q: int|
                        0 <= q < vals@.len() ==> stmt_plain(ts@, sps[q], #[trigger] vals@[q]),
                decreases ts@.len() - k,
            {
                proof {
                    if sb {
                        let q = vals@.len() as int;
                        if q < sps.len() {
                            assert(is_tok(ts@, sps[q - 1] + stmt_width(ts@, sps[q - 1]), TokenV::DELIM));
                            assert(atom_at(ts@, sps[q]));
                            if q + 1 < sps.len() {
                                assert(is_tok(ts@, sps[q] + stmt_width(ts@, sps[q]), TokenV::DELIM));
                            }
                            if arith_tok(ts@, sps[q] + 1) {
                                assert(atom_at(ts@, sps[q] + 2));
                            }
                        } else {
                            assert(is_tok(ts@, k as int, TokenV::RBRACE));
                        }
                    }
                }
                let (m, _) = many_tag(ts, k, &Token::DELIM);
                proof {
                    if sb {
                        let q = vals@.len() as int;
                        if q < sps.len() {
                            assert(!is_tok(ts@, k + 1, TokenV::DELIM));
                            assert(m == k + 1);
                            assert(m == sps[q]);
                            if arith_tok(ts@, m + 1) {
                                assert(arith_pair(ts@, m as int));
                            } else {
                                assert(plain_at(ts@, m as int));
                            }
                        } else {
                            assert(m == k);
                        }
                    }
                    if single || pair1 {
                        assert(is_tok(ts@, k as int, TokenV::RBRACE));
                        assert(!is_tok(ts@, k as int, TokenV::DELIM));
                        assert(m == k);
                    }
                }
                if m == k {
                    break ;
                }
                match expr_item(ts, m) {
                    Ok((m2, v)) => {
                        assert(item_rel(ts@, m as int, m2 as int, v.span, *v.data, false));
                        let ghost old_vals = vals@;
                        let ghost k0 = k as int;
                        assert(delims(ts@, k0, m as int));
                        vals.push(v);
                        k = m2;
                        assert(vals@.subrange(0, vals@.len() - 1) =~= old_vals);
                    },
                    Err(PErr::Error(_)) => {
                        break ;
                    },
                    Err(e) => {
                        return Err(e);
                    },
                }
            }
        },
        Err(PErr::Error(_)) => {},
        Err(e) => {
            return Err(e);
        },
    }
    proof {
        if single || pair1 {
            assert(is_tok(ts@, k as int, TokenV::RBRACE));
            assert(!is_tok(ts@, k as int, TokenV::DELIM));
        }
        if sb {
            assert(is_tok(ts@, k as int, TokenV::RBRACE));
            assert(!is_tok(ts@, k as int, TokenV::DELIM));
            assert forall|ps2: Seq<int>| simple_inner(ts@, i as int, ps2) implies ps2 == sps by {
                lemma_simple_inner_unique(ts@, i as int, ps2, sps);
            }
        }
        if empty {
            assert(k == i);
            assert(vals@.len() == 0);
            assert(!is_tok(ts@, k as int, TokenV::DELIM));
        }
    }
    let (l, _) = many_tag(ts, k, &Token::DELIM);
    assert(delims(ts@, i as int, j as int));
    assert(delims(ts@, k as int, l as int));
    let span = match Span::reduce(vals.as_slice()) {
        Some(x) => x,
        None => {
            let end = match get0(ts, l) {
                Some(x) => x.start,
                None => i_span.end,
            };
            Span::new(i_span.start..end)
        },
    };
    Ok((l, Some(Node::new(span, vals))))
}

/// One or more expressions, the first followed by a separator.
pub fn expr_block1(ts: &[Node<Token>], i: usize) -> (r: PResult<Node<Vec<Node<Expr>>>>)
    requires
        i <= ts@.len(),
    ensures
        two_plain(ts@, i as int) ==> (r matches Ok((end, n)) && end == i + 3 && (*n.data)@.len() == 2 && plain_expr(ts@, i as int, (*n.data)@[0])
            && plain_expr(ts@, i + 2, (*n.data)@[1])),
        res_ok(r, ts@, i as int),
        r matches Ok((j, n)) ==> (*n.data)@.len() >= 1 && block_rel(ts@, i as int, j as int, (*n.data)@, false),
    decreases ts@.len() - i, 30int,
{
    let ghost two = two_plain(ts@, i as int);
    let (j, lhs) = many_tag(ts, i, &Token::DELIM);
    proof {
        if two {
            assert(!is_tok(ts@, i as int, TokenV::DELIM));
            assert(j == i);
        }
    }
    let (k, head) = expr(ts, j)?;
    let (k1, _) = many_tag(ts, k, &Token::DELIM);
    proof {
        if two {
            assert(is_tok(ts@, i + 1, TokenV::DELIM));
            assert(!is_tok(ts@, i + 2, TokenV::DELIM));
            assert(k1 == i + 2);
        }
    }
    if k1 == k {
        let last = match token_tag(ts, k, &Token::DELIM) {
            Err(PErr::Error(e)) => e,
            _ => ONode::new(get0(ts, k), Error::Error(ErrorKind::Predicate)),
        };
        return Err(
            PErr::Error(
                append(get0(ts, k), NomKind::Many1, last),
            ),
        );
    }
    let head_span = head.span;
    let mut vals: Vec<Node<Expr>> = Vec::new();
    assert(item_rel(ts@, j as int, k as int, head.span, *head.data, false));
    vals.push(head);
    assert(delims(ts@, k as int, k1 as int));
    assert(items_rel(ts@, j as int, k as int, vals@, false));
    let mut m = k1;
    let ghost mut e_end = k as int;
    let mut rest = k1;
    match expr(ts, k1) {
        Ok((k2, v)) => {
            assert(item_rel(ts@, k1 as int, k2 as int, v.span, *v.data, false));
            let ghost old_vals = vals@;
            vals.push(v);
            assert(vals@.subrange(0, vals@.len() - 1) =~= old_vals);
            m = k2;
            proof {
                e_end = k2 as int;
            }
            rest = k2;
            loop
                invariant
                    i <= k1 <= m <= ts@.len(),
                    j <= k1,
                    clean(ts@, i as int, m as int),
                    rest == m,
                    e_end == m,
                    items_rel(ts@, j as int, m as int, vals@, false),
                    two == two_plain(ts@, i as int),
                    two ==> m == i + 3 && vals@.len() == 2 && plain_expr(ts@, i as int, vals@[0]) && plain_expr(ts@, i + 2, vals@[1]),
                decreases ts@.len() - m,
            {
                let (n, _) = many_tag(ts, m, &Token::DELIM);
                proof {
                    if two {
                        assert(!is_tok(ts@, m as int, TokenV::DELIM));
                    }
                }
                if n == m {
                    break ;
                }
                match expr(ts, n) {
                    Ok((n2, v)) => {
                        assert(item_rel(ts@, n as int, n2 as int, v.span, *v.data, false));
                        let ghost old_vals = vals@;
                        let ghost m0 = m as int;
                        assert(delims(ts@, m0, n as int));
                        vals.push(v);
                        assert(vals@.subrange(0, vals@.len() - 1) =~= old_vals);
                        m = n2;
                        proof {
                            e_end = n2 as int;
                        }
                        rest = n2;
                    },
                    Err(PErr::Error(_)) => {
                        break ;
                    },
                    Err(e) => {
                        return Err(e);
                    },
                }
            }
        },
        Err(PErr::Error(_)) => {},
        Err(e) => {
            return Err(e);
        },
    }
    proof {
        if two {
            assert(!is_tok(ts@, rest as int, TokenV::DELIM));
        }
    }
    let (l, rhs) = many_tag(ts, rest, &Token::DELIM);
    assert(delims(ts@, i as int, j as int));
    assert(delims(ts@, e_end, l as int)) by {
        assert(delims(ts@, rest as int, l as int));
        assert(delims(ts@, k as int, k1 as int));
    }
    assert(items_rel(ts@, j as int, e_end, vals@, false));
    let span = head_span.add_opt(Span::reduce(vals.as_slice())).add_opt(
        Span::reduce_spans(lhs.as_slice()),
    ).add_opt(Span::reduce_spans(rhs.as_slice()));
    Ok((l, Node::new(span, vals)))
}

/// `{ ... }`: a block of expressions.
pub fn expr_enclosure(ts: &[Node<Token>], i: usize) -> (r: PResult<Node<ExprEnclosure>>)
    requires
        i <= ts@.len(),
    ensures
        !is_tok(ts@, i as int, TokenV::LBRACE) ==> r matches Err(PErr::Error(_)),
        is_tok(ts@, i as int, TokenV::LBRACE) && is_tok(ts@, i + 1, TokenV::RBRACE) ==> (r matches Ok((end, n)) && end == i + 2
            && n.data.0@.len() == 0),
        is_tok(ts@, i as int, TokenV::LBRACE) && plain_at(ts@, i + 1) && is_tok(ts@, i + 2, TokenV::RBRACE) ==> (
        r matches Ok((end, n)) && end == i + 3 && n.data.0@.len() == 1 && plain_expr(ts@, i + 1, n.data.0@[0])),
        is_tok(ts@, i as int, TokenV::LBRACE) && arith_pair(ts@, i + 1) && is_tok(ts@, i + 4, TokenV::RBRACE) ==> (
        r matches Ok((end, n)) && end == i + 5 && n.data.0@.len() == 1 && pair_expr(ts@, i + 1, n.data.0@[0])),
        forall|ps: Seq<int>|
            #![trigger simple_inner(ts@, i + 1, ps)]
            is_tok(ts@, i as int, TokenV::LBRACE) && simple_inner(ts@, i + 1, ps) ==> (r matches Ok((end, n)) && end
                == inner_end(ts@, ps) + 1 && n.data.0@.len() == ps.len() && forall|q: int|
                0 <= q < ps.len() ==> stmt_plain(ts@, ps[q], #[trigger] n.data.0@[q])),
        r matches Ok((j, n)) ==> enclosure_rel(ts@, i as int, j as int, n),
        r matches Ok((j, n)) ==> block_rel(ts@, i + 1, j - 1, n.data.0@, false),
        res_adv(r, ts@, i as int),
        r matches Ok((j, n)) ==> is_tok(ts@, i as int, TokenV::LBRACE) && is_tok(ts@, j - 1, TokenV::RBRACE)
            && n.span == span_union(ts@[i as int].span, ts@[j - 1].span),
    decreases ts@.len() - i, 30int,
{
    let (j, lhs) = token_tag(ts, i, &Token::LBRACE)?;
    let (k, val) = expr_block0(ts, j)?;
    let (l, rhs) = token_tag(ts, k, &Token::RBRACE)?;
    let span = lhs.span.add(rhs.span);
    match val {
        Some(val) => Ok((l, Node::new(span, ExprEnclosure(val.data())))),
        None => Ok((l, Node::new(span, ExprEnclosure(Vec::new())))),
    }
}

/// An expression, or an assignment `target := expr`.
pub fn assignment_expr(ts: &[Node<Token>], i: usize) -> (r: PResult<Node<Expr>>)
    requires
        i <= ts@.len(),
    ensures
        expr_end(ts@, i as int) ==> (r matches Ok((j, x)) && j == i + 1 && plain_expr(ts@, i as int, x)),
        r matches Ok((j, x)) ==> cond_rel(ts@, i as int, j as int, x.span, *x.data),
        r matches Ok((j, x)) ==> *x.data is Assign || expr_rel(ts@, i as int, j as int, x.span, *x.data),
        res_ok(r, ts@, i as int),
    decreases ts@.len() - i, 28int,
{
    let (j, lhs) = expr(ts, i)?;
    match opt_tag(ts, j, &Token::ASSIGNE) {
        Some((k, op)) => match expr_to_target(&lhs) {
            Ok(tar) => {
                let (l, rhs) = expr(ts, k)?;
                assert(assign_split(ts@, i as int, l as int, tar, TokenV::ASSIGNE, rhs)) by {
                    assert(expr_target(*lhs.data, *tar.data) && is_tok(ts@, j as int, TokenV::ASSIGNE));
                }
                let span = tar.span.add(rhs.span);
                Ok((l, Node::new(span, Expr::Assign(tar, rhs))))
            },
            Err(_) => Err(fail(Some(op), ErrorKind::Grammar)),
        },
        None => Ok((j, lhs)),
    }
}

/// An expression.
pub fn expr(ts: &[Node<Token>], i: usize) -> (r: PResult<Node<Expr>>)
    requires
        i <= ts@.len(),
    ensures
        nested_at(ts@, i as int) ==> (r matches Ok((j, x)) && j == list_end(ts@, i as int) && list_expr(ts@, i as int, x)),
        call_at(ts@, i as int) ==> (r matches Ok((j, x)) && j == call_end(ts@, i as int) && call_expr(ts@, i as int, x)),
        sign_at(ts@, i as int) ==> (r matches Ok((j, x)) && j == i + 2 && sign_expr(ts@, i as int, x)),
        dice_at(ts@, i as int) ==> (r matches Ok((j, x)) && j == dice_end(ts@, i as int) && dice_expr(ts@, i as int, x)),
        compare_pair(ts@, i as int) ==> (r matches Ok((j, x)) && j == i + 3 && compare_expr(ts@, i as int, x)),
        ends_at(ts@, i as int) && !is_tok(ts@, i as int, TokenV::COLON) ==> r matches Err(PErr::Error(_)),
        arith_pair(ts@, i as int) ==> (r matches Ok((j, x)) && j == i + 3 && pair_expr(ts@, i as int, x)),
        expr_end(ts@, i as int) ==> (r matches Ok((j, x)) && j == i + 1 && plain_expr(ts@, i as int, x)),
        r matches Ok((j, x)) ==> expr_rel(ts@, i as int, j as int, x.span, *x.data),
        res_ok(r, ts@, i as int),
    decreases ts@.len() - i, 27int,
{
    branch_expr(ts, i)
}

/// A conditional, a loop, or a function / operator expression.
pub fn branch_expr(ts: &[Node<Token>], i: usize) -> (r: PResult<Node<Expr>>)
    requires
        i <= ts@.len(),
    ensures
        nested_at(ts@, i as int) ==> (r matches Ok((j, x)) && j == list_end(ts@, i as int) && list_expr(ts@, i as int, x)),
        call_at(ts@, i as int) ==> (r matches Ok((j, x)) && j == call_end(ts@, i as int) && call_expr(ts@, i as int, x)),
        sign_at(ts@, i as int) ==> (r matches Ok((j, x)) && j == i + 2 && sign_expr(ts@, i as int, x)),
        dice_at(ts@, i as int) ==> (r matches Ok((j, x)) && j == dice_end(ts@, i as int) && dice_expr(ts@, i as int, x)),
        compare_pair(ts@, i as int) ==> (r matches Ok((j, x)) && j == i + 3 && compare_expr(ts@, i as int, x)),
        ends_at(ts@, i as int) && !is_tok(ts@, i as int, TokenV::COLON) ==> r matches Err(PErr::Error(_)),
        arith_pair(ts@, i as int) ==> (r matches Ok((j, x)) && j == i + 3 && pair_expr(ts@, i as int, x)),
        expr_end(ts@, i as int) ==> (r matches Ok((j, x)) && j == i + 1 && plain_expr(ts@, i as int, x)),
        r matches Ok((j, x)) ==> expr_rel(ts@, i as int, j as int, x.span, *x.data),
        res_ok(r, ts@, i as int),

    decreases ts@.len() - i, 26int,
{
    match if_expr(ts, i) {
        Err(PErr::Error(_)) => {},
        x => {
            return x;
        },
    }
    match match_expr(ts, i) {
        Err(PErr::Error(_)) => {},
        x => {
            return x;
        },
    }
    match loop_node(ts, i) {
        Ok((j, x)) => {
            let span = x.span;
            return Ok((j, Node::new(span, Expr::Loop(x.data()))));
        },
        Err(PErr::Error(_)) => {},
        Err(e) => {
            return Err(e);
        },
    }
    match lambda_expr(ts, i) {
        Err(PErr::Error(last)) => Err(
            PErr::Error(
                append(get0(ts, i), NomKind::Alt, last),
            ),
        ),
        x => x,
    }
}

/// `if cond { ... } else { ... }`; a missing `else` reads as an empty block
/// just after the first.
pub fn if_expr(ts: &[Node<Token>], i: usize) -> (r: PResult<Node<Expr>>)
    requires
        i <= ts@.len(),
    ensures
        is_tok(ts@, i as int, TokenV::IF) && id_brace(ts@, i + 1) && one_block(ts@, i + 2) && !is_tok(ts@, i + 5, TokenV::ELSE)
            ==> (r matches Ok((j, x)) && j == i + 5 && (*x.data matches Expr::Branch(Branch::If { val, t_block, f_block })
            && plain_expr(ts@, i + 1, val) && one_expr(ts@, i + 3, t_block) && f_block.data.0@.len() == 0)),
        forall|ps: Seq<int>|
            #![trigger simple_inner(ts@, i + 3, ps)]
            is_tok(ts@, i as int, TokenV::IF) && id_brace(ts@, i + 1) && simple_inner(ts@, i + 3, ps) && !is_tok(
                ts@,
                inner_end(ts@, ps) + 1,
                TokenV::ELSE,
            ) ==> (r matches Ok((j, x)) && j == inner_end(ts@, ps) + 1 && (*x.data matches Expr::Branch(
                Branch::If { val, t_block, f_block },
            ) && plain_expr(ts@, i + 1, val) && block_holds(ts@, ps, t_block) && f_block.data.0@.len() == 0)),
        !is_tok(ts@, i as int, TokenV::IF) ==> r matches Err(PErr::Error(_)),
        r matches Ok((j, x)) ==> (*x.data matches Expr::Branch(Branch::If { val, t_block, f_block }) && if_rel(
            ts@,
            i as int,
            j as int,
            x.span,
            val,
            t_block,
            f_block,
        )),
        r matches Ok((j, _)) ==> is_tok(ts@, j - 1, TokenV::RBRACE),
        res_adv(r, ts@, i as int),
        r is Ok ==> is_tok(ts@, i as int, TokenV::IF),
        r matches Ok((_, x)) ==> (*x.data matches Expr::Branch(Branch::If { .. })),
    decreases ts@.len() - i, 25int,
{
    let (j, lhs) = token_tag(ts, i, &Token::IF)?;
    let (k, val) = assignment_expr(ts, j)?;
    let (l, t_block) = expr_enclosure(ts, k)?;
    let f = match opt_tag(ts, l, &Token::ELSE) {
        Some((m, _)) => match expr_enclosure(ts, m) {
            Ok((m2, f_block)) => Some((m2, f_block)),
            Err(PErr::Error(_)) => None,
            Err(e) => {
                return Err(e);
            },
        },
        None => None,
    };
    match f {
        Some((m, f_block)) => {
            let span = lhs.span.add(f_block.span);
            Ok((m, Node::new(span, Expr::Branch(Branch::If { val, t_block, f_block }))))
        },
        None => {
            let rhs_end = t_block.span.end;
            let span = lhs.span.add(t_block.span);
            Ok(
                (
                    l,
                    Node::new(
                        span,
                        Expr::Branch(
                            Branch::If {
                                val,
                                t_block,
                                f_block: Node::new(
                                    Span::new(rhs_end..rhs_end),
                                    ExprEnclosure(Vec::new()),
                                ),
                            },
                        ),
                    ),
                ),
            )
        },
    }
}

/// `match val { pattern => { ... } pattern => expr, ... }`.
pub fn match_expr(ts: &[Node<Token>], i: usize) -> (r: PResult<Node<Expr>>)
    requires
        i <= ts@.len(),
    ensures
        simple_match(ts@, i as int) ==> (r matches Ok((j, x)) && j == i + 7 && x.span == span_union(ts@[i as int].span, ts@[i + 6].span)
            && (*x.data matches Expr::Branch(Branch::Match { val, arms }) && plain_expr(ts@, i + 1, val) && arms@.len() == 1
            && simple_arm(ts@, i as int, arms@[0]))),
        forall|n: int, tc: bool|
            #![trigger plain_match(ts@, i as int, n, tc)]
            plain_match(ts@, i as int, n, tc) ==> (r matches Ok((j, x)) && j == match_end(i as int, n, tc) && x.span
                == span_union(ts@[i as int].span, ts@[j - 1].span) && (*x.data matches Expr::Branch(
                Branch::Match { val, arms },
            ) && plain_expr(ts@, i + 1, val) && arms@.len() == n && forall|q: int|
                0 <= q < n ==> simple_arm(ts@, i + 4 * q, #[trigger] arms@[q]))),
        !is_tok(ts@, i as int, TokenV::MATCH) ==> r matches Err(PErr::Error(_)),
        r matches Ok((j, x)) ==> (*x.data matches Expr::Branch(Branch::Match { val, arms }) && match_rel(
            ts@,
            i as int,
            j as int,
            x.span,
            val,
            arms@,
        )),
        r matches Ok((j, _)) ==> is_tok(ts@, j - 1, TokenV::RBRACE),
        res_adv(r, ts@, i as int),
        r is Ok ==> is_tok(ts@, i as int, TokenV::MATCH),
        r matches Ok((_, x)) ==> (*x.data matches Expr::Branch(Branch::Match { .. })),
    decreases ts@.len() - i, 25int,
{
    let ghost simple = simple_match(ts@, i as int);
    let ghost pm = exists|n: int, tc: bool| plain_match(ts@, i as int, n, tc);
    let ghost (pn, ptc) = choose|n: int, tc: bool| plain_match(ts@, i as int, n, tc);
    let (j, lhs) = token_tag(ts, i, &Token::MATCH)?;
    let (k, val) = assignment_expr(ts, j)?;
    let (k1, _) = token_tag(ts, k, &Token::LBRACE)?;
    proof {
        if simple || pm {
            assert(expr_end(ts@, i + 1));
            assert(k == i + 2);
            assert(k1 == i + 3);
        }
    }
    let mut arms: Vec<Node<MatchArm>> = Vec::new();
    let mut m = k1;
    loop
        invariant_except_break
            simple ==> arms@.len() == 0 && m == k1,
            pm ==> arms@.len() < pn || (ptc && arms@.len() == pn),
            pm ==> m == i + 3 + 4 * arms@.len(),
        invariant
            is_tok(ts@, i as int, TokenV::MATCH),
            i < k1 <= m <= ts@.len(),
            clean(ts@, i as int, m as int),
            k1 == k + 1,
            arms_rel(ts@, k1 as int, m as int, arms@),
            simple == simple_match(ts@, i as int),
            simple ==> k1 == i + 3,
            pm == (exists|n: int, tc: bool| plain_match(ts@, i as int, n, tc)),
            pm ==> plain_match(ts@, i as int, pn, ptc) && k1 == i + 3,
            pm ==> arms@.len() <= pn && forall|q: int|
                0 <= q < arms@.len() ==> simple_arm(ts@, i + 4 * q, #[trigger] arms@[q]),
        ensures
            is_tok(ts@, i as int, TokenV::MATCH),
            i < k1 <= m <= ts@.len(),
            clean(ts@, i as int, m as int),
            k1 == k + 1,
            arms_rel(ts@, k1 as int, m as int, arms@),
            simple ==> arms@.len() == 1 && m == i + 6 && simple_arm(ts@, i as int, arms@[0]),
            pm ==> arms@.len() == pn && m == match_end(i as int, pn, ptc) - 1 && forall|q: int|
                0 <= q < arms@.len() ==> simple_arm(ts@, i + 4 * q, #[trigger] arms@[q]),
        decreases ts@.len() - m,
    {
        let ghost m0 = m as int;
        let ghost old_arms = arms@;
        proof {
            if pm {
                let q = arms@.len() as int;
                if q < pn {
                    assert(i + 3 + 4 * q < ts@.len() && token_admitted(tok_at(ts@, i + 3 + 4 * q), 2));
                    if q + 1 < pn {
                        assert(is_tok(ts@, i + 6 + 4 * q, TokenV::COMMA));
                    }
                    assert(plain_at(ts@, i + 5 + 4 * q));
                } else {
                    assert(is_tok(ts@, m as int, TokenV::RBRACE));
                }
            }
        }
        let tar = match target_match(ts, m) {
            Ok((m1, tar)) => {
                m = m1;
                tar
            },
            Err(PErr::Error(_)) => {
                break ;
            },
            Err(e) => {
                return Err(e);
            },
        };
        let ghost b0 = m as int;
        let (m2, _) = token_tag(ts, m, &Token::ARROW)?;
        match expr_enclosure(ts, m2) {
            Ok((m3, block)) => {
                let span = tar.span.add(block.span);
                let ghost tg = tar;
                let ghost bg = block;
                arms.push(Node::new(span, MatchArm { tar, block }));
                m = m3;
                assert(arms@.subrange(0, arms@.len() - 1) =~= old_arms);
                assert(arms_last(ts@, k1 as int, m as int, old_arms, tg, bg, span)) by {
                    assert(mt_rel(ts@, m0, b0, tg.span, *tg.data));
                }
            },
            Err(PErr::Error(_)) => {
                proof {
                    if simple {
                        assert(m2 == i + 5);
                        assert(!is_tok(ts@, m2 as int, TokenV::LBRACE));
                    }
                    if pm {
                        assert(m2 == i + 5 + 4 * old_arms.len());
                    }
                }
                let (m3, val) = expr(ts, m2)?;
                let span = tar.span.add(val.span);
                let vspan = val.span;
                let mut b: Vec<Node<Expr>> = Vec::new();
                b.push(val);
                let block = Node::new(vspan, ExprEnclosure(b));
                let ghost tg = tar;
                let ghost bg = block;
                arms.push(Node::new(span, MatchArm { tar, block }));
                assert(arms@.subrange(0, arms@.len() - 1) =~= old_arms);
                match opt_tag(ts, m3, &Token::COMMA) {
                    Some((m4, _)) => {
                        m = m4;
                    },
                    None => {
                        m = m3;
                    },
                }
                assert(arms_last(ts@, k1 as int, m as int, old_arms, tg, bg, span)) by {
                    assert(mt_rel(ts@, m0, b0, tg.span, *tg.data));
                }
                if m == m3 {
                    break ;
                }
            },
            Err(e) => {
                return Err(e);
            },
        }
    }
    let (n, rhs) = token_tag(ts, m, &Token::RBRACE)?;
    let span = lhs.span.add(rhs.span);
    proof {
        if pm {
            assert forall|n2: int, tc2: bool| plain_match(ts@, i as int, n2, tc2) implies n2 == pn && tc2 == ptc by {
                lemma_plain_match_unique(ts@, i as int, n2, tc2, pn, ptc);
            }
        }
    }
    Ok((n, Node::new(span, Expr::Branch(Branch::Match { val, arms }))))
}

/// The arm of a `simple_match` at `i`: the literal pattern and the atom
/// value, each in its place.
pub open spec fn simple_arm(ts: Seq<Node<Token>>, i: int, arm: Node<MatchArm>) -> bool {
    &&& arm.span == span_union(ts[i + 3].span, ts[i + 5].span)
    &&& (*arm.data.tar.data matches Match::Literal(a) && atom_of_token(tok_at(ts, i + 3), a))
    &&& arm.data.tar.span == ts[i + 3].span
    &&& arm.data.block.span == ts[i + 5].span
    &&& one_expr(ts, i + 5, arm.data.block)
}

/// `match x { lit => a }`: a name, one arm whose pattern is a literal and
/// whose value is an atom, then the closing brace.
pub open spec fn simple_match(ts: Seq<Node<Token>>, i: int) -> bool {
    &&& is_tok(ts, i, TokenV::MATCH)
    &&& id_brace(ts, i + 1)
    &&& i + 3 < ts.len() && token_admitted(tok_at(ts, i + 3), 2)
    &&& is_tok(ts, i + 4, TokenV::ARROW)
    &&& plain_at(ts, i + 5)
    &&& is_tok(ts, i + 6, TokenV::RBRACE)
}

/// `match x { l1 => a1, ..., ln => an }` at `i`, with a comma after the last
/// arm when `tc`: a name, then `n` arms whose patterns are literals and whose
/// values are atoms, the arm `q` starting at `i + 3 + 4 * q`.
pub open spec fn plain_match(ts: Seq<Node<Token>>, i: int, n: int, tc: bool) -> bool {
    &&& 0 <= i
    &&& n >= 1
    &&& is_tok(ts, i, TokenV::MATCH)
    &&& id_brace(ts, i + 1)
    &&& forall|q: int|
        0 <= q < n ==> i + 3 + 4 * q < ts.len() && token_admitted(tok_at(ts, #[trigger] (i + 3 + 4 * q)), 2) && is_tok(
            ts,
            i + 4 + 4 * q,
            TokenV::ARROW,
        ) && atom_at(ts, i + 5 + 4 * q)
    &&& forall|q: int| 0 <= q < n - 1 ==> is_tok(ts, #[trigger] (i + 6 + 4 * q), TokenV::COMMA)
    &&& if tc {
        is_tok(ts, i + 2 + 4 * n, TokenV::COMMA) && is_tok(ts, i + 3 + 4 * n, TokenV::RBRACE)
    } else {
        is_tok(ts, i + 2 + 4 * n, TokenV::RBRACE)
    }
}

/// The position after a `plain_match`.
pub open spec fn match_end(i: int, n: int, tc: bool) -> int {
    if tc {
        i + 4 + 4 * n
    } else {
        i + 3 + 4 * n
    }
}

/// A `plain_match` has one number of arms and one ending.
pub proof fn lemma_plain_match_unique(ts: Seq<Node<Token>>, i: int, n1: int, tc1: bool, n2: int, tc2: bool)
    requires
        plain_match(ts, i, n1, tc1),
        plain_match(ts, i, n2, tc2),
    ensures
        n1 == n2 && tc1 == tc2,
{
    if n1 < n2 {
        assert(is_tok(ts, i + 6 + 4 * (n1 - 1), TokenV::COMMA));
        assert(i + 3 + 4 * n1 < ts.len() && token_admitted(tok_at(ts, i + 3 + 4 * n1), 2));
    } else if n2 < n1 {
        assert(is_tok(ts, i + 6 + 4 * (n2 - 1), TokenV::COMMA));
        assert(i + 3 + 4 * n2 < ts.len() && token_admitted(tok_at(ts, i + 3 + 4 * n2), 2));
    }
}

/// `pattern => { ... }`.
pub fn match_arm(ts: &[Node<Token>], i: usize) -> (r: PResult<Node<MatchArm>>)
    requires
        i <= ts@.len(),
    ensures
        i < ts@.len() && token_admitted(tok_at(ts@, i as int), 2) && is_tok(ts@, i + 1, TokenV::ARROW) && one_block(ts@, i + 2)
            ==> (r matches Ok((j, x)) && j == i + 5 && (*x.data.tar.data matches Match::Literal(a) && atom_of_token(tok_at(ts@, i as int), a))
            && x.data.tar.span == ts@[i as int].span && one_expr(ts@, i + 3, x.data.block)),
        res_ok(r, ts@, i as int),
    decreases ts@.len() - i, 25int,
{
    let ghost simple = i < ts@.len() && token_admitted(tok_at(ts@, i as int), 2) && is_tok(ts@, i + 1, TokenV::ARROW)
        && one_block(ts@, i + 2);
    let (j, tar) = target_match(ts, i)?;
    proof {
        if simple {
            assert(j == i + 1);
        }
    }
    let (k, _) = token_tag(ts, j, &Token::ARROW)?;
    let (l, block) = expr_enclosure(ts, k)?;
    proof {
        if simple {
            assert(k == i + 2);
            assert(one_block(ts@, k as int));
            assert(l == i + 5);
            assert(one_expr(ts@, i + 3, block));
        }
    }
    let span = tar.span.add(block.span);
    Ok((l, Node::new(span, MatchArm { tar, block })))
}

/// A loop with an optional label `:name:`.
pub fn loop_node(ts: &[Node<Token>], i: usize) -> (r: PResult<Node<Loop>>)
    requires
        i <= ts@.len(),
    ensures
        is_tok(ts@, i as int, TokenV::LOOP) && one_block(ts@, i + 1) ==> (r matches Ok((j, x)) && j == i + 4 && x.data.id is None
            && (x.data.data matches LoopKind::Loop { block } && one_expr(ts@, i + 2, block))),
        !(is_tok(ts@, i as int, TokenV::COLON) || is_tok(ts@, i as int, TokenV::FOR) || is_tok(
            ts@,
            i as int,
            TokenV::WHILE,
        ) || is_tok(ts@, i as int, TokenV::LOOP)) ==> r matches Err(PErr::Error(_)),
        r matches Ok((j, x)) ==> loop_rel(ts@, i as int, j as int, x.span, *x.data),
        r matches Ok((j, _)) ==> (is_tok(ts@, i as int, TokenV::COLON) || is_tok(ts@, i as int, TokenV::FOR)
            || is_tok(ts@, i as int, TokenV::WHILE) || is_tok(ts@, i as int, TokenV::LOOP)) && is_tok(ts@, j - 1, TokenV::RBRACE),
        res_adv(r, ts@, i as int),
    decreases ts@.len() - i, 25int,
{
    let (j, id) = match loop_label(ts, i) {
        Ok((j, x)) => (j, Some(x)),
        Err(PErr::Error(_)) => (i, None),
        Err(e) => {
            return Err(e);
        },
    };
    let (k, val) = match for_expr(ts, j) {
        Ok(x) => x,
        Err(PErr::Error(_)) => match while_expr(ts, j) {
            Ok(x) => x,
            Err(PErr::Error(_)) => match loop_expr(ts, j) {
                Ok(x) => x,
                Err(PErr::Error(last)) => {
                    return Err(
                        PErr::Error(
                            append(get0(ts, j), NomKind::Alt, last),
                        ),
                    );
                },
                Err(e) => {
                    return Err(e);
                },
            },
            Err(e) => {
                return Err(e);
            },
        },
        Err(e) => {
            return Err(e);
        },
    };
    let span = val.span.add_opt(Span::option(&id));
    Ok((k, Node::new(span, Loop { id, data: val.data() })))
}

/// `:name:`
pub fn loop_label(ts: &[Node<Token>], i: usize) -> (r: PResult<Node<Id>>)
    requires
        i <= ts@.len(),
    ensures
        !is_tok(ts@, i as int, TokenV::COLON) ==> r matches Err(PErr::Error(_)),
        res_adv(r, ts@, i as int),
        r is Ok <==> (is_tok(ts@, i as int, TokenV::COLON) && i + 1 < ts@.len() && tok_at(ts@, i + 1)
            is Id && is_tok(ts@, i + 2, TokenV::COLON)),
        r matches Ok((j, x)) ==> j == i + 3 && x.span == ts@[i + 1].span && TokenV::Id(x.data.0@)
            == tok_at(ts@, i + 1),
    decreases ts@.len() - i, 24int,
{
    let (j, _) = token_tag(ts, i, &Token::COLON)?;
    let (k, val) = token_tag_id(ts, j)?;
    let (l, _) = token_tag(ts, k, &Token::COLON)?;
    Ok((l, val))
}

/// `for target in expr { ... }`
pub fn for_expr(ts: &[Node<Token>], i: usize) -> (r: PResult<Node<LoopKind>>)
    requires
        i <= ts@.len(),
    ensures
        is_tok(ts@, i as int, TokenV::FOR) && id_at(ts@, i + 1) && is_tok(ts@, i + 2, TokenV::IN) && id_brace(ts@, i + 3)
            && one_block(ts@, i + 4) ==> (r matches Ok((j, x)) && j == i + 7 && (*x.data matches LoopKind::For { tar, val, block }
            && tgt_id(ts@, i + 1, tar) && plain_expr(ts@, i + 3, val) && one_expr(ts@, i + 5, block))),
        forall|ps: Seq<int>|
            #![trigger simple_inner(ts@, i + 5, ps)]
            is_tok(ts@, i as int, TokenV::FOR) && id_at(ts@, i + 1) && is_tok(ts@, i + 2, TokenV::IN) && id_brace(ts@, i + 3)
                && simple_inner(ts@, i + 5, ps) ==> (r matches Ok((j, x)) && j == inner_end(ts@, ps) + 1 && (*x.data matches LoopKind::For {
                tar,
                val,
                block,
            } && tgt_id(ts@, i + 1, tar) && plain_expr(ts@, i + 3, val) && block_holds(ts@, ps, block))),
        !is_tok(ts@, i as int, TokenV::FOR) ==> r matches Err(PErr::Error(_)),
        r matches Ok((j, x)) ==> loop_kind_rel(ts@, i as int, j as int, *x.data) && x.span == span_union(
            ts@[i as int].span,
            loop_block(*x.data).span,
        ),
        r matches Ok((j, _)) ==> is_tok(ts@, j - 1, TokenV::RBRACE),
        res_adv(r, ts@, i as int),
        r matches Ok((_, x)) ==> is_tok(ts@, i as int, TokenV::FOR) && *x.data is For,
    decreases ts@.len() - i, 24int,
{
    let (j, lhs) = token_tag(ts, i, &Token::FOR)?;
    let (k, tar) = target(ts, j)?;
    let (l, _) = token_tag(ts, k, &Token::IN)?;
    let (m, val) = assignment_expr(ts, l)?;
    let (n, block) = expr_enclosure(ts, m)?;
    assert(for_split(ts@, i as int, n as int, tar, val, block)) by {
        assert(tgt_rel(ts@, i + 1, k as int, tar.span, *tar.data));
        assert(enclosed(ts@, m as int, n as int, block.span, TokenV::LBRACE, TokenV::RBRACE));
    }
    let span = lhs.span.add(block.span);
    Ok((n, Node::new(span, LoopKind::For { tar, val, block })))
}

/// `while cond { ... }`
pub fn while_expr(ts: &[Node<Token>], i: usize) -> (r: PResult<Node<LoopKind>>)
    requires
        i <= ts@.len(),
    ensures
        is_tok(ts@, i as int, TokenV::WHILE) && id_brace(ts@, i + 1) && one_block(ts@, i + 2) ==> (r matches Ok((j, x)) && j
            == i + 5 && (*x.data matches LoopKind::While { val, block } && plain_expr(ts@, i + 1, val) && one_expr(ts@, i + 3, block))),
        forall|ps: Seq<int>|
            #![trigger simple_inner(ts@, i + 3, ps)]
            is_tok(ts@, i as int, TokenV::WHILE) && id_brace(ts@, i + 1) && simple_inner(ts@, i + 3, ps) ==> (r matches Ok(
                (j, x),
            ) && j == inner_end(ts@, ps) + 1 && (*x.data matches LoopKind::While { val, block } && plain_expr(ts@, i + 1, val)
                && block_holds(ts@, ps, block))),
        !is_tok(ts@, i as int, TokenV::WHILE) ==> r matches Err(PErr::Error(_)),
        r matches Ok((j, x)) ==> loop_kind_rel(ts@, i as int, j as int, *x.data) && x.span == span_union(
            ts@[i as int].span,
            loop_block(*x.data).span,
        ),
        r matches Ok((j, _)) ==> is_tok(ts@, j - 1, TokenV::RBRACE),
        res_adv(r, ts@, i as int),
        r matches Ok((_, x)) ==> is_tok(ts@, i as int, TokenV::WHILE) && *x.data is While,
    decreases ts@.len() - i, 24int,
{
    let (j, lhs) = token_tag(ts, i, &Token::WHILE)?;
    let (k, val) = assignment_expr(ts, j)?;
    let (l, block) = expr_enclosure(ts, k)?;
    assert(while_split(ts@, i as int, l as int, val, block)) by {
        assert(enclosed(ts@, k as int, l as int, block.span, TokenV::LBRACE, TokenV::RBRACE));
    }
    let span = lhs.span.add(block.span);
    Ok((l, Node::new(span, LoopKind::While { val, block })))
}

/// `loop { ... }`
pub fn loop_expr(ts: &[Node<Token>], i: usize) -> (r: PResult<Node<LoopKind>>)
    requires
        i <= ts@.len(),
    ensures
        is_tok(ts@, i as int, TokenV::LOOP) && one_block(ts@, i + 1) ==> (r matches Ok((j, x)) && j == i + 4 && (
        *x.data matches LoopKind::Loop { block } && one_expr(ts@, i + 2, block))),
        forall|ps: Seq<int>|
            #![trigger simple_inner(ts@, i + 2, ps)]
            is_tok(ts@, i as int, TokenV::LOOP) && is_tok(ts@, i + 1, TokenV::LBRACE) && simple_inner(ts@, i + 2, ps) ==> (
            r matches Ok((j, x)) && j == inner_end(ts@, ps) + 1 && (*x.data matches LoopKind::Loop { block } && block_holds(
                ts@,
                ps,
                block,
            ))),
        !is_tok(ts@, i as int, TokenV::LOOP) ==> r matches Err(PErr::Error(_)),
        r matches Ok((j, x)) ==> loop_kind_rel(ts@, i as int, j as int, *x.data) && x.span == span_union(
            ts@[i as int].span,
            loop_block(*x.data).span,
        ),
        r matches Ok((j, _)) ==> is_tok(ts@, j - 1, TokenV::RBRACE),
        res_adv(r, ts@, i as int),
        r matches Ok((_, x)) ==> is_tok(ts@, i as int, TokenV::LOOP) && *x.data is Loop,
    decreases ts@.len() - i, 24int,
{
    let (j, lhs) = token_tag(ts, i, &Token::LOOP)?;
    let (k, block) = expr_enclosure(ts, j)?;
    let span = lhs.span.add(block.span);
    Ok((k, Node::new(span, LoopKind::Loop { block })))
}

/// The parameters of a function, from a name or a tuple of targets.
fn single_param(span: Span, x: String) -> (r: Node<CommaList<TargetListItem<TargetExpr>>>)
    ensures
        r.span == span,
        r.data.0@.len() == 1,
        r.data.0@[0].span == span,
        *r.data.0@[0].data matches TargetListItem::Target(TargetExpr::Id(y)) && y@ == x@,
{
    let mut v: Vec<Node<TargetListItem<TargetExpr>>> = Vec::new();
    v.push(Node::new(span, TargetListItem::Target(TargetExpr::Id(x))));
    Node::new(span, CommaList(v))
}

/// A function `params => { ... }`, or an operator expression.
pub fn lambda_expr(ts: &[Node<Token>], i: usize) -> (r: PResult<Node<Expr>>)
    requires
        i <= ts@.len(),
    ensures
        r matches Ok((j, x)) ==> (!(*x.data is Function) ==> !is_tok(ts@, j as int, TokenV::ARROW) && or_rel(ts@, i as int, j as int, x.span, *x.data)),
        nested_at(ts@, i as int) ==> (r matches Ok((j, x)) && j == list_end(ts@, i as int) && list_expr(ts@, i as int, x)),
        call_at(ts@, i as int) ==> (r matches Ok((j, x)) && j == call_end(ts@, i as int) && call_expr(ts@, i as int, x)),
        sign_at(ts@, i as int) ==> (r matches Ok((j, x)) && j == i + 2 && sign_expr(ts@, i as int, x)),
        dice_at(ts@, i as int) ==> (r matches Ok((j, x)) && j == dice_end(ts@, i as int) && dice_expr(ts@, i as int, x)),
        compare_pair(ts@, i as int) ==> (r matches Ok((j, x)) && j == i + 3 && compare_expr(ts@, i as int, x)),
        tok_at(ts@, i as int) is Id && is_tok(ts@, i + 1, TokenV::ARROW) && one_block(ts@, i + 2) ==> (r matches Ok((j, f))
            && j == i + 5 && f.span == span_union(ts@[i as int].span, span_union(ts@[i + 2].span, ts@[i + 4].span)) && simple_fn(ts@, i as int, f)),
        tok_at(ts@, i as int) is Id && is_tok(ts@, i + 1, TokenV::ARROW) && pair_block(ts@, i + 2) ==> (r matches Ok((j, f))
            && j == i + 7 && f.span == span_union(ts@[i as int].span, span_union(ts@[i + 2].span, ts@[i + 6].span)) && pair_fn(ts@, i as int, f)),
        forall|ps: Seq<int>|
            #![trigger simple_inner(ts@, i + 3, ps)]
            tok_at(ts@, i as int) is Id && is_tok(ts@, i + 1, TokenV::ARROW) && is_tok(ts@, i + 2, TokenV::LBRACE)
                && simple_inner(ts@, i + 3, ps) ==> (r matches Ok((j, f)) && j == inner_end(ts@, ps) + 1 && f.span
                == span_union(ts@[i as int].span, span_union(ts@[i + 2].span, ts@[j - 1].span)) && simple_fn_block(
                ts@,
                i as int,
                ps,
                f,
            )),
        arith_pair(ts@, i as int) ==> (r matches Ok((j, x)) && j == i + 3 && pair_expr(ts@, i as int, x)),
        expr_end(ts@, i as int) ==> (r matches Ok((j, x)) && j == i + 1 && plain_expr(ts@, i as int, x)),
        ends_at(ts@, i as int) ==> r matches Err(PErr::Error(_)),
        r matches Ok((j, x)) ==> expr_rel(ts@, i as int, j as int, x.span, *x.data) && (*x.data is Function
            || *x.data is Op || *x.data is Primary),
        res_ok(r, ts@, i as int),
    decreases ts@.len() - i, 25int,
{
    let first = or_test(ts, i);
    proof {
        if tok_at(ts@, i as int) is Id && is_tok(ts@, i + 1, TokenV::ARROW) {
            assert(atom_end(ts@, i as int));
        }
    }
    lambda_after(ts, i, first)
}

/// The function `x => { a }` at `i`: its one parameter, the name, and its
/// block holding the atom, each in its place.
pub open spec fn simple_fn(ts: Seq<Node<Token>>, i: int, f: Node<Expr>) -> bool {
    *f.data matches Expr::Function { args, block } && args.span == ts[i].span && args.data.0@.len() == 1
        && args.data.0@[0].span == ts[i].span && (*args.data.0@[0].data matches TargetListItem::Target(
        TargetExpr::Id(x),
    ) && tok_at(ts, i) == TokenV::Id(x@)) && block.span == span_union(ts[i + 2].span, ts[i + 4].span) && one_expr(
        ts,
        i + 3,
        block,
    )
}

/// `{ a op b }` at `i`: a block holding one operation on two atoms.
pub open spec fn pair_block(ts: Seq<Node<Token>>, i: int) -> bool {
    is_tok(ts, i, TokenV::LBRACE) && arith_pair(ts, i + 1) && is_tok(ts, i + 4, TokenV::RBRACE)
}

/// The function `x => { a op b }` at `i`: its one parameter, the name, and
/// its block holding the operation, each in its place.
pub open spec fn pair_fn(ts: Seq<Node<Token>>, i: int, f: Node<Expr>) -> bool {
    *f.data matches Expr::Function { args, block } && args.span == ts[i].span && args.data.0@.len() == 1
        && args.data.0@[0].span == ts[i].span && (*args.data.0@[0].data matches TargetListItem::Target(
        TargetExpr::Id(x),
    ) && tok_at(ts, i) == TokenV::Id(x@)) && block.span == span_union(ts[i + 2].span, ts[i + 6].span)
        && block.data.0@.len() == 1 && pair_expr(ts, i + 3, block.data.0@[0])
}

/// The function `x => { s1; ...; sn }` at `i`, its expressions simple and
/// starting at `ps`: its one parameter, the name, and its block holding the
/// expressions, each in its place.
pub open spec fn simple_fn_block(ts: Seq<Node<Token>>, i: int, ps: Seq<int>, f: Node<Expr>) -> bool {
    *f.data matches Expr::Function { args, block } && args.span == ts[i].span && args.data.0@.len() == 1
        && args.data.0@[0].span == ts[i].span && (*args.data.0@[0].data matches TargetListItem::Target(
        TargetExpr::Id(x),
    ) && tok_at(ts, i) == TokenV::Id(x@)) && block.span == span_union(ts[i + 2].span, ts[inner_end(ts, ps)].span)
        && block.data.0@.len() == ps.len() && forall|q: int|
        0 <= q < ps.len() ==> stmt_plain(ts, ps[q], #[trigger] block.data.0@[q])
}

/// What follows the operand `first` that `or_test` read at `i`: a function
/// when `=>` comes next, else the operand itself, unchanged.
pub fn lambda_after(ts: &[Node<Token>], i: usize, first: PResult<Node<Expr>>) -> (r: PResult<Node<Expr>>)
    requires
        i <= ts@.len(),
        res_ok(first, ts@, i as int),
        first matches Ok((j, x)) ==> or_rel(ts@, i as int, j as int, x.span, *x.data),
    ensures
        r matches Ok((j, x)) ==> (!(*x.data is Function) ==> !is_tok(ts@, j as int, TokenV::ARROW) && or_rel(ts@, i as int, j as int, x.span, *x.data)),
        first matches Ok((j, x)) && !is_tok(ts@, j as int, TokenV::ARROW) ==> r == first,
        first matches Err(PErr::Error(_)) ==> r == first,
        tok_at(ts@, i as int) is Id && is_tok(ts@, i + 1, TokenV::ARROW) && one_block(ts@, i + 2) && (first matches Ok((j, x))
            && j == i + 1 && plain_expr(ts@, i as int, x)) ==> (r matches Ok((j, f)) && j == i + 5 && f.span == span_union(
            ts@[i as int].span,
            span_union(ts@[i + 2].span, ts@[i + 4].span),
        ) && simple_fn(ts@, i as int, f)),
        tok_at(ts@, i as int) is Id && is_tok(ts@, i + 1, TokenV::ARROW) && pair_block(ts@, i + 2) && (first matches Ok((j, x))
            && j == i + 1 && plain_expr(ts@, i as int, x)) ==> (r matches Ok((j, f)) && j == i + 7 && f.span == span_union(
            ts@[i as int].span,
            span_union(ts@[i + 2].span, ts@[i + 6].span),
        ) && pair_fn(ts@, i as int, f)),
        forall|ps: Seq<int>|
            #![trigger simple_inner(ts@, i + 3, ps)]
            tok_at(ts@, i as int) is Id && is_tok(ts@, i + 1, TokenV::ARROW) && is_tok(ts@, i + 2, TokenV::LBRACE)
                && simple_inner(ts@, i + 3, ps) && (first matches Ok((j, x)) && j == i + 1 && plain_expr(ts@, i as int, x))
                ==> (r matches Ok((j, f)) && j == inner_end(ts@, ps) + 1 && f.span == span_union(
                ts@[i as int].span,
                span_union(ts@[i + 2].span, ts@[j - 1].span),
            ) && simple_fn_block(ts@, i as int, ps, f)),
        r matches Ok((j, x)) ==> expr_rel(ts@, i as int, j as int, x.span, *x.data) && (*x.data is Function
            || *x.data is Op || *x.data is Primary),
        res_ok(r, ts@, i as int),
    decreases ts@.len() - i, 24int,

{
    let (j, lhs) = match first {
        Ok(x) => x,
        Err(PErr::Failure(val)) => {
            let span = val.span;
            match val.data() {
                Error::Convert(k, ConvertKind::TargetKindExpr(lhs)) => {
                    match opt_tag(ts, k, &Token::ARROW) {
                        None => {
                            return Err(
                                PErr::Failure(
                                    ONode::new(
                                        span,
                                        Error::Convert(k, ConvertKind::TargetKindExpr(lhs)),
                                    ),
                                ),
                            );
                        },
                        Some((k1, _)) => {
                            let lspan = lhs.span;
                            let args = match lhs.data() {
                                TargetExpr::Id(x) => single_param(lspan, x),
                                TargetExpr::TargetTuple(x) => Node::new(lspan, CommaList(x)),
                                _ => {
                                    return Err(fail(span, ErrorKind::Grammar));
                                },
                            };
                            let (k2, block) = expr_enclosure(ts, k1)?;
                            assert(fn_split(ts@, i as int, k2 as int, block)) by {
                                assert(enclosed(ts@, k1 as int, k2 as int, block.span, TokenV::LBRACE, TokenV::RBRACE));
                            }
                            let fspan = lspan.add(block.span);
                            return Ok((k2, Node::new(fspan, Expr::Function { args, block })));
                        },
                    }
                },
                other => {
                    return Err(PErr::Failure(ONode::new(span, other)));
                },
            }
        },
        Err(e) => {
            return Err(e);
        },
    };
    let lhs_span = lhs.span;
    proof {
        lemma_or_shape(ts@, i as int, j as int, lhs.span, *lhs.data);
    }
    match opt_tag(ts, j, &Token::ARROW) {
        None => Ok((j, lhs)),
        Some((k, _)) => {
            let tar = match expr_to_target(&lhs) {
                Ok(t) => t,
                Err(_) => {
                    return Err(fail(Some(lhs_span), ErrorKind::Grammar));
                },
            };
            let (l, block) = expr_enclosure(ts, k)?;
            let tspan = tar.span;
            let args = match &*tar.data {
                Target::Id(x) => single_param(lhs_span, x.clone()),
                Target::TargetTuple(x) => Node::new(
                    lhs_span,
                    CommaList(list_items_to_target_expr(&tar.data, x)),
                ),
                _ => {
                    return Err(fail(Some(tspan), ErrorKind::Grammar));
                },
            };
            assert(fn_split(ts@, i as int, l as int, block)) by {
                assert(enclosed(ts@, k as int, l as int, block.span, TokenV::LBRACE, TokenV::RBRACE));
            }
            let span = lhs_span.add(block.span);
            Ok((l, Node::new(span, Expr::Function { args, block })))
        },
    }
}

} // verus!
