use vstd::prelude::*;

use super::error::{append, clean, fail, res_adv, res_ok, Error, ErrorKind, NomKind, PErr, PResult};
use super::expr::{expr, loop_label};
use super::grammar::{
    add_tok, arith_pair, arith_tok, atom_at, block_rel, delims, ends_at, item_rel, items_rel, pair_expr, plain_at, plain_block,
    plain_count, plain_expr,
    stmt_rel, two_plain,
};
use super::tok::{get0, is_tok, many_tag, opt_tag, tok_at, token_tag};
use super::atom::token_admitted;
use crate::types::span::{span_union, spec_reduce};
use crate::types::node::node_spans;
use crate::ast::convert::expr_to_target;
use crate::ast::{Atom, Expr, ExprEnclosure, Primary, Stmt};
use crate::lexer::token::{Token, TokenV};
use crate::types::node::{BaseNode, Node, ONode};
use crate::types::span::Span;

use super::nested::{
    item_end, item_tree, lemma_item_kinds, lemma_item_tree_of, lemma_same_ends, lemma_same_trees, list_end, list_expr, list_tree,
    nested_at, nested_list, same_tokens, sign_at, sign_expr, dice_at, dice_end, dice_expr, dice_open, die_open,
};
use super::call_form::{call_at, call_end, call_expr, call_open};
use super::grammar::{compare_expr, compare_pair, eqs_tok};
verus! {

/// The number of tokens of a simple statement at `p`: three for `a op b`,
/// one for an atom.
pub open spec fn stmt_width(ts: Seq<Node<Token>>, p: int) -> int {
    if arith_tok(ts, p + 1) {
        3
    } else {
        1
    }
}

/// `x` is the simple statement at `p`: the operation `a op b`, or the atom.
pub open spec fn stmt_plain(ts: Seq<Node<Token>>, p: int, x: Node<Expr>) -> bool {
    if arith_tok(ts, p + 1) {
        pair_expr(ts, p, x)
    } else {
        plain_expr(ts, p, x)
    }
}

/// A call, dice, a signed atom or a comparison starts at `p`: a display
/// item other than an atom, `a op b` or a list display.
pub open spec fn item_stmt(ts: Seq<Node<Token>>, p: int) -> bool {
    call_open(ts, p) || dice_open(ts, p) || die_open(ts, p) || (add_tok(ts, p) && atom_at(ts, p + 1)) || (atom_at(ts, p)
        && eqs_tok(ts, p + 1) && atom_at(ts, p + 2))
}

/// Where the simple statement at `p` ends: after the closing bracket of a
/// list display, where the call, the dice or the signed atom ends, else after
/// the operation or the atom.
pub open spec fn stmt_end(ts: Seq<Node<Token>>, p: int) -> int {
    if is_tok(ts, p, TokenV::LBRACKET) {
        list_end(ts, p)
    } else if item_stmt(ts, p) {
        item_end(ts, p)
    } else {
        p + stmt_width(ts, p)
    }
}

/// A simple statement starts at `p`: a list display of display items, a
/// call of a name with display items as arguments, dice, a signed atom, a
/// comparison of two atoms, `a op b`, or an atom.
pub open spec fn stmt_ok(ts: Seq<Node<Token>>, p: int) -> bool {
    if is_tok(ts, p, TokenV::LBRACKET) {
        nested_list(ts, p)
    } else if item_stmt(ts, p) {
        p < item_end(ts, p)
    } else {
        atom_at(ts, p) && (arith_tok(ts, p + 1) ==> atom_at(ts, p + 2))
    }
}

/// `x` is the simple statement at `p`: the list display, the call, the dice,
/// the signed atom, the operation or the atom.
pub open spec fn stmt_tree(ts: Seq<Node<Token>>, p: int, x: Node<Expr>) -> bool {
    if is_tok(ts, p, TokenV::LBRACKET) {
        list_expr(ts, p, x)
    } else if item_stmt(ts, p) {
        item_tree(ts, p, x)
    } else {
        stmt_plain(ts, p, x)
    }
}

/// The tokens from `i` to the end are simple statements separated by one
/// separator each: statement `q` starts at `ps[q]`.
pub open spec fn simple_block(ts: Seq<Node<Token>>, i: int, ps: Seq<int>) -> bool {
    &&& ps.len() >= 1
    &&& ps[0] == i
    &&& forall|q: int| 0 <= q < ps.len() ==> stmt_ok(ts, #[trigger] ps[q])
    &&& forall|q: int|
        0 <= q < ps.len() - 1 ==> is_tok(ts, stmt_end(ts, #[trigger] ps[q]), TokenV::DELIM) && ps[q + 1]
            == stmt_end(ts, ps[q]) + 1
    &&& stmt_end(ts, ps.last()) == ts.len()
}

/// The statement `q` of a `simple_block`: how it is read, and what follows.
pub proof fn lemma_block_next(ts: Seq<Node<Token>>, i: int, ps: Seq<int>, q: int)
    requires
        simple_block(ts, i, ps),
        0 <= q < ps.len(),
    ensures
        !is_tok(ts, ps[q], TokenV::DELIM),
        ps[q] < stmt_end(ts, ps[q]),
        is_tok(ts, ps[q], TokenV::LBRACKET) ==> nested_at(ts, ps[q]),
        !is_tok(ts, ps[q], TokenV::LBRACKET) && item_stmt(ts, ps[q]) ==> 0 <= ps[q] < item_end(ts, ps[q]) && ends_at(
            ts,
            item_end(ts, ps[q]),
        ) && stmt_end(ts, ps[q]) == item_end(ts, ps[q]),
        !is_tok(ts, ps[q], TokenV::LBRACKET) && !item_stmt(ts, ps[q]) ==> (arith_tok(ts, ps[q] + 1) ==> arith_pair(
            ts,
            ps[q],
        )) && (!arith_tok(ts, ps[q] + 1) ==> plain_at(ts, ps[q])),
        q + 1 < ps.len() ==> is_tok(ts, stmt_end(ts, ps[q]), TokenV::DELIM) && ps[q + 1] == stmt_end(ts, ps[q]) + 1
            && !is_tok(ts, ps[q + 1], TokenV::DELIM),
        q + 1 == ps.len() ==> stmt_end(ts, ps[q]) == ts.len(),
{
    assert(stmt_ok(ts, ps[q]));
    if q + 1 < ps.len() {
        assert(is_tok(ts, stmt_end(ts, ps[q]), TokenV::DELIM));
        assert(stmt_ok(ts, ps[q + 1]));
    }
    if !is_tok(ts, ps[q], TokenV::LBRACKET) && !item_stmt(ts, ps[q]) && arith_tok(ts, ps[q] + 1) {
        assert(atom_at(ts, ps[q] + 2));
    }
}

/// Two readings of a `simple_block` agree on where their first statements
/// start.
proof fn lemma_simple_block_prefix(ts: Seq<Node<Token>>, i: int, ps1: Seq<int>, ps2: Seq<int>, q: int)
    requires
        simple_block(ts, i, ps1),
        simple_block(ts, i, ps2),
        0 <= q < ps1.len(),
        q < ps2.len(),
    ensures
        ps1[q] == ps2[q],
    decreases q,
{
    if q > 0 {
        lemma_simple_block_prefix(ts, i, ps1, ps2, q - 1);
    }
}

/// A `simple_block` has one reading.
pub proof fn lemma_simple_block_unique(ts: Seq<Node<Token>>, i: int, ps1: Seq<int>, ps2: Seq<int>)
    requires
        simple_block(ts, i, ps1),
        simple_block(ts, i, ps2),
    ensures
        ps1 == ps2,
{
    if ps1.len() < ps2.len() {
        let q = ps1.len() - 1;
        lemma_simple_block_prefix(ts, i, ps1, ps2, q);
        assert(is_tok(ts, stmt_end(ts, ps2[q]), TokenV::DELIM));
    } else if ps2.len() < ps1.len() {
        let q = ps2.len() - 1;
        lemma_simple_block_prefix(ts, i, ps1, ps2, q);
        assert(is_tok(ts, stmt_end(ts, ps1[q]), TokenV::DELIM));
    } else {
        assert forall|q: int| 0 <= q < ps1.len() implies ps1[q] == ps2[q] by {
            lemma_simple_block_prefix(ts, i, ps1, ps2, q);
        }
        assert(ps1 =~= ps2);
    }
}

/// Statements separated by line breaks or `;`, with any number of separators
/// around them.  `None` only at the end of input.
pub fn stmt_block0(ts: &[Node<Token>], i: usize) -> (r: PResult<Option<Node<Vec<Node<Expr>>>>>)
    requires
        i <= ts@.len(),
    ensures
        r matches Ok((_, Some(b))) ==> ((*b.data)@.len() > 0 ==> Some(b.span) == spec_reduce(node_spans((*b.data)@))),
        i < ts@.len() && is_tok(ts@, i as int, TokenV::RBRACE) ==> (r matches Ok((end, Some(b))) && end == i && (*b.data)@.len() == 0),
        plain_at(ts@, i as int) && is_tok(ts@, i + 1, TokenV::RBRACE) ==> (r matches Ok((end, Some(b))) && end == i + 1
            && (*b.data)@.len() == 1 && plain_expr(ts@, i as int, (*b.data)@[0])),
        arith_pair(ts@, i as int) && ts@.len() == i + 3 ==> (r matches Ok((end, Some(b))) && end == ts@.len()
            && (*b.data)@.len() == 1 && pair_expr(ts@, i as int, (*b.data)@[0])),
        plain_block(ts@, i as int) ==> (r matches Ok((end, Some(b))) && end == ts@.len() && (*b.data)@.len()
            == plain_count(ts@, i as int) && forall|q: int|
            0 <= q < plain_count(ts@, i as int) ==> plain_expr(ts@, i + 2 * q, #[trigger] (*b.data)@[q])),
        forall|ps: Seq<int>|
            #![trigger simple_block(ts@, i as int, ps)]
            simple_block(ts@, i as int, ps) ==> (r matches Ok((end, Some(b))) && end == ts@.len() && (*b.data)@.len()
                == ps.len() && forall|q: int| 0 <= q < ps.len() ==> stmt_tree(ts@, ps[q], #[trigger] (*b.data)@[q])),
        r matches Ok((j, Some(n))) ==> block_rel(ts@, i as int, j as int, (*n.data)@, true),
        res_ok(r, ts@, i as int),
        r matches Ok((j, x)) ==> (x is None <==> i == ts@.len()),
    decreases ts@.len() - i, 30int,
{
    let i_span = match get0(ts, i) {
        Some(x) => x,
        None => {
            return Ok((i, None));
        },
    };
    let ghost pn: int = plain_count(ts@, i as int);
    let ghost plain = plain_block(ts@, i as int);
    let ghost empty = is_tok(ts@, i as int, TokenV::RBRACE);
    let ghost single = plain_at(ts@, i as int) && is_tok(ts@, i + 1, TokenV::RBRACE);
    let ghost pair = arith_pair(ts@, i as int) && ts@.len() == i + 3;
    let ghost sb = exists|ps: Seq<int>| simple_block(ts@, i as int, ps);
    let ghost sps = choose|ps: Seq<int>| simple_block(ts@, i as int, ps);
    proof {
        if sb {
            lemma_block_next(ts@, i as int, sps, 0);
            if item_stmt(ts@, sps[0]) {
                lemma_item_kinds(ts@, sps[0]);
            }
        }
    }
    proof {
        if plain {
            assert(token_admitted(tok_at(ts@, i + 2 * 0), 0));
            assert(i + 2 * 0 == i);
            assert(token_admitted(tok_at(ts@, i as int), 0));
            assert(!is_tok(ts@, i as int, TokenV::DELIM));
            if pn > 1 {
                assert(is_tok(ts@, i + 2 * 0 + 1, TokenV::DELIM));
                assert(i + 2 * 0 + 1 == i + 1);
            }
            assert(plain_at(ts@, i as int));
        }
    }
    let (j, _) = many_tag(ts, i, &Token::DELIM);
    proof {
        if pair || single {
            assert(!is_tok(ts@, i as int, TokenV::DELIM));
            assert(j == i);
        }
        if empty {
            assert(!is_tok(ts@, i as int, TokenV::DELIM));
            assert(j == i);
            assert(ends_at(ts@, i as int) && !is_tok(ts@, i as int, TokenV::COLON));
        }
    }
    let mut vals: Vec<Node<Expr>> = Vec::new();
    let mut k = j;
    match stmt(ts, j) {
        Ok((k1, v)) => {
            assert(item_rel(ts@, j as int, k1 as int, v.span, *v.data, true));
            vals.push(v);
            k = k1;
            assert(items_rel(ts@, j as int, k as int, vals@, true));
            proof {
                if sb {
                    assert(j == i);
                    lemma_item_tree_of(ts@, j as int, vals@[0]);
                    assert(stmt_tree(ts@, sps[0], vals@[0]));
                }
                if plain {
                    assert(j == i);
                    assert(plain_expr(ts@, i + 2 * 0, vals@[0]));
                }
                if pair {
                    assert(!is_tok(ts@, i as int, TokenV::DELIM));
                    assert(j == i);
                }
            }
            loop
                invariant
                    i <= j <= k <= ts@.len(),
                    clean(ts@, i as int, k as int),
                    items_rel(ts@, j as int, k as int, vals@, true),
                    pn == plain_count(ts@, i as int),
                    plain == plain_block(ts@, i as int),
                    plain ==> j == i && k == i + 2 * vals@.len() - 1 && 1 <= vals@.len() <= pn && forall|q: int|
                        0 <= q < vals@.len() ==> plain_expr(ts@, i + 2 * q, #[trigger] vals@[q]),
                    pair == (arith_pair(ts@, i as int) && ts@.len() == i + 3),
                    !empty,
                    empty == is_tok(ts@, i as int, TokenV::RBRACE),
                    single == (plain_at(ts@, i as int) && is_tok(ts@, i + 1, TokenV::RBRACE)),
                    single ==> k == i + 1 && vals@.len() == 1 && plain_expr(ts@, i as int, vals@[0]),
                    pair ==> k == ts@.len() && vals@.len() == 1 && pair_expr(ts@, i as int, vals@[0]),
                    sb == (exists|ps: Seq<int>| simple_block(ts@, i as int, ps)),
                    sb ==> simple_block(ts@, i as int, sps),
                    sb ==> j == i && 1 <= vals@.len() <= sps.len() && k == stmt_end(ts@, sps[vals@.len() - 1])
                        && forall|q: int| 0 <= q < vals@.len() ==> stmt_tree(ts@, sps[q], #[trigger] vals@[q]),
                ensures
                    i <= j <= k <= ts@.len(),
                    !empty,
                    single ==> k == i + 1 && vals@.len() == 1 && plain_expr(ts@, i as int, vals@[0]),
                    clean(ts@, i as int, k as int),
                    items_rel(ts@, j as int, k as int, vals@, true),
                    plain ==> j == i && k == i + 2 * vals@.len() - 1 && 1 <= vals@.len() <= pn && forall|q: int|
                        0 <= q < vals@.len() ==> plain_expr(ts@, i + 2 * q, #[trigger] vals@[q]),
                    plain ==> k == ts@.len(),
                    pair ==> k == ts@.len() && vals@.len() == 1 && pair_expr(ts@, i as int, vals@[0]),
                    sb ==> k == ts@.len() && vals@.len() == sps.len() && forall|q: int|
                        0 <= q < vals@.len() ==> stmt_tree(ts@, sps[q], #[trigger] vals@[q]),
                decreases ts@.len() - k,
            {
                proof {
                    if single {
                        assert(is_tok(ts@, k as int, TokenV::RBRACE));
                        assert(!is_tok(ts@, k as int, TokenV::DELIM));
                    }
                    if plain && k < ts@.len() {
                        let q = vals@.len() - 1;
                        assert(is_tok(ts@, i + 2 * q + 1, TokenV::DELIM));
                        assert(token_admitted(tok_at(ts@, i + 2 * (q + 1)), 0));
                        if q + 2 < pn {
                            assert(is_tok(ts@, i + 2 * (q + 1) + 1, TokenV::DELIM));
                        }
                    }
                }
                proof {
                    if sb {
                        let q = vals@.len() as int;
                        lemma_block_next(ts@, i as int, sps, q - 1);
                        if q < sps.len() {
                            lemma_block_next(ts@, i as int, sps, q);
                            if item_stmt(ts@, sps[q]) {
                                lemma_item_kinds(ts@, sps[q]);
                            }
                        }
                    }
                }
                let (m, _) = many_tag(ts, k, &Token::DELIM);
                proof {
                    if sb {
                        let q = vals@.len() as int;
                        if q < sps.len() {
                            assert(!is_tok(ts@, k + 1, TokenV::DELIM));
                            assert(m == k + 1);
                            assert(m == sps[q]);
                        } else {
                            assert(m == k);
                        }
                    }
                    if plain && k < ts@.len() {
                        let q = vals@.len() - 1;
                        assert(k == i + 2 * q + 1);
                        assert(is_tok(ts@, k as int, TokenV::DELIM));
                        assert(i + 2 * (q + 1) == k + 1);
                        assert(token_admitted(tok_at(ts@, k + 1), 0));
                        assert(!is_tok(ts@, k + 1, TokenV::DELIM));
                        assert(m == k + 1);
                        if q + 2 < pn {
                            assert(i + 2 * (q + 1) + 1 == m + 1);
                            assert(is_tok(ts@, m + 1, TokenV::DELIM));
                        } else {
                            assert(m + 1 == ts@.len());
                        }
                        assert(ends_at(ts@, m + 1));
                        assert(plain_at(ts@, m as int));
                    }
                }
                if m == k {
                    break ;
                }
                match stmt(ts, m) {
                    Ok((m2, v)) => {
                        assert(item_rel(ts@, m as int, m2 as int, v.span, *v.data, true));
                        let ghost old_vals = vals@;
                        let ghost k0 = k as int;
                        assert(delims(ts@, k0, m as int));
                        proof {
                            lemma_item_tree_of(ts@, m as int, v);
                        }
                        vals.push(v);
                        k = m2;
                        assert(vals@.subrange(0, vals@.len() - 1) =~= old_vals);
                    },
                    Err(PErr::Error(_)) => {
                        break ;
                    },
                    Err(e) => {
                        return Err(e);
                    },
                }
            }
        },
        Err(PErr::Error(_)) => {},
        Err(e) => {
            return Err(e);
        },
    }
    let (l, _) = many_tag(ts, k, &Token::DELIM);
    proof {
        if plain {
            assert(k == ts@.len());
            assert(l == k);
            assert(vals@.len() == pn);
        }
        if sb {
            assert(l == k);
            assert forall|ps2: Seq<int>| simple_block(ts@, i as int, ps2) implies ps2 == sps by {
                lemma_simple_block_unique(ts@, i as int, ps2, sps);
            }
        }
        if pair {
            assert(l == k);
        }
        if single || empty {
            assert(is_tok(ts@, k as int, TokenV::RBRACE));
            assert(!is_tok(ts@, k as int, TokenV::DELIM));
        }
    }
    assert(delims(ts@, i as int, j as int));
    assert(delims(ts@, k as int, l as int));
    let span = match Span::reduce(vals.as_slice()) {
        Some(x) => x,
        None => {
            let end = match get0(ts, l) {
                Some(x) => x.start,
                None => i_span.end,
            };
            Span::new(i_span.start..end)
        },
    };
    Ok((l, Some(Node::new(span, vals))))
}

/// One or more statements, the first followed by a separator.
pub fn stmt_block1(ts: &[Node<Token>], i: usize) -> (r: PResult<Node<Vec<Node<Expr>>>>)
    requires
        i <= ts@.len(),
    ensures
        two_plain(ts@, i as int) ==> (r matches Ok((end, n)) && end == i + 3 && (*n.data)@.len() == 2 && plain_expr(ts@, i as int, (*n.data)@[0])
            && plain_expr(ts@, i + 2, (*n.data)@[1])),
        res_ok(r, ts@, i as int),
        r matches Ok((j, n)) ==> (*n.data)@.len() >= 1 && block_rel(ts@, i as int, j as int, (*n.data)@, true),
    decreases ts@.len() - i, 30int,
{
    let ghost two = two_plain(ts@, i as int);
    let (j, lhs) = many_tag(ts, i, &Token::DELIM);
    proof {
        if two {
            assert(!is_tok(ts@, i as int, TokenV::DELIM));
            assert(j == i);
        }
    }
    let (k, head) = stmt(ts, j)?;
    let (k1, _) = many_tag(ts, k, &Token::DELIM);
    proof {
        if two {
            assert(is_tok(ts@, i + 1, TokenV::DELIM));
            assert(!is_tok(ts@, i + 2, TokenV::DELIM));
            assert(k1 == i + 2);
        }
    }
    if k1 == k {
        let last = match token_tag(ts, k, &Token::DELIM) {
            Err(PErr::Error(e)) => e,
            _ => ONode::new(get0(ts, k), Error::Error(ErrorKind::Predicate)),
        };
        return Err(
            PErr::Error(
                append(get0(ts, k), NomKind::Many1, last),
            ),
        );
    }
    let head_span = head.span;
    let mut vals: Vec<Node<Expr>> = Vec::new();
    assert(item_rel(ts@, j as int, k as int, head.span, *head.data, true));
    vals.push(head);
    assert(delims(ts@, k as int, k1 as int));
    assert(items_rel(ts@, j as int, k as int, vals@, true));
    let mut m = k1;
    let ghost mut e_end = k as int;
    match stmt(ts, k1) {
        Ok((k2, v)) => {
            assert(item_rel(ts@, k1 as int, k2 as int, v.span, *v.data, true));
            let ghost old_vals = vals@;
            vals.push(v);
            assert(vals@.subrange(0, vals@.len() - 1) =~= old_vals);
            m = k2;
            proof {
                e_end = k2 as int;
            }
            loop
                invariant
                    i <= k1 <= m <= ts@.len(),
                    j <= k1,
                    clean(ts@, i as int, m as int),
                    e_end == m,
                    items_rel(ts@, j as int, m as int, vals@, true),
                    two == two_plain(ts@, i as int),
                    two ==> m == i + 3 && vals@.len() == 2 && plain_expr(ts@, i as int, vals@[0]) && plain_expr(ts@, i + 2, vals@[1]),
                decreases ts@.len() - m,
            {
                let (n, _) = many_tag(ts, m, &Token::DELIM);
                proof {
                    if two {
                        assert(!is_tok(ts@, m as int, TokenV::DELIM));
                    }
                }
                if n == m {
                    break ;
                }
                match stmt(ts, n) {
                    Ok((n2, v)) => {
                        assert(item_rel(ts@, n as int, n2 as int, v.span, *v.data, true));
                        let ghost old_vals = vals@;
                        let ghost m0 = m as int;
                        assert(delims(ts@, m0, n as int));
                        vals.push(v);
                        assert(vals@.subrange(0, vals@.len() - 1) =~= old_vals);
                        m = n2;
                        proof {
                            e_end = n2 as int;
                        }
                    },
                    Err(PErr::Error(_)) => {
                        break ;
                    },
                    Err(e) => {
                        return Err(e);
                    },
                }
            }
        },
        Err(PErr::Error(_)) => {},
        Err(e) => {
            return Err(e);
        },
    }
    proof {
        if two {
            assert(!is_tok(ts@, m as int, TokenV::DELIM));
        }
    }
    let (l, rhs) = many_tag(ts, m, &Token::DELIM);
    assert(delims(ts@, i as int, j as int));
    assert(delims(ts@, e_end, l as int)) by {
        assert(delims(ts@, m as int, l as int));
        assert(delims(ts@, k as int, k1 as int));
    }
    assert(items_rel(ts@, j as int, e_end, vals@, true));
    let span = head_span.add_opt(Span::reduce(vals.as_slice())).add_opt(
        Span::reduce_spans(lhs.as_slice()),
    ).add_opt(Span::reduce_spans(rhs.as_slice()));
    Ok((l, Node::new(span, vals)))
}

/// `{ ... }`: a block of statements.
pub fn stmt_enclosure(ts: &[Node<Token>], i: usize) -> (r: PResult<Node<ExprEnclosure>>)
    requires
        i <= ts@.len(),
    ensures
        is_tok(ts@, i as int, TokenV::LBRACE) && is_tok(ts@, i + 1, TokenV::RBRACE) ==> (r matches Ok((j, n)) && j == i + 2 && n.data.0@.len() == 0),
        is_tok(ts@, i as int, TokenV::LBRACE) && plain_at(ts@, i + 1) && is_tok(ts@, i + 2, TokenV::RBRACE) ==> (r matches Ok((j, n)) && j == i + 3
            && n.span == span_union(ts@[i as int].span, ts@[i + 2].span) && n.data.0@.len() == 1 && plain_expr(ts@, i + 1, n.data.0@[0])),
        r matches Ok((j, n)) ==> is_tok(ts@, j - 1, TokenV::RBRACE) && block_rel(ts@, i + 1, j - 1, n.data.0@, true),
        res_adv(r, ts@, i as int),
        r matches Ok((j, _)) ==> is_tok(ts@, i as int, TokenV::LBRACE),
    decreases ts@.len() - i, 30int,
{
    let (j0, lhs) = token_tag(ts, i, &Token::LBRACE)?;
    let (k, val) = stmt_block0(ts, j0)?;
    let (l, rhs) = token_tag(ts, k, &Token::RBRACE)?;
    let span = lhs.span.add(rhs.span);
    match val {
        Some(val) => Ok((l, Node::new(span, ExprEnclosure(val.data())))),
        None => Ok((l, Node::new(span, ExprEnclosure(Vec::new())))),
    }
}

/// A statement: `break`, or an expression or assignment.
pub fn stmt(ts: &[Node<Token>], i: usize) -> (r: PResult<Node<Expr>>)
    requires
        i <= ts@.len(),
    ensures
        nested_at(ts@, i as int) ==> (r matches Ok((j, x)) && j == list_end(ts@, i as int) && list_expr(ts@, i as int, x)),
        call_at(ts@, i as int) ==> (r matches Ok((j, x)) && j == call_end(ts@, i as int) && call_expr(ts@, i as int, x)),
        sign_at(ts@, i as int) ==> (r matches Ok((j, x)) && j == i + 2 && sign_expr(ts@, i as int, x)),
        dice_at(ts@, i as int) ==> (r matches Ok((j, x)) && j == dice_end(ts@, i as int) && dice_expr(ts@, i as int, x)),
        compare_pair(ts@, i as int) ==> (r matches Ok((j, x)) && j == i + 3 && compare_expr(ts@, i as int, x)),
        ends_at(ts@, i as int) && !is_tok(ts@, i as int, TokenV::COLON) ==> r matches Err(PErr::Error(_)),
        arith_pair(ts@, i as int) ==> (r matches Ok((j, x)) && j == i + 3 && pair_expr(ts@, i as int, x)),
        plain_at(ts@, i as int) ==> (r matches Ok((j, x)) && j == i + 1 && plain_expr(ts@, i as int, x)),
        r matches Ok((j, x)) ==> stmt_rel(ts@, i as int, j as int, x.span, *x.data),
        res_ok(r, ts@, i as int),
    decreases ts@.len() - i, 29int,
{
    match break_stmt(ts, i) {
        Err(PErr::Error(_)) => {},
        x => {
            return x;
        },
    }
    match assignment_stmt(ts, i) {
        Err(PErr::Error(last)) => Err(
            PErr::Error(
                append(get0(ts, i), NomKind::Alt, last),
            ),
        ),
        x => x,
    }
}

/// An expression, or an assignment `target = expr`.
pub fn assignment_stmt(ts: &[Node<Token>], i: usize) -> (r: PResult<Node<Expr>>)
    requires
        i <= ts@.len(),
    ensures
        nested_at(ts@, i as int) ==> (r matches Ok((j, x)) && j == list_end(ts@, i as int) && list_expr(ts@, i as int, x)),
        call_at(ts@, i as int) ==> (r matches Ok((j, x)) && j == call_end(ts@, i as int) && call_expr(ts@, i as int, x)),
        sign_at(ts@, i as int) ==> (r matches Ok((j, x)) && j == i + 2 && sign_expr(ts@, i as int, x)),
        dice_at(ts@, i as int) ==> (r matches Ok((j, x)) && j == dice_end(ts@, i as int) && dice_expr(ts@, i as int, x)),
        compare_pair(ts@, i as int) ==> (r matches Ok((j, x)) && j == i + 3 && compare_expr(ts@, i as int, x)),
        ends_at(ts@, i as int) && !is_tok(ts@, i as int, TokenV::COLON) ==> r matches Err(PErr::Error(_)),
        arith_pair(ts@, i as int) ==> (r matches Ok((j, x)) && j == i + 3 && pair_expr(ts@, i as int, x)),
        plain_at(ts@, i as int) ==> (r matches Ok((j, x)) && j == i + 1 && plain_expr(ts@, i as int, x)),
        r matches Ok((j, x)) ==> stmt_rel(ts@, i as int, j as int, x.span, *x.data),
        res_ok(r, ts@, i as int),
    decreases ts@.len() - i, 28int,
{
    let (j, lhs) = expr(ts, i)?;
    match opt_tag(ts, j, &Token::ASSIGN) {
        Some((k, op)) => match expr_to_target(&lhs) {
            Ok(lhs) => {
                let (l, rhs) = expr(ts, k)?;
                let span = lhs.span.add(rhs.span);
                Ok((l, Node::new(span, Expr::Assign(lhs, rhs))))
            },
            Err(_) => Err(fail(Some(op), ErrorKind::Grammar)),
        },
        None => Ok((j, lhs)),
    }
}

/// `break value` or `break :label: value`.
pub fn break_stmt(ts: &[Node<Token>], i: usize) -> (r: PResult<Node<Expr>>)
    requires
        i <= ts@.len(),
    ensures
        is_tok(ts@, i as int, TokenV::BREAK) && plain_at(ts@, i + 1) ==> (r matches Ok((j, x)) && j == i + 2 && x.span == span_union(
            ts@[i as int].span,
            ts@[i + 1].span,
        ) && (*x.data matches Expr::Stmt(Stmt::Break { id, val }) && id is None && plain_expr(ts@, i + 1, val))),
        !is_tok(ts@, i as int, TokenV::BREAK) ==> r matches Err(PErr::Error(_)),
        r matches Ok((j, x)) ==> stmt_rel(ts@, i as int, j as int, x.span, *x.data),
        res_adv(r, ts@, i as int),
        r is Ok ==> is_tok(ts@, i as int, TokenV::BREAK),
        r matches Ok((_, x)) ==> (*x.data matches Expr::Stmt(Stmt::Break { .. })),
    decreases ts@.len() - i, 28int,
{
    let (j, op) = token_tag(ts, i, &Token::BREAK)?;
    let (k, id) = match loop_label(ts, j) {
        Ok((k, id)) => (k, Some(id)),
        Err(PErr::Error(_)) => (j, None),
        Err(e) => {
            return Err(e);
        },
    };
    let (l, val) = expr(ts, k)?;
    let span = op.span.add(val.span);
    Ok((l, Node::new(span, Expr::Stmt(Stmt::Break { id, val }))))
}


/// How a simple statement reads depends only on the tokens.
pub proof fn lemma_same_stmt(ts1: Seq<Node<Token>>, ts2: Seq<Node<Token>>, p: int)
    requires
        same_tokens(ts1, ts2),
    ensures
        stmt_ok(ts1, p) == stmt_ok(ts2, p),
        stmt_end(ts1, p) == stmt_end(ts2, p),
        is_tok(ts1, stmt_end(ts1, p), TokenV::DELIM) == is_tok(ts2, stmt_end(ts2, p), TokenV::DELIM),
        forall|x: Node<Expr>| stmt_tree(ts1, p, x) == stmt_tree(ts2, p, x),
{
    lemma_same_ends(ts1, ts2, p);
    lemma_same_trees(ts1, ts2, p);
    if 0 <= p < ts1.len() {
        assert(tok_at(ts1, p) == tok_at(ts2, p));
    }
    if 0 <= p + 1 < ts1.len() {
        assert(tok_at(ts1, p + 1) == tok_at(ts2, p + 1));
    }
    if 0 <= p + 2 < ts1.len() {
        assert(tok_at(ts1, p + 2) == tok_at(ts2, p + 2));
    }
    let e = stmt_end(ts1, p);
    if 0 <= e < ts1.len() {
        assert(tok_at(ts1, e) == tok_at(ts2, e));
    }
    assert forall|x: Node<Expr>| stmt_tree(ts1, p, x) == stmt_tree(ts2, p, x) by {
        if let Expr::Primary(Primary::Atom(at)) = *x.data {
            assert(list_tree(ts1, p, BaseNode { span: x.span, data: Box::new(at) }) == list_tree(
                ts2,
                p,
                BaseNode { span: x.span, data: Box::new(at) },
            ));
        }
    }
}

/// A `simple_block` reads alike over the same tokens.
pub proof fn lemma_same_block(ts1: Seq<Node<Token>>, ts2: Seq<Node<Token>>, i: int, ps: Seq<int>)
    requires
        same_tokens(ts1, ts2),
        simple_block(ts1, i, ps),
    ensures
        simple_block(ts2, i, ps),
        forall|q: int, x: Node<Expr>| 0 <= q < ps.len() ==> #[trigger] stmt_tree(ts1, ps[q], x) == stmt_tree(ts2, ps[q], x),
{
    assert forall|q: int| 0 <= q < ps.len() implies stmt_ok(ts2, #[trigger] ps[q]) by {
        lemma_same_stmt(ts1, ts2, ps[q]);
    }
    assert forall|q: int| 0 <= q < ps.len() - 1 implies is_tok(ts2, stmt_end(ts2, #[trigger] ps[q]), TokenV::DELIM)
        && ps[q + 1] == stmt_end(ts2, ps[q]) + 1 by {
        lemma_same_stmt(ts1, ts2, ps[q]);
    }
    lemma_same_stmt(ts1, ts2, ps.last());
    assert forall|q: int, x: Node<Expr>| 0 <= q < ps.len() implies #[trigger] stmt_tree(ts1, ps[q], x) == stmt_tree(
        ts2,
        ps[q],
        x,
    ) by {
        lemma_same_stmt(ts1, ts2, ps[q]);
    }
}

} // verus!
