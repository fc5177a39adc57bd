use vstd::prelude::*;

use super::error::{
    append,
    clean,
    convert,
    fail,
    res_adv,
    res_ok,
    ConvertKind,
    Error,
    ErrorKind,
    NomKind,
    PErr,
    PResult,
};
use super::expr::{expr, expr_block0};
use super::grammar::{
    arith_pair, atom_at, ends_at, pair_expr, plain_at, plain_expr,
    atom_content,
    atom_rel,
    comp_content,
    comp_head,
    comp_rel,
    comprehension,
    comps_rel,
    dict_comp_rel,
    dict_comp_split,
    dict_item_rel,
    ditems,
    ditems_exact,
    lemma_expr_name,
    list_comp_split,
    list_item_rel,
    litems,
    litems_exact,
};
use super::op::or_test;
use super::target::{target, target_dict_item_expr, target_list_item_expr};
use super::target_grammar::{id_at, tgt_id, tgx_id_ditem};
use super::call_form::{call_at, call_end, call_expr};
use super::tok::{get0, is_tok, opt_tag, tok_at, token_tag};
use crate::ast::convert::{
    dict_item_is_target, dict_item_param, list_item_is_target, list_item_param,
    dict_item_to_target_expr, expr_to_id, expr_to_target, list_item_to_target_expr,
    target_to_target_expr,
};
use crate::ast::{
    Atom, CompIter, DictItem, DictItemComp, Expr, ListItem, TargetDictItem, TargetExpr,
    TargetListItem,
};
use crate::lexer::token::{Token, TokenV};
use crate::types::node::{BaseNode, Node, ONode};
use crate::types::span::{span_union, Span};

use super::nested::{dice_at, dice_end, dice_expr, sign_at, sign_expr, item_end, item_tree, items_close, items_tail, items_tree, lemma_empty_list, lemma_item_kinds, lemma_item_step, lemma_item_tree_of, lemma_items_cons, lemma_items_empty, lemma_list_close, lemma_list_end, list_end, list_expr, list_tree, nested_at, nested_list};
use super::grammar::{compare_expr, compare_pair};
verus! {

/// How a parser that read items `vals` and then called a parser for the
/// rest hands on that call's `result`: a success comes back with the items
/// in front, a recoverable error unchanged, and a failure unchanged unless it
/// carries a partial item of the same kind (of a dictionary when `dict`).
#[verifier::opaque]
pub open spec fn hands_on<T, U>(result: PResult<T>, r: PResult<(U, T)>, vals: U, dict: bool) -> bool {
    &&& (result matches Ok((j, t)) ==> r == Ok::<(usize, (U, T)), PErr>((j, (vals, t))))
    &&& (result matches Err(PErr::Error(e)) ==> r == Err::<(usize, (U, T)), PErr>(PErr::Error(e)))
    &&& (result matches Err(PErr::Failure(e)) ==> (!(if dict { carries_dict_item(*e.data) } else { carries_list_item(*e.data) }) ==> r == Err::<(usize, (U, T)), PErr>(
        PErr::Failure(e),
    )))
}

/// A failure that carries a partial list item.
pub open spec fn carries_list_item(e: Error) -> bool {
    e matches Error::Convert(_, ConvertKind::TargetListItemExpr(_))
}

/// A failure that carries a partial dictionary item.
pub open spec fn carries_dict_item(e: Error) -> bool {
    e matches Error::Convert(_, ConvertKind::TargetDictItemExpr(_))
}

/// `a; b }`: an atom, a statement separator, an atom and a closing brace, as
/// at the start of a block in braces.
pub open spec fn two_block(ts: Seq<Node<Token>>, i: int) -> bool {
    atom_at(ts, i) && is_tok(ts, i + 1, TokenV::DELIM) && plain_at(ts, i + 2) && is_tok(ts, i + 3, TokenV::RBRACE)
}

/// `( ... )`, `[ ... ]` or `{ ... }`.
pub fn enclosure(ts: &[Node<Token>], i: usize) -> (r: PResult<Node<Atom>>)
    requires
        i <= ts@.len(),
    ensures
        nested_list(ts@, i as int) ==> (r matches Ok((j, a)) && j == list_end(ts@, i as int) && list_tree(ts@, i as int, a)),
        is_tok(ts@, i as int, TokenV::LPAREN) && is_tok(ts@, i + 1, TokenV::RPAREN) ==> (r matches Ok((j, n)) && j == i + 2
            && (*n.data matches Atom::Tuple(v) && v@.len() == 0)),
        is_tok(ts@, i as int, TokenV::LBRACKET) && is_tok(ts@, i + 1, TokenV::RBRACKET) ==> (r matches Ok((j, n)) && j == i + 2
            && (*n.data matches Atom::ListDisplay(v) && v@.len() == 0)),
        is_tok(ts@, i as int, TokenV::LBRACE) && is_tok(ts@, i + 1, TokenV::RBRACE) ==> (r matches Ok((j, n)) && j == i + 2
            && (*n.data matches Atom::DictDisplay(v) && v@.len() == 0)),
        !(is_tok(ts@, i as int, TokenV::LPAREN) || is_tok(ts@, i as int, TokenV::LBRACKET) || is_tok(
            ts@,
            i as int,
            TokenV::LBRACE,
        )) ==> r matches Err(PErr::Error(_)),
        r matches Ok((j, n)) ==> atom_content(ts@, i as int, j as int, *n.data),
        r matches Ok((j, n)) ==> comp_content(ts@, i as int, j as int, *n.data),
        res_adv(r, ts@, i as int),
        r is Ok ==> is_tok(ts@, i as int, TokenV::LPAREN) || is_tok(ts@, i as int, TokenV::LBRACKET)
            || is_tok(ts@, i as int, TokenV::LBRACE),
        r matches Ok((j, n)) ==> atom_rel(ts@, i as int, j as int, n.span, *n.data),
    decreases ts@.len() - i, 8int,
{
    match parens(ts, i) {
        Err(PErr::Error(_)) => {},
        x => {
            return x;
        },
    }
    match brackets(ts, i) {
        Err(PErr::Error(_)) => {},
        x => {
            return x;
        },
    }
    match brace(ts, i) {
        Err(PErr::Error(last)) => Err(
            PErr::Error(
                append(get0(ts, i), NomKind::Alt, last),
            ),
        ),
        x => x,
    }
}

/// Any number of `for` and `if` clauses of a comprehension.
fn comp_iters(ts: &[Node<Token>], i: usize, first: Node<CompIter>, Ghost(k0): Ghost<int>) -> (r: PResult<Vec<Node<CompIter>>>)
    requires
        i <= ts@.len(),
        k0 < i,
        comp_rel(ts@, k0, i as int, first),
    ensures
        res_ok(r, ts@, i as int),
        r matches Ok((_, v)) ==> v@.len() >= 1,
        r matches Ok((j, v)) ==> v@[0] == first && comps_rel(ts@, k0, j as int, v@),
    decreases ts@.len() - i, 8int,
{
    let mut iter: Vec<Node<CompIter>> = Vec::new();
    iter.push(first);
    let mut j = i;
    assert(comps_rel(ts@, k0, i as int, iter@)) by {
        assert(iter@.subrange(0, 0) =~= Seq::<Node<CompIter>>::empty());
        assert(comps_rel(ts@, k0, k0, Seq::<Node<CompIter>>::empty()));
        assert(comp_head(ts@, k0, first));
    }
    loop
        invariant
            i <= j <= ts@.len(),
            k0 < i,
            clean(ts@, i as int, j as int),
            iter@.len() >= 1,
            iter@[0] == first,
            comps_rel(ts@, k0, j as int, iter@),
        decreases ts@.len() - j,
    {
        let ghost old_iter = iter@;
        let ghost j0 = j as int;
        match comp_for(ts, j) {
            Ok((k, c)) => {
                iter.push(c);
                j = k;
                assert(iter@.subrange(0, iter@.len() - 1) =~= old_iter);
                assert(comp_head(ts@, j0, c));
            },
            Err(PErr::Error(_)) => match comp_if(ts, j) {
                Ok((k, c)) => {
                    iter.push(c);
                    j = k;
                    assert(iter@.subrange(0, iter@.len() - 1) =~= old_iter);
                    assert(comp_head(ts@, j0, c));
                },
                Err(PErr::Error(_)) => {
                    return Ok((j, iter));
                },
                Err(e) => {
                    return Err(e);
                },
            },
            Err(e) => {
                return Err(e);
            },
        }
    }
}

/// `(a1, ..., an)` at `i`: `n` atoms separated by commas between
/// parentheses, with a comma after the last when `tc`; two atoms at least,
/// or one with its comma.
pub open spec fn plain_tuple(ts: Seq<Node<Token>>, i: int, n: int, tc: bool) -> bool {
    &&& 0 <= i
    &&& n >= 1
    &&& (n >= 2 || tc)
    &&& is_tok(ts, i, TokenV::LPAREN)
    &&& forall|q: int| 0 <= q < n ==> #[trigger] atom_at(ts, i + 1 + 2 * q)
    &&& forall|q: int| 0 <= q < n - 1 ==> is_tok(ts, #[trigger] (i + 2 + 2 * q), TokenV::COMMA)
    &&& if tc {
        is_tok(ts, i + 2 * n, TokenV::COMMA) && is_tok(ts, i + 2 * n + 1, TokenV::RPAREN)
    } else {
        is_tok(ts, i + 2 * n, TokenV::RPAREN)
    }
}

/// The position after a `plain_tuple`.
pub open spec fn tuple_end(i: int, n: int, tc: bool) -> int {
    if tc {
        i + 2 * n + 2
    } else {
        i + 2 * n + 1
    }
}

/// The display item `it` is the atom at `k`, in its place.
pub open spec fn item_plain(ts: Seq<Node<Token>>, k: int, it: Node<ListItem>) -> bool {
    it.span == ts[k].span && (*it.data matches ListItem::Expr(e) && plain_expr(
        ts,
        k,
        BaseNode { span: it.span, data: Box::new(e) },
    ))
}

/// A `plain_tuple` has one length and one ending.
pub proof fn lemma_plain_tuple_unique(ts: Seq<Node<Token>>, i: int, n1: int, tc1: bool, n2: int, tc2: bool)
    requires
        plain_tuple(ts, i, n1, tc1),
        plain_tuple(ts, i, n2, tc2),
    ensures
        n1 == n2 && tc1 == tc2,
{
    if n1 < n2 {
        assert(is_tok(ts, i + 2 + 2 * (n1 - 1), TokenV::COMMA));
        assert(i + 2 + 2 * (n1 - 1) == i + 2 * n1);
        assert(atom_at(ts, i + 1 + 2 * n1));
    } else if n2 < n1 {
        assert(is_tok(ts, i + 2 + 2 * (n2 - 1), TokenV::COMMA));
        assert(i + 2 + 2 * (n2 - 1) == i + 2 * n2);
        assert(atom_at(ts, i + 1 + 2 * n2));
    }
}

/// The number of tokens of a plain dictionary item at `p`: the name, the
/// colon and the value for `name: value`, one for a bare `name`.
pub open spec fn ditem_width(ts: Seq<Node<Token>>, p: int) -> int {
    if is_tok(ts, p + 1, TokenV::COLON) {
        item_end(ts, p + 2) - p
    } else {
        1
    }
}

/// The dictionary item `it` is the plain item at `p`: `name: value` gives
/// the name with the value, read as a display item (an atom, `a op b` or a
/// nested list display), and a bare `name` its shorthand.
pub open spec fn ditem_plain(ts: Seq<Node<Token>>, p: int, it: Node<DictItem>) -> bool {
    if is_tok(ts, p + 1, TokenV::COLON) {
        *it.data matches DictItem::KeyVal { key, val } && it.span == span_union(ts[p].span, val.span) && key.span
            == ts[p].span && tok_at(ts, p) == TokenV::Id(key.data.0@) && item_tree(ts, p + 2, val)
    } else {
        it.span == ts[p].span && (*it.data matches DictItem::Shorthand(x) && tok_at(ts, p) == TokenV::Id(x.0@))
    }
}

/// `{d1, ..., dn}` at `i`, with a comma after the last when `tc`: item `q`
/// starts at `ps[q]` and is a bare name or a name, a colon and a display item.
pub open spec fn plain_dict(ts: Seq<Node<Token>>, i: int, ps: Seq<int>, tc: bool) -> bool {
    &&& 0 <= i
    &&& ps.len() >= 1
    &&& is_tok(ts, i, TokenV::LBRACE)
    &&& ps[0] == i + 1
    &&& forall|q: int|
        0 <= q < ps.len() ==> 0 <= #[trigger] ps[q] < ts.len() && tok_at(ts, ps[q]) is Id && (is_tok(
            ts,
            ps[q] + 1,
            TokenV::COLON,
        ) ==> ps[q] + 2 < item_end(ts, ps[q] + 2))
    &&& forall|q: int|
        0 <= q < ps.len() - 1 ==> is_tok(ts, #[trigger] ps[q] + ditem_width(ts, ps[q]), TokenV::COMMA) && ps[q + 1]
            == ps[q] + ditem_width(ts, ps[q]) + 1
    &&& if tc {
        is_tok(ts, ps.last() + ditem_width(ts, ps.last()), TokenV::COMMA) && is_tok(
            ts,
            ps.last() + ditem_width(ts, ps.last()) + 1,
            TokenV::RBRACE,
        )
    } else {
        is_tok(ts, ps.last() + ditem_width(ts, ps.last()), TokenV::RBRACE)
    }
}

/// The position after a `plain_dict`.
pub open spec fn dict_end(ts: Seq<Node<Token>>, ps: Seq<int>, tc: bool) -> int {
    ps.last() + ditem_width(ts, ps.last()) + if tc {
        2int
    } else {
        1int
    }
}

/// Two readings of a `plain_dict` agree on where their first items start.
proof fn lemma_plain_dict_prefix(
    ts: Seq<Node<Token>>,
    i: int,
    ps1: Seq<int>,
    tc1: bool,
    ps2: Seq<int>,
    tc2: bool,
    q: int,
)
    requires
        plain_dict(ts, i, ps1, tc1),
        plain_dict(ts, i, ps2, tc2),
        0 <= q < ps1.len(),
        q < ps2.len(),
    ensures
        ps1[q] == ps2[q],
    decreases q,
{
    if q > 0 {
        lemma_plain_dict_prefix(ts, i, ps1, tc1, ps2, tc2, q - 1);
        assert(ps1[q - 1] == ps2[q - 1]);
    }
}

/// A `plain_dict` has one reading: its items start at the same places and
/// it ends the same way.
pub proof fn lemma_plain_dict_unique(ts: Seq<Node<Token>>, i: int, ps1: Seq<int>, tc1: bool, ps2: Seq<int>, tc2: bool)
    requires
        plain_dict(ts, i, ps1, tc1),
        plain_dict(ts, i, ps2, tc2),
    ensures
        ps1 == ps2 && tc1 == tc2,
{
    if ps1.len() < ps2.len() {
        let q = ps1.len() - 1;
        lemma_plain_dict_prefix(ts, i, ps1, tc1, ps2, tc2, q);
        assert(ps2[q] + ditem_width(ts, ps2[q]) == ps1.last() + ditem_width(ts, ps1.last()));
        assert(tok_at(ts, ps2[q + 1]) is Id);
    } else if ps2.len() < ps1.len() {
        let q = ps2.len() - 1;
        lemma_plain_dict_prefix(ts, i, ps1, tc1, ps2, tc2, q);
        assert(ps1[q] + ditem_width(ts, ps1[q]) == ps2.last() + ditem_width(ts, ps2.last()));
        assert(tok_at(ts, ps1[q + 1]) is Id);
    } else {
        assert forall|q: int| 0 <= q < ps1.len() implies ps1[q] == ps2[q] by {
            lemma_plain_dict_prefix(ts, i, ps1, tc1, ps2, tc2, q);
        }
        assert(ps1 =~= ps2);
    }
}

/// `( ... )`: the empty tuple, a parenthesized expression, a generator or a
/// tuple.
#[verifier::rlimit(100)]
#[verifier::spinoff_prover]
pub fn parens(ts: &[Node<Token>], i: usize) -> (r: PResult<Node<Atom>>)
    requires
        i <= ts@.len(),
    ensures
        forall|n: int, tc: bool|
            #![trigger plain_tuple(ts@, i as int, n, tc)]
            plain_tuple(ts@, i as int, n, tc) ==> (r matches Ok((j, x)) && j == tuple_end(i as int, n, tc) && x.span == span_union(
                ts@[i as int].span,
                ts@[j - 1].span,
            ) && (*x.data matches Atom::Tuple(v) && v@.len() == n && forall|q: int|
                0 <= q < n ==> item_plain(ts@, i + 1 + 2 * q, #[trigger] v@[q]))),
        is_tok(ts@, i as int, TokenV::LPAREN) && is_tok(ts@, i + 1, TokenV::RPAREN) ==> (r matches Ok((j, n))
            && j == i + 2 && n.span == span_union(ts@[i as int].span, ts@[i + 1].span) && (*n.data matches Atom::Tuple(
            v,
        ) && v@.len() == 0)),
        is_tok(ts@, i as int, TokenV::LPAREN) && plain_at(ts@, i + 1) && is_tok(ts@, i + 2, TokenV::RPAREN) ==> (
        r matches Ok((j, n)) && j == i + 3 && n.span == span_union(ts@[i as int].span, ts@[i + 2].span) && (
        *n.data matches Atom::Paren(x) && plain_expr(ts@, i + 1, x))),
        !is_tok(ts@, i as int, TokenV::LPAREN) ==> r matches Err(PErr::Error(_)),
        r matches Ok((j, n)) ==> atom_content(ts@, i as int, j as int, *n.data),
        r matches Ok((j, n)) ==> comp_content(ts@, i as int, j as int, *n.data),
        res_adv(r, ts@, i as int),
        r is Ok ==> is_tok(ts@, i as int, TokenV::LPAREN),
        r matches Ok((j, n)) ==> atom_rel(ts@, i as int, j as int, n.span, *n.data) && (*n.data is Paren
            || *n.data is Tuple || *n.data is Generator),
        r matches Ok((j, n)) ==> is_tok(ts@, j - 1, TokenV::RPAREN) && n.span == span_union(
            ts@[i as int].span,
            ts@[j - 1].span,
        ),
        is_tok(ts@, i as int, TokenV::LPAREN) && is_tok(ts@, i + 1, TokenV::RPAREN) ==> (r matches Ok((j, n))
            && j == i + 2 && (*n.data is Tuple) && (*n.data)->Tuple_0@.len() == 0),
    decreases ts@.len() - i, 7int,
{
    proof {
        reveal(hands_on);
    }
    let ghost pt = exists|n: int, tc: bool| plain_tuple(ts@, i as int, n, tc);
    let ghost (pn, ptc) = choose|n: int, tc: bool| plain_tuple(ts@, i as int, n, tc);
    proof {
        if pt {
            assert(atom_at(ts@, i + 1 + 2 * 0));
            if pn >= 2 {
                assert(is_tok(ts@, i + 2 + 2 * 0, TokenV::COMMA));
            }
        }
    }
    let (j, lhs) = token_tag(ts, i, &Token::LPAREN)?;
    if let Some((k, rhs)) = opt_tag(ts, j, &Token::RPAREN) {
        return Ok((k, Node::new(lhs.span.add(rhs), Atom::Tuple(Vec::new()))));
    }
    let first = list_item(ts, j);
    proof {
        if pt {
            assert(is_tok(ts@, i + 2, TokenV::COMMA));
            assert(plain_at(ts@, j as int));
            assert(first is Ok);
        }
    }
    let (k, (_, val)) = target_tuple_result(ts, j, lhs.span, Vec::new(), first)?;
    if let Some((k1, rhs)) = opt_tag(ts, k, &Token::RPAREN) {
        let span = lhs.span.add(rhs);
        let vspan = val.span;
        return match val.data() {
            ListItem::Expr(e) => Ok((k1, Node::new(span, Atom::Paren(Node::new(vspan, e))))),
            ListItem::Spread(e) => {
                let mut v: Vec<Node<ListItem>> = Vec::new();
                v.push(Node::new(vspan, ListItem::Spread(e)));
                Ok((k1, Node::new(span, Atom::Tuple(v))))
            },
        };
    }
    let val = match comp_for(ts, k) {
        Ok((k1, c)) => {
            let ghost c0 = c;
            let (k2, iter) = comp_iters(ts, k1, c, Ghost(k as int))?;
            let (k3, rhs) = token_tag(ts, k2, &Token::RPAREN)?;
            assert(comprehension(ts@, k as int, k2 as int, iter@));
            assert(list_comp_split(ts@, j as int, k2 as int, val, iter@)) by {
                assert(is_tok(ts@, k as int, TokenV::FOR));
            }
            return Ok((k3, Node::new(lhs.span.add(rhs.span), Atom::Generator { val, iter })));
        },
        Err(PErr::Error(_)) => val,
        Err(e) => {
            return Err(e);
        },
    };
    let mut vals: Vec<Node<ListItem>> = Vec::new();
    vals.push(val);
    proof {
        if pt {
            assert(k == i + 2);
            assert(item_plain(ts@, i + 1 + 2 * 0, vals@[0]));
        }
    }
    let mut m = k;
    let ghost mut e_end = k as int;
    let ghost mut tc = false;
    assert(litems_exact(ts@, j as int, k as int, vals@));
    loop
        invariant_except_break
            !(is_tok(ts@, i + 1, TokenV::RPAREN) || (plain_at(ts@, i + 1) && is_tok(ts@, i + 2, TokenV::RPAREN))),
            is_tok(ts@, i as int, TokenV::LPAREN),
            !tc,
        invariant
            !(is_tok(ts@, i + 1, TokenV::RPAREN) || (plain_at(ts@, i + 1) && is_tok(ts@, i + 2, TokenV::RPAREN))),
            is_tok(ts@, i as int, TokenV::LPAREN),
            j <= m <= ts@.len(),
            i < j,
            clean(ts@, i as int, m as int),
            j == i + 1,
            !is_tok(ts@, j as int, TokenV::RPAREN),
            litems_exact(ts@, j as int, e_end, vals@),
            !tc ==> m == e_end,
            tc ==> m == e_end + 1 && is_tok(ts@, e_end, TokenV::COMMA),
            pt == (exists|n: int, tc: bool| plain_tuple(ts@, i as int, n, tc)),
            pt ==> plain_tuple(ts@, i as int, pn, ptc),
            pt && !tc ==> m == i + 2 * vals@.len() && 1 <= vals@.len() <= pn,
            pt ==> vals@.len() <= pn && forall|q: int| 0 <= q < vals@.len() ==> item_plain(ts@, i + 1 + 2 * q, #[trigger] vals@[q]),
        ensures
            is_tok(ts@, i as int, TokenV::LPAREN),
            j <= m <= ts@.len(),
            i < j,
            clean(ts@, i as int, m as int),
            j == i + 1,
            litems_exact(ts@, j as int, e_end, vals@),
            !tc ==> m == e_end,
            tc ==> m == e_end + 1 && is_tok(ts@, e_end, TokenV::COMMA),
            pt ==> vals@.len() == pn && m == tuple_end(i as int, pn, ptc) - 1 && forall|q: int|
                0 <= q < vals@.len() ==> item_plain(ts@, i + 1 + 2 * q, #[trigger] vals@[q]),
        decreases ts@.len() - m,
    {
        proof {
            if pt {
                let q = vals@.len() as int;
                if q < pn {
                    assert(is_tok(ts@, i + 2 + 2 * (q - 1), TokenV::COMMA));
                    assert(atom_at(ts@, i + 1 + 2 * q));
                    if q + 1 < pn {
                        assert(is_tok(ts@, i + 2 + 2 * q, TokenV::COMMA));
                    }
                }
            }
        }
        match opt_tag(ts, m, &Token::COMMA) {
            None => {
                proof {
                    if pt {
                        assert(vals@.len() == pn && !ptc);
                    }
                }
                break ;
            },
            Some((m1, _)) => {
                let next = opt_list_item(ts, m1);
                proof {
                    if pt {
                        let q = vals@.len() as int;
                        if q < pn {
                            assert(m1 == i + 1 + 2 * q);
                            assert(plain_at(ts@, m1 as int));
                        } else {
                            assert(ptc);
                            assert(is_tok(ts@, m1 as int, TokenV::RPAREN));
                        }
                    }
                }
                proof {
                    reveal(hands_on);
                    if pt {
                        assert(next is Ok);
                    }
                }
                let ghost old_vals = vals@;
                let (m2, (vals2, val)) = target_tuple_result(ts, m1, lhs.span, vals, next)?;
                vals = vals2;
                m = m2;
                match val {
                    Some(v) => {
                        let ghost c = e_end;
                        vals.push(v);
                        proof {
                            e_end = m2 as int;
                        }
                        assert(vals@.subrange(0, vals@.len() - 1) =~= old_vals);
                        assert(is_tok(ts@, c, TokenV::COMMA));
                    },
                    None => {
                        proof {
                            tc = true;
                        }
                        break ;
                    },
                }
            },
        }
    }
    assert(litems(ts@, j as int, m as int, vals@));
    let (n, rhs) = token_tag(ts, m, &Token::RPAREN)?;
    proof {
        if pt {
            assert forall|n2: int, tc2: bool| plain_tuple(ts@, i as int, n2, tc2) implies n2 == pn && tc2 == ptc by {
                lemma_plain_tuple_unique(ts@, i as int, n2, tc2, pn, ptc);
            }
        }
    }
    Ok((n, Node::new(lhs.span.add(rhs.span), Atom::Tuple(vals))))
}

/// `[ ... ]`: a list display or a list comprehension.
#[verifier::rlimit(100)]
#[verifier::spinoff_prover]
pub fn brackets(ts: &[Node<Token>], i: usize) -> (r: PResult<Node<Atom>>)
    requires
        i <= ts@.len(),
    ensures
        nested_list(ts@, i as int) ==> (r matches Ok((j, a)) && j == list_end(ts@, i as int) && list_tree(ts@, i as int, a)),
        is_tok(ts@, i as int, TokenV::LBRACKET) && is_tok(ts@, i + 1, TokenV::RBRACKET) ==> (r matches Ok((j, n))
            && j == i + 2 && n.span == span_union(ts@[i as int].span, ts@[i + 1].span) && (*n.data matches Atom::ListDisplay(
            v,
        ) && v@.len() == 0)),
        is_tok(ts@, i as int, TokenV::LBRACKET) && plain_at(ts@, i + 1) && is_tok(ts@, i + 2, TokenV::RBRACKET) ==> (
        r matches Ok((j, n)) && j == i + 3 && n.span == span_union(ts@[i as int].span, ts@[i + 2].span) && (
        *n.data matches Atom::ListDisplay(v) && v@.len() == 1 && v@[0].span == ts@[i + 1].span && (*v@[0].data matches ListItem::Expr(e) && plain_expr(ts@, i + 1, BaseNode { span: v@[0].span, data: Box::new(e) })))),
        !is_tok(ts@, i as int, TokenV::LBRACKET) ==> r matches Err(PErr::Error(_)),
        r matches Ok((j, n)) ==> atom_content(ts@, i as int, j as int, *n.data),
        r matches Ok((j, n)) ==> comp_content(ts@, i as int, j as int, *n.data),
        res_adv(r, ts@, i as int),
        r is Ok ==> is_tok(ts@, i as int, TokenV::LBRACKET),
        r matches Ok((j, n)) ==> atom_rel(ts@, i as int, j as int, n.span, *n.data) && (*n.data is ListDisplay
            || *n.data is ListComprehension),
        r matches Ok((j, n)) ==> is_tok(ts@, j - 1, TokenV::RBRACKET) && n.span == span_union(
            ts@[i as int].span,
            ts@[j - 1].span,
        ),
        is_tok(ts@, i as int, TokenV::LBRACKET) && is_tok(ts@, i + 1, TokenV::RBRACKET) ==> (r matches Ok((j, n))
            && j == i + 2 && (*n.data is ListDisplay) && (*n.data)->ListDisplay_0@.len() == 0),
    decreases ts@.len() - i, 7int,
{
    proof {
        reveal(hands_on);
    }
    let ghost nl = nested_list(ts@, i as int);
    let ghost c = items_close(ts@, i + 1);
    proof {
        if nl {
            lemma_list_end(ts@, i as int);
        }
    }
    let (j, lhs) = token_tag(ts, i, &Token::LBRACKET)?;
    if let Some((k, rhs)) = opt_tag(ts, j, &Token::RBRACKET) {
        let out = Node::new(lhs.span.add(rhs), Atom::ListDisplay(Vec::new()));
        proof {
            lemma_empty_list(ts@, i as int, out);
        }
        return Ok((k, out));
    }
    proof {
        if nl {
            lemma_item_step(ts@, j as int, c);
        }
    }
    let first = list_item(ts, j);
    let (k, (_, val)) = target_list_result(ts, j, lhs.span, Vec::new(), first)?;
    proof {
        if nl {
            assert(k == item_end(ts@, j as int));
        }
    }
    let val = match comp_for(ts, k) {
        Ok((k1, c)) => {
            let (k2, iter) = comp_iters(ts, k1, c, Ghost(k as int))?;
            let (k3, rhs) = token_tag(ts, k2, &Token::RBRACKET)?;
            assert(comprehension(ts@, k as int, k2 as int, iter@));
            assert(list_comp_split(ts@, j as int, k2 as int, val, iter@)) by {
                assert(is_tok(ts@, k as int, TokenV::FOR));
            }
            return Ok(
                (k3, Node::new(lhs.span.add(rhs.span), Atom::ListComprehension { val, iter })),
            );
        },
        Err(PErr::Error(_)) => val,
        Err(e) => {
            return Err(e);
        },
    };
    if let Some((k1, rhs)) = opt_tag(ts, k, &Token::RBRACKET) {
        let mut v: Vec<Node<ListItem>> = Vec::new();
        let ghost g = val;
        v.push(val);
        let out = Node::new(lhs.span.add(rhs), Atom::ListDisplay(v));
        proof {
            if nl {
                lemma_items_cons(ts@, j as int, g, Seq::empty());
                assert(seq![g] + Seq::<Node<ListItem>>::empty() =~= v@);
                lemma_list_close(ts@, i as int, out, v@);
            }
        }
        return Ok((k1, out));
    }
    let mut vals: Vec<Node<ListItem>> = Vec::new();
    vals.push(val);
    let mut m = k;
    let ghost mut e_end = k as int;
    let ghost mut tc = false;
    let ghost mut s0 = j as int;
    assert(litems_exact(ts@, j as int, k as int, vals@));
    proof {
        if nl {
            assert forall|w: Seq<Node<ListItem>>| items_tail(ts@, k as int, w) implies items_tree(ts@, j as int, vals@ + w) by {
                lemma_items_cons(ts@, j as int, vals@[0], w);
                assert(seq![vals@[0]] + w =~= vals@ + w);
            }
        }
    }
    loop
        invariant_except_break
            !(is_tok(ts@, i + 1, TokenV::RBRACKET) || (plain_at(ts@, i + 1) && is_tok(ts@, i + 2, TokenV::RBRACKET))),
            is_tok(ts@, i as int, TokenV::LBRACKET),
            !tc,
            nl ==> items_close(ts@, s0) == c && c >= 0 && !is_tok(ts@, s0, TokenV::RBRACKET) && s0 < m == item_end(ts@, s0),
            nl ==> forall|w: Seq<Node<ListItem>>| #[trigger] items_tail(ts@, m as int, w) ==> items_tree(ts@, j as int, vals@ + w),
        invariant
            nl == nested_list(ts@, i as int),
            c == items_close(ts@, i + 1),
            !(is_tok(ts@, i + 1, TokenV::RBRACKET) || (plain_at(ts@, i + 1) && is_tok(ts@, i + 2, TokenV::RBRACKET))),
            is_tok(ts@, i as int, TokenV::LBRACKET),
            j <= m <= ts@.len(),
            i < j,
            clean(ts@, i as int, m as int),
            j == i + 1,
            !is_tok(ts@, j as int, TokenV::RBRACKET),
            litems_exact(ts@, j as int, e_end, vals@),
            !tc ==> m == e_end,
            tc ==> m == e_end + 1 && is_tok(ts@, e_end, TokenV::COMMA),
        ensures
            nl ==> items_tree(ts@, j as int, vals@) && m == c,
            is_tok(ts@, i as int, TokenV::LBRACKET),
            j <= m <= ts@.len(),
            i < j,
            clean(ts@, i as int, m as int),
            j == i + 1,
            litems_exact(ts@, j as int, e_end, vals@),
            !tc ==> m == e_end,
            tc ==> m == e_end + 1 && is_tok(ts@, e_end, TokenV::COMMA),
        decreases ts@.len() - m,
    {
        proof {
            if nl {
                lemma_item_step(ts@, s0, c);
            }
        }
        match opt_tag(ts, m, &Token::COMMA) {
            None => {
                proof {
                    if nl {
                        assert(items_tail(ts@, m as int, Seq::empty()));
                        assert(vals@ + Seq::<Node<ListItem>>::empty() =~= vals@);
                    }
                }
                break ;
            },
            Some((m1, _)) => {
                proof {
                    if nl && !is_tok(ts@, m1 as int, TokenV::RBRACKET) {
                        lemma_item_step(ts@, m1 as int, c);
                    }
                }
                let next = opt_list_item(ts, m1);
                proof {
                    reveal(hands_on);
                }
                let ghost old_vals = vals@;
                let ghost old_m = m as int;
                let (m2, (vals2, val)) = target_list_result(ts, m1, lhs.span, vals, next)?;
                vals = vals2;
                m = m2;
                match val {
                    Some(v) => {
                        let ghost c0 = e_end;
                        let ghost gv = v;
                        vals.push(v);
                        proof {
                            e_end = m2 as int;
                            if nl {
                                assert forall|w: Seq<Node<ListItem>>| #[trigger] items_tail(ts@, m as int, w) implies items_tree(ts@, j as int, vals@ + w) by {
                                    lemma_items_cons(ts@, m1 as int, gv, w);
                                    assert(items_tail(ts@, old_m, seq![gv] + w));
                                    assert(old_vals + (seq![gv] + w) =~= vals@ + w);
                                }
                                s0 = m1 as int;
                            }
                        }
                        assert(vals@.subrange(0, vals@.len() - 1) =~= old_vals);
                        assert(is_tok(ts@, c0, TokenV::COMMA));
                    },
                    None => {
                        proof {
                            tc = true;
                            if nl {
                                lemma_items_empty(ts@, m1 as int);
                                assert(items_tail(ts@, old_m, Seq::empty()));
                                assert(old_vals + Seq::<Node<ListItem>>::empty() =~= vals@);
                            }
                        }
                        break ;
                    },
                }
            },
        }
    }
    assert(litems(ts@, j as int, m as int, vals@));
    let (n, rhs) = token_tag(ts, m, &Token::RBRACKET)?;
    let ghost gvals = vals@;
    let out = Node::new(lhs.span.add(rhs.span), Atom::ListDisplay(vals));
    proof {
        if nl {
            lemma_list_close(ts@, i as int, out, gvals);
        }
    }
    Ok((n, out))
}

/// An optional list item.
fn opt_list_item(ts: &[Node<Token>], i: usize) -> (r: PResult<Option<Node<ListItem>>>)
    requires
        i <= ts@.len(),
    ensures
        0 <= i < item_end(ts@, i as int) && ends_at(ts@, item_end(ts@, i as int)) ==> (r matches Ok((j, Some(x))) && j == item_end(ts@, i as int) && (*x.data matches ListItem::Expr(e) && item_tree(ts@, i as int, BaseNode { span: x.span, data: Box::new(e) }))),
        plain_at(ts@, i as int) ==> (r matches Ok((j, Some(x))) && j == i + 1 && item_plain(ts@, i as int, x)),
        ends_at(ts@, i as int) && !is_tok(ts@, i as int, TokenV::COLON) ==> r == Ok::<(usize, Option<Node<ListItem>>), PErr>((i, None)),
        r matches Ok((j, Some(x))) ==> list_item_rel(ts@, i as int, j as int, x.span, *x.data),
        res_ok(r, ts@, i as int),
        r matches Ok((j, None)) ==> j == i,
    decreases ts@.len() - i, 29int,
{
    match list_item(ts, i) {
        Ok((j, x)) => Ok((j, Some(x))),
        Err(PErr::Error(_)) => Ok((i, None)),
        Err(e) => Err(e),
    }
}

/// An item of a tuple or list: `expr` or `...expr`.  An item `target = expr`
/// shows that the enclosure holds the parameters of a function: it is handed
/// upwards as a partial parse.
#[verifier::rlimit(100)]
#[verifier::spinoff_prover]
pub fn list_item(ts: &[Node<Token>], i: usize) -> (r: PResult<Node<ListItem>>)
    requires
        i <= ts@.len(),
    ensures
        0 <= i < item_end(ts@, i as int) && ends_at(ts@, item_end(ts@, i as int)) ==> (r matches Ok((j, x)) && j == item_end(ts@, i as int) && (*x.data matches ListItem::Expr(e) && item_tree(ts@, i as int, BaseNode { span: x.span, data: Box::new(e) }))),
        nested_at(ts@, i as int) ==> (r matches Ok((j, x)) && j == list_end(ts@, i as int) && (*x.data matches ListItem::Expr(e) && list_expr(ts@, i as int, BaseNode { span: x.span, data: Box::new(e) }))),
        call_at(ts@, i as int) ==> (r matches Ok((j, x)) && j == call_end(ts@, i as int) && (*x.data matches ListItem::Expr(e) && call_expr(ts@, i as int, BaseNode { span: x.span, data: Box::new(e) }))),
        sign_at(ts@, i as int) ==> (r matches Ok((j, x)) && j == i + 2 && (*x.data matches ListItem::Expr(e) && sign_expr(ts@, i as int, BaseNode { span: x.span, data: Box::new(e) }))),
        dice_at(ts@, i as int) ==> (r matches Ok((j, x)) && j == dice_end(ts@, i as int) && (*x.data matches ListItem::Expr(e) && dice_expr(ts@, i as int, BaseNode { span: x.span, data: Box::new(e) }))),
        compare_pair(ts@, i as int) ==> (r matches Ok((j, x)) && j == i + 3 && (*x.data matches ListItem::Expr(e) && compare_expr(ts@, i as int, BaseNode { span: x.span, data: Box::new(e) }))),
        ends_at(ts@, i as int) && !is_tok(ts@, i as int, TokenV::COLON) ==> r matches Err(PErr::Error(_)),
        atom_at(ts@, i as int) && is_tok(ts@, i + 1, TokenV::FOR) ==> (r matches Ok((j, x)) && j == i + 1 && x.span == ts@[i as int].span
            && (*x.data matches ListItem::Expr(e) && plain_expr(ts@, i as int, BaseNode { span: x.span, data: Box::new(e) }))),
        plain_at(ts@, i as int) ==> (r matches Ok((j, x)) && j == i + 1 && x.span == ts@[i as int].span && (
        *x.data matches ListItem::Expr(e) && plain_expr(ts@, i as int, BaseNode { span: x.span, data: Box::new(e) }))),
        arith_pair(ts@, i as int) ==> (r matches Ok((j, x)) && j == i + 3 && x.span == span_union(ts@[i as int].span, ts@[i + 2].span) && (
        *x.data matches ListItem::Expr(e) && pair_expr(ts@, i as int, BaseNode { span: x.span, data: Box::new(e) }))),
        is_tok(ts@, i as int, TokenV::SPREAD) && plain_at(ts@, i + 1) ==> (r matches Ok((j, x)) && j == i + 2
            && x.span == span_union(ts@[i as int].span, ts@[i + 1].span) && (*x.data matches ListItem::Spread(n)
            && plain_expr(ts@, i + 1, n))),
        r matches Ok((j, x)) ==> list_item_rel(ts@, i as int, j as int, x.span, *x.data),
        res_ok(r, ts@, i as int),
        r matches Ok((_, x)) ==> (*x.data is Spread <==> is_tok(ts@, i as int, TokenV::SPREAD)),
    decreases ts@.len() - i, 28int,
{
    proof {
        if 0 <= i < item_end(ts@, i as int) {
            lemma_item_kinds(ts@, i as int);
        }
    }
    let (j, lhs) = match opt_tag(ts, i, &Token::SPREAD) {
        Some((j, sp)) => (j, Some(sp)),
        None => (i, None),
    };
    let (k, val) = match expr(ts, j) {
        Ok(x) => x,
        Err(PErr::Failure(e)) => {
            let span = e.span;
            match e.data() {
                Error::Convert(k, ConvertKind::TargetKindExpr(val)) => {
                    match opt_tag(ts, k, &Token::ASSIGN) {
                        Some((k1, _)) => {
                            let (k2, rhs) = expr(ts, k1)?;
                            let s = val.span.add(rhs.span);
                            return Err(
                                PErr::Failure(
                                    ONode::new(
                                        span,
                                        Error::Convert(
                                            k2,
                                            ConvertKind::TargetListItemExpr(
                                                Node::new(
                                                    s,
                                                    TargetListItem::Target(
                                                        TargetExpr::TargetExpr(val, rhs),
                                                    ),
                                                ),
                                            ),
                                        ),
                                    ),
                                ),
                            );
                        },
                        None => {
                            let vspan = val.span;
                            let item = match lhs {
                                Some(sp) => Node::new(sp.add(vspan), TargetListItem::Spread(val)),
                                None => Node::new(vspan, TargetListItem::Target(val.data())),
                            };
                            return Err(
                                PErr::Failure(
                                    ONode::new(
                                        span,
                                        Error::Convert(k, ConvertKind::TargetListItemExpr(item)),
                                    ),
                                ),
                            );
                        },
                    }
                },
                other => {
                    return Err(PErr::Failure(ONode::new(span, other)));
                },
            }
        },
        Err(e) => {
            return Err(e);
        },
    };
    let val_span = val.span;
    if let Some((k1, aspan)) = opt_tag(ts, k, &Token::ASSIGN) {
        let (k2, rhs) = expr(ts, k1)?;
        match expr_to_target(&val) {
            Ok(tar) => {
                let te = Node::new(tar.span, target_to_target_expr(&tar.data));
                let s = val_span.add(rhs.span);
                return Err(
                    PErr::Failure(
                        ONode::new(
                            Some(aspan),
                            Error::Convert(
                                k2,
                                ConvertKind::TargetListItemExpr(
                                    Node::new(s, TargetListItem::Target(TargetExpr::TargetExpr(te, rhs))),
                                ),
                            ),
                        ),
                    ),
                );
            },
            Err(_) => {
                return Err(fail(Some(aspan), ErrorKind::Grammar));
            },
        }
    }
    proof {
        lemma_item_tree_of(ts@, i as int, val);
    }
    match lhs {
        Some(sp) => Ok((k, Node::new(sp.add(val_span), ListItem::Spread(val)))),
        None => Ok((k, Node::new(val_span, ListItem::Expr(val.data())))),
    }
}

/// The items after a partial parse of a tuple or list of targets, up to the
/// closing bracket: `close` is `)` for tuples, `]` for lists.
fn target_items_rest(ts: &[Node<Token>], k: usize, tv: &mut Vec<Node<TargetListItem<TargetExpr>>>, close: &Token) -> (r: PResult<Span>)
    requires
        k <= ts@.len(),
        !(close@ is ERROR),
    ensures
        res_ok(r, ts@, k as int),
        is_tok(ts@, k as int, close@) && !(close@ is COMMA) ==> (r matches Ok((n, sp)) && n == k + 1 && sp
            == ts@[k as int].span) && final(tv)@ == old(tv)@,
    decreases ts@.len() - k, 6int,
{
    let mut m = k;
    if let Some((k1, _)) = opt_tag(ts, k, &Token::COMMA) {
        match target_list_item_expr(ts, k1) {
            Ok((k2, it)) => {
                tv.push(it);
                m = k2;
                loop
                    invariant
                        k <= m <= ts@.len(),
                        clean(ts@, k as int, m as int),
                        is_tok(ts@, k as int, TokenV::COMMA),
                    decreases ts@.len() - m,
                {
                    match opt_tag(ts, m, &Token::COMMA) {
                        Some((m1, _)) => match target_list_item_expr(ts, m1) {
                            Ok((m2, it)) => {
                                tv.push(it);
                                m = m2;
                            },
                            Err(PErr::Error(_)) => {
                                break ;
                            },
                            Err(e) => {
                                return Err(e);
                            },
                        },
                        None => {
                            break ;
                        },
                    }
                }
            },
            Err(PErr::Error(_)) => {},
            Err(e) => {
                return Err(e);
            },
        }
    }
    if let Some((m1, _)) = opt_tag(ts, m, &Token::COMMA) {
        m = m1;
    }
    let (n, rhs) = token_tag(ts, m, close)?;
    Ok((n, rhs.span))
}

/// Passes on the result of an item of a tuple; when the item showed that the
/// tuple holds targets with default values, reads the rest of the tuple as
/// such and hands the whole upwards as a partial parse.
pub fn target_tuple_result<T>(
    ts: &[Node<Token>],
    i0: usize,
    lhs_span: Span,
    vals: Vec<Node<ListItem>>,
    result: PResult<T>,
) -> (r: PResult<(Vec<Node<ListItem>>, T)>)
    requires
        i0 <= ts@.len(),
        res_ok(result, ts@, i0 as int),
    ensures
        res_ok(r, ts@, i0 as int),
        r matches Ok((j, (v, t))) ==> result matches Ok((j2, t2)) && j == j2 && t == t2 && v == vals,
        hands_on(result, r, vals, false),
        result matches Err(PErr::Failure(e)) ==> (carries_list_item(*e.data) && (exists|x: int|
            0 <= x < vals@.len() && !list_item_is_target(#[trigger] *vals@[x].data)) ==> (r matches Err(
            PErr::Failure(e2),
        ) && *e2.data == Error::Error(ErrorKind::Grammar))),
        seq_target_whole(ts@, lhs_span, vals@, result, r, true),
    decreases ts@.len() - i0, 8int,
{
    target_seq_result(ts, i0, lhs_span, vals, result, true)
}

/// As `target_tuple_result`, for lists.
pub fn target_list_result<T>(
    ts: &[Node<Token>],
    i0: usize,
    lhs_span: Span,
    vals: Vec<Node<ListItem>>,
    result: PResult<T>,
) -> (r: PResult<(Vec<Node<ListItem>>, T)>)
    requires
        i0 <= ts@.len(),
        res_ok(result, ts@, i0 as int),
    ensures
        res_ok(r, ts@, i0 as int),
        r matches Ok((j, (v, t))) ==> result matches Ok((j2, t2)) && j == j2 && t == t2 && v == vals,
        hands_on(result, r, vals, false),
        result matches Err(PErr::Failure(e)) ==> (carries_list_item(*e.data) && (exists|x: int|
            0 <= x < vals@.len() && !list_item_is_target(#[trigger] *vals@[x].data)) ==> (r matches Err(
            PErr::Failure(e2),
        ) && *e2.data == Error::Error(ErrorKind::Grammar))),
        seq_target_whole(ts@, lhs_span, vals@, result, r, false),
    decreases ts@.len() - i0, 8int,
{
    target_seq_result(ts, i0, lhs_span, vals, result, false)
}

/// The token that closes a tuple (`tuple`) or a list.
pub open spec fn seq_close(tuple: bool) -> TokenV {
    if tuple {
        TokenV::RPAREN
    } else {
        TokenV::RBRACKET
    }
}

/// `t` is the tuple (`tuple`) or list target made of the earlier items
/// `vals`, each as a target, then `last`.
pub open spec fn target_seq_items(
    t: TargetExpr,
    tuple: bool,
    vals: Seq<Node<ListItem>>,
    last: Node<TargetListItem<TargetExpr>>,
) -> bool {
    let tv = match t {
        TargetExpr::TargetTuple(tv) => tv@,
        TargetExpr::TargetList(tv) => tv@,
        _ => Seq::empty(),
    };
    &&& (if tuple {
        t is TargetTuple
    } else {
        t is TargetList
    })
    &&& tv.len() == vals.len() + 1
    &&& forall|x: int| 0 <= x < vals.len() ==> list_item_param(#[trigger] vals[x], tv[x])
    &&& tv[vals.len() as int] == last
}

/// `t` is the dictionary target made of the earlier items `vals`, each as a
/// target, then `last`.
pub open spec fn target_dict_items(
    t: TargetExpr,
    vals: Seq<Node<DictItem>>,
    last: Node<TargetDictItem<TargetExpr>>,
) -> bool {
    &&& t matches TargetExpr::TargetDict(tv)
    &&& tv@.len() == vals.len() + 1
    &&& forall|x: int| 0 <= x < vals.len() ==> dict_item_param(#[trigger] vals[x], tv@[x])
    &&& tv@[vals.len() as int] == last
}

/// When the item that showed targets with default values is the last before
/// the closing token and every earlier item is a target, the whole tuple
/// (`tuple`) or list is handed upwards as a target, its items in order.
#[verifier::opaque]
pub open spec fn seq_target_whole<T>(
    ts: Seq<Node<Token>>,
    lhs_span: Span,
    vals: Seq<Node<ListItem>>,
    result: PResult<T>,
    r: PResult<(Vec<Node<ListItem>>, T)>,
    tuple: bool,
) -> bool {
    result matches Err(PErr::Failure(e)) ==> (*e.data matches Error::Convert(k, ConvertKind::TargetListItemExpr(val))
        ==> (is_tok(ts, k as int, seq_close(tuple)) && (forall|x: int| 0 <= x < vals.len() ==> list_item_is_target(#[trigger] *vals[x].data))
        ==> (r matches Err(PErr::Failure(e2)) && e2.span == e.span && (*e2.data matches Error::Convert(n, ConvertKind::TargetKindExpr(t))
        && n == k + 1 && t.span == span_union(lhs_span, ts[k as int].span) && target_seq_items(*t.data, tuple, vals, val)))))
}

/// As `seq_target_whole`, for dictionaries.
#[verifier::opaque]
pub open spec fn dict_target_whole<T>(
    ts: Seq<Node<Token>>,
    lhs_span: Span,
    vals: Seq<Node<DictItem>>,
    result: PResult<T>,
    r: PResult<(Vec<Node<DictItem>>, T)>,
) -> bool {
    result matches Err(PErr::Failure(e)) ==> (*e.data matches Error::Convert(k, ConvertKind::TargetDictItemExpr(val))
        ==> (is_tok(ts, k as int, TokenV::RBRACE) && (forall|x: int| 0 <= x < vals.len() ==> dict_item_is_target(#[trigger] *vals[x].data))
        ==> (r matches Err(PErr::Failure(e2)) && e2.span == e.span && (*e2.data matches Error::Convert(n, ConvertKind::TargetKindExpr(t))
        && n == k + 1 && t.span == span_union(lhs_span, ts[k as int].span) && target_dict_items(*t.data, vals, val)))))
}

/// When the item that showed targets with default values is followed by a
/// comma, one more plain name and the closing brace, and every earlier item
/// is a target, the whole dictionary is handed upwards as a target: the
/// earlier items, that item, and the name, in order.
#[verifier::opaque]
pub open spec fn dict_target_more<T>(
    ts: Seq<Node<Token>>,
    lhs_span: Span,
    vals: Seq<Node<DictItem>>,
    result: PResult<T>,
    r: PResult<(Vec<Node<DictItem>>, T)>,
) -> bool {
    result matches Err(PErr::Failure(e)) ==> (*e.data matches Error::Convert(k, ConvertKind::TargetDictItemExpr(val))
        ==> (is_tok(ts, k as int, TokenV::COMMA) && id_at(ts, k + 1) && is_tok(ts, k + 2, TokenV::RBRACE)
        && (forall|x: int| 0 <= x < vals.len() ==> dict_item_is_target(#[trigger] *vals[x].data))
        ==> (r matches Err(PErr::Failure(e2)) && e2.span == e.span && (*e2.data matches Error::Convert(n, ConvertKind::TargetKindExpr(t))
        && n == k + 3 && t.span == span_union(lhs_span, ts[k + 2].span)
        && (*t.data matches TargetExpr::TargetDict(tv) && tv@.len() == vals.len() + 2
        && (forall|x: int| 0 <= x < vals.len() ==> dict_item_param(#[trigger] vals[x], tv@[x]))
        && tv@[vals.len() as int] == val && tgx_id_ditem(ts, k + 1, tv@[vals.len() + 1int]))))))
}

fn target_seq_result<T>(
    ts: &[Node<Token>],
    i0: usize,
    lhs_span: Span,
    vals: Vec<Node<ListItem>>,
    result: PResult<T>,
    tuple: bool,
) -> (r: PResult<(Vec<Node<ListItem>>, T)>)
    requires
        i0 <= ts@.len(),
        res_ok(result, ts@, i0 as int),
    ensures
        res_ok(r, ts@, i0 as int),
        r matches Ok((j, (v, t))) ==> result matches Ok((j2, t2)) && j == j2 && t == t2 && v == vals,
        hands_on(result, r, vals, false),
        result matches Err(PErr::Failure(e)) ==> (carries_list_item(*e.data) && (exists|x: int|
            0 <= x < vals@.len() && !list_item_is_target(#[trigger] *vals@[x].data)) ==> (r matches Err(
            PErr::Failure(e2),
        ) && *e2.data == Error::Error(ErrorKind::Grammar))),
        seq_target_whole(ts@, lhs_span, vals@, result, r, tuple),
    decreases ts@.len() - i0, 7int,
{
    proof {
        reveal(hands_on);
        reveal(seq_target_whole);
    }
    let ghost g_res = result;
    match result {
        Ok((i, val)) => Ok((i, (vals, val))),
        Err(PErr::Failure(e)) => {
            let span = e.span;
            match e.data() {
                Error::Convert(k, ConvertKind::TargetListItemExpr(val)) => {
                    let mut tv: Vec<Node<TargetListItem<TargetExpr>>> = Vec::new();
                    let mut x: usize = 0;
                    while x < vals.len()
                        invariant
                            x <= vals@.len(),
                            tv@.len() == x,
                            forall|y: int| 0 <= y < x ==> list_item_param(vals@[y], #[trigger] tv@[y]),
                            forall|y: int| 0 <= y < x ==> list_item_is_target(#[trigger] *vals@[y].data),
                            g_res == result && (g_res matches Err(PErr::Failure(e0)) && carries_list_item(*e0.data)),
                        decreases vals@.len() - x,
                    {
                        proof {
                            reveal(hands_on);
                            reveal(seq_target_whole);
                        }
                        match list_item_to_target_expr(&vals[x]) {
                            Ok(t) => {
                                tv.push(t);
                            },
                            Err(_) => {
                                return Err(fail(span, ErrorKind::Grammar));
                            },
                        }
                        x = x + 1;
                    }
                    let ghost g_val = val;
                    tv.push(val);
                    let close = if tuple {
                        Token::RPAREN
                    } else {
                        Token::RBRACKET
                    };
                    assert(close@ == seq_close(tuple));
                    let ghost tv0 = tv@;
                    let (n, rspan) = target_items_rest(ts, k, &mut tv, &close)?;
                    proof {
                        if is_tok(ts@, k as int, seq_close(tuple)) {
                            assert(tv@ == tv0);
                            assert(tv0[vals@.len() as int] == g_val);
                            assert forall|y: int| 0 <= y < vals@.len() implies list_item_param(#[trigger] vals@[y], tv@[y]) by {
                                assert(tv@[y] == tv0[y]);
                            }
                        }
                    }
                    let whole = if tuple {
                        TargetExpr::TargetTuple(tv)
                    } else {
                        TargetExpr::TargetList(tv)
                    };
                    Err(
                        PErr::Failure(
                            ONode::new(
                                span,
                                Error::Convert(
                                    n,
                                    ConvertKind::TargetKindExpr(Node::new(lhs_span.add(rspan), whole)),
                                ),
                            ),
                        ),
                    )
                },
                other => Err(PErr::Failure(ONode::new(span, other))),
            }
        },
        Err(PErr::Error(e)) => Err(PErr::Error(e)),
    }
}

/// The first item of a dictionary display, as `dict_item` reads it.
fn brace_first_item(ts: &[Node<Token>], i: usize) -> (r: PResult<Node<DictItem>>)
    requires
        i <= ts@.len(),
    ensures
        tok_at(ts@, i as int) is Id && is_tok(ts@, i + 1, TokenV::COLON) && 0 <= i + 2 < item_end(ts@, i + 2) && ends_at(
            ts@,
            item_end(ts@, i + 2),
        ) ==> (r matches Ok((j, x)) && j == item_end(ts@, i + 2) && ditem_plain(ts@, i as int, x)),
        two_block(ts@, i as int) ==> (r matches Err(PErr::Failure(e)) && (*e.data matches Error::Convert(k, ConvertKind::ExprBlock(b))
            && k == i + 4 && b.span == span_union(ts@[i as int].span, ts@[i + 3].span) && (*b.data)@.len() == 2 && plain_expr(ts@, i as int, (*b.data)@[0])
            && plain_expr(ts@, i + 2, (*b.data)@[1]))),
        tok_at(ts@, i as int) is Id && (is_tok(ts@, i + 1, TokenV::COMMA) || is_tok(ts@, i + 1, TokenV::RBRACE))
            ==> (r matches Ok((j, x)) && j == i + 1 && ditem_plain(ts@, i as int, x)),
        r matches Ok((j, x)) ==> dict_item_rel(ts@, i as int, j as int, x.span, *x.data),
        res_ok(r, ts@, i as int),
        r matches Ok((_, x)) ==> (*x.data is DynKeyVal <==> is_tok(ts@, i as int, TokenV::LBRACKET)),
        r matches Ok((_, x)) ==> (*x.data is Spread ==> is_tok(ts@, i as int, TokenV::SPREAD)),
    decreases ts@.len() - i, 29int,
{
    dict_item(ts, i)
}

/// `target_dict_result`, as `brace` relies on it.
fn brace_dict_result<T>(
    ts: &[Node<Token>],
    i0: usize,
    lhs_span: Span,
    vals: Vec<Node<DictItem>>,
    result: PResult<T>,
) -> (r: PResult<(Vec<Node<DictItem>>, T)>)
    requires
        i0 <= ts@.len(),
        res_ok(result, ts@, i0 as int),
    ensures
        res_ok(r, ts@, i0 as int),
        r matches Ok((j, (v, t))) ==> result matches Ok((j2, t2)) && j == j2 && t == t2 && v == vals,
        hands_on(result, r, vals, true),
    decreases ts@.len() - i0, 8int,
{
    target_dict_result(ts, i0, lhs_span, vals, result)
}

/// `{ ... }`: an empty dictionary, a dictionary display or comprehension, or a
/// block of expressions.
#[verifier::rlimit(100)]
#[verifier::spinoff_prover]
pub fn brace(ts: &[Node<Token>], i: usize) -> (r: PResult<Node<Atom>>)
    requires
        i <= ts@.len(),
    ensures
        forall|ps: Seq<int>, tc: bool|
            #![trigger plain_dict(ts@, i as int, ps, tc)]
            plain_dict(ts@, i as int, ps, tc) ==> (r matches Ok((j, x)) && j == dict_end(ts@, ps, tc) && x.span
                == span_union(ts@[i as int].span, ts@[j - 1].span) && (*x.data matches Atom::DictDisplay(v)
                && v@.len() == ps.len() && forall|q: int| 0 <= q < ps.len() ==> ditem_plain(ts@, ps[q], #[trigger] v@[q]))),
        is_tok(ts@, i as int, TokenV::LBRACE) && two_block(ts@, i + 1) ==> (r matches Ok((j, n)) && j == i + 5 && n.span == span_union(
            ts@[i + 1].span,
            ts@[i + 4].span,
        ) && (*n.data matches Atom::Block(v) && v@.len() == 2 && plain_expr(ts@, i + 1, v@[0]) && plain_expr(ts@, i + 3, v@[1]))),
        is_tok(ts@, i as int, TokenV::LBRACE) && is_tok(ts@, i + 1, TokenV::RBRACE) ==> (r matches Ok((j, n))
            && j == i + 2 && n.span == span_union(ts@[i as int].span, ts@[i + 1].span) && (*n.data matches Atom::DictDisplay(
            v,
        ) && v@.len() == 0)),
        !is_tok(ts@, i as int, TokenV::LBRACE) ==> r matches Err(PErr::Error(_)),
        r matches Ok((j, n)) ==> atom_content(ts@, i as int, j as int, *n.data),
        r matches Ok((j, n)) ==> comp_content(ts@, i as int, j as int, *n.data),
        res_adv(r, ts@, i as int),
        r is Ok ==> is_tok(ts@, i as int, TokenV::LBRACE),
        r matches Ok((j, n)) ==> atom_rel(ts@, i as int, j as int, n.span, *n.data) && (*n.data is DictDisplay
            || *n.data is DictComprehension || *n.data is Block),
    decreases ts@.len() - i, 7int,
{
    let ghost pt = exists|ps: Seq<int>, tc: bool| plain_dict(ts@, i as int, ps, tc);
    let ghost (pps, ptc) = choose|ps: Seq<int>, tc: bool| plain_dict(ts@, i as int, ps, tc);
    let (j, lhs) = token_tag(ts, i, &Token::LBRACE)?;
    if let Some((k, rhs)) = opt_tag(ts, j, &Token::RBRACE) {
        proof {
            if pt {
                assert(tok_at(ts@, pps[0]) is Id);
            }
        }
        return Ok((k, Node::new(lhs.span.add(rhs), Atom::DictDisplay(Vec::new()))));
    }
    let first = brace_first_item(ts, j);
    proof {
        reveal(hands_on);
        if pt {
            let p0 = pps[0];
            assert(0 <= p0 < ts@.len() && tok_at(ts@, p0) is Id);
            if pps.len() > 1 {
                assert(is_tok(ts@, pps[0] + ditem_width(ts@, pps[0]), TokenV::COMMA));
            }

            assert(first matches Ok((k0, x0)) && k0 == p0 + ditem_width(ts@, p0) && ditem_plain(ts@, p0, x0));
            assert(!two_block(ts@, i + 1));
        }
    }
    let (k, val) = match brace_dict_result(ts, j, lhs.span, Vec::new(), first) {
        Ok((k, (_, val))) => (k, val),
        Err(PErr::Failure(e)) => {
            let span = e.span;
            match e.data() {
                Error::Convert(k, ConvertKind::ExprBlock(val)) => {
                    let s = val.span;
                    return Ok((k, Node::new(s, Atom::Block(val.data()))));
                },
                other => {
                    return Err(PErr::Failure(ONode::new(span, other)));
                },
            }
        },
        Err(e) => {
            return Err(e);
        },
    };
    let val = match comp_for(ts, k) {
        Ok((k1, c)) => {
            return brace_comprehension(ts, i, k, k1, lhs.span, val, c);
        },
        Err(PErr::Error(_)) => val,
        Err(e) => {
            return Err(e);
        },
    };
    let mut vals: Vec<Node<DictItem>> = Vec::new();
    vals.push(val);
    let mut m = k;
    let ghost mut e_end = k as int;
    let ghost mut tc = false;
    assert(ditems_exact(ts@, j as int, k as int, vals@));
    loop
        invariant_except_break
            !is_tok(ts@, i + 1, TokenV::RBRACE),
            !two_block(ts@, i + 1),
            is_tok(ts@, i as int, TokenV::LBRACE),
            !tc,
        invariant
            !is_tok(ts@, i + 1, TokenV::RBRACE),
            !two_block(ts@, i + 1),
            is_tok(ts@, i as int, TokenV::LBRACE),
            j <= m <= ts@.len(),
            i < j,
            clean(ts@, i as int, m as int),
            ditems_exact(ts@, j as int, e_end, vals@),
            !tc ==> m == e_end,
            tc ==> m == e_end + 1 && is_tok(ts@, e_end, TokenV::COMMA),
            pt == (exists|ps: Seq<int>, tc: bool| plain_dict(ts@, i as int, ps, tc)),
            pt ==> plain_dict(ts@, i as int, pps, ptc),
            pt && !tc ==> 1 <= vals@.len() <= pps.len() && m == pps[vals@.len() - 1] + ditem_width(
                ts@,
                pps[vals@.len() - 1],
            ),
            pt ==> vals@.len() <= pps.len() && forall|q: int|
                0 <= q < vals@.len() ==> ditem_plain(ts@, pps[q], #[trigger] vals@[q]),
        ensures
            is_tok(ts@, i as int, TokenV::LBRACE),
            j <= m <= ts@.len(),
            i < j,
            clean(ts@, i as int, m as int),
            ditems_exact(ts@, j as int, e_end, vals@),
            !tc ==> m == e_end,
            tc ==> m == e_end + 1 && is_tok(ts@, e_end, TokenV::COMMA),
            pt ==> vals@.len() == pps.len() && m == dict_end(ts@, pps, ptc) - 1 && forall|q: int|
                0 <= q < vals@.len() ==> ditem_plain(ts@, pps[q], #[trigger] vals@[q]),
        decreases ts@.len() - m,
    {
        proof {
            if pt {
                let q = vals@.len() as int;
                if q < pps.len() {
                    assert(is_tok(ts@, pps[q - 1] + ditem_width(ts@, pps[q - 1]), TokenV::COMMA));
                    assert(0 <= pps[q] < ts@.len() && tok_at(ts@, pps[q]) is Id);
                    if q + 1 < pps.len() {
                        assert(is_tok(ts@, pps[q] + ditem_width(ts@, pps[q]), TokenV::COMMA));
                    }

                }
            }
        }
        match opt_tag(ts, m, &Token::COMMA) {
            None => {
                proof {
                    if pt {
                        assert(vals@.len() == pps.len() && !ptc);
                    }
                }
                break ;
            },
            Some((m1, _)) => {
                let next = opt_dict_item(ts, m1);
                proof {
                    reveal(hands_on);
                    if pt {
                        let q = vals@.len() as int;
                        if q < pps.len() {
                            assert(m1 == pps[q]);
                        } else {
                            assert(ptc);
                            assert(is_tok(ts@, m1 as int, TokenV::RBRACE));
                        }
                        assert(next is Ok);
                    }
                }
                let ghost old_vals = vals@;
                match brace_dict_result(ts, m1, lhs.span, vals, next) {
                    Ok((m2, (vals2, val))) => {
                        vals = vals2;
                        m = m2;
                        match val {
                            Some(v) => {
                                let ghost c = e_end;
                                vals.push(v);
                                proof {
                                    e_end = m2 as int;
                                }
                                assert(vals@.subrange(0, vals@.len() - 1) =~= old_vals);
                                assert(is_tok(ts@, c, TokenV::COMMA));
                            },
                            None => {
                                proof {
                                    tc = true;
                                }
                                break ;
                            },
                        }
                    },
                    Err(PErr::Failure(e)) => {
                        let span = e.span;
                        return match e.data() {
                            Error::Convert(_, ConvertKind::ExprBlock(_)) => Err(
                                fail(span, ErrorKind::Grammar),
                            ),
                            other => Err(PErr::Failure(ONode::new(span, other))),
                        };
                    },
                    Err(e) => {
                        return Err(e);
                    },
                }
            },
        }
    }
    assert(ditems(ts@, j as int, m as int, vals@));
    let (n, rhs) = token_tag(ts, m, &Token::RBRACE)?;
    proof {
        if pt {
            assert forall|ps2: Seq<int>, tc2: bool| plain_dict(ts@, i as int, ps2, tc2) implies ps2 == pps && tc2
                == ptc by {
                lemma_plain_dict_unique(ts@, i as int, ps2, tc2, pps, ptc);
            }
        }
    }
    Ok((n, Node::new(lhs.span.add(rhs.span), Atom::DictDisplay(vals))))
}

/// `{ item for ... }` from the `for` on: the rest of a dictionary
/// comprehension whose item `val` and first clause `c` were read.
fn brace_comprehension(
    ts: &[Node<Token>],
    i: usize,
    k: usize,
    k1: usize,
    lspan: Span,
    val: Node<DictItem>,
    c: Node<CompIter>,
) -> (r: PResult<Node<Atom>>)
    requires
        i < k <= k1 <= ts@.len(),
        is_tok(ts@, i as int, TokenV::LBRACE),
        lspan == ts@[i as int].span,
        dict_item_rel(ts@, i + 1, k as int, val.span, *val.data),
        comp_rel(ts@, k as int, k1 as int, c),
        *c.data is For,
        clean(ts@, i as int, k1 as int),
    ensures
        res_adv(r, ts@, i as int),
        r matches Ok((j, n)) ==> *n.data is DictComprehension && atom_rel(ts@, i as int, j as int, n.span, *n.data)
            && atom_content(ts@, i as int, j as int, *n.data) && comp_content(ts@, i as int, j as int, *n.data),
    decreases ts@.len() - i, 6int,
{
    let vspan = val.span;
    let ghost c0 = c;
    let dv = match val.data() {
        DictItem::DynKeyVal { key, val: v } => Node::new(vspan, DictItemComp::DynKeyVal { key, val: v }),
        DictItem::Spread(v) => Node::new(vspan, DictItemComp::Spread(v)),
        _ => {
            return Err(fail(Some(vspan), ErrorKind::Grammar));
        },
    };
    assert(dict_comp_rel(ts@, i + 1, k as int, dv.span, *dv.data));
    let (k2, iter) = comp_iters(ts, k1, c, Ghost(k as int))?;
    let (k3, rhs) = token_tag(ts, k2, &Token::RBRACE)?;
    assert(comprehension(ts@, k as int, k2 as int, iter@));
    assert(dict_comp_split(ts@, i + 1, k2 as int, dv, iter@)) by {
        assert(is_tok(ts@, k as int, TokenV::FOR));
    }
    Ok((k3, Node::new(lspan.add(rhs.span), Atom::DictComprehension { val: dv, iter })))
}

/// An optional dictionary item.
fn opt_dict_item(ts: &[Node<Token>], i: usize) -> (r: PResult<Option<Node<DictItem>>>)
    requires
        i <= ts@.len(),
    ensures
        r matches Ok((j, Some(x))) ==> dict_item_rel(ts@, i as int, j as int, x.span, *x.data),
        res_ok(r, ts@, i as int),
        r matches Ok((j, None)) ==> j == i,
        tok_at(ts@, i as int) is Id && (is_tok(ts@, i + 1, TokenV::COMMA) || is_tok(ts@, i + 1, TokenV::RBRACE))
            ==> (r matches Ok((j, Some(x))) && j == i + 1 && ditem_plain(ts@, i as int, x)),
        tok_at(ts@, i as int) is Id && is_tok(ts@, i + 1, TokenV::COLON) && 0 <= i + 2 < item_end(ts@, i + 2) && ends_at(
            ts@,
            item_end(ts@, i + 2),
        ) ==> (r matches Ok((j, Some(x))) && j == item_end(ts@, i + 2) && ditem_plain(ts@, i as int, x)),
        ends_at(ts@, i as int) && !is_tok(ts@, i as int, TokenV::COLON) ==> (r matches Ok((j, None)) && j == i),
    decreases ts@.len() - i, 29int,
{
    match dict_item(ts, i) {
        Ok((j, x)) => Ok((j, Some(x))),
        Err(PErr::Error(_)) => Ok((i, None)),
        Err(e) => Err(e),
    }
}

/// The item that a name key with a default value stands for.
fn key_target(key: Node<crate::ast::Id>, ass: Node<Expr>) -> (r: TargetExpr)
    ensures
        r matches TargetExpr::TargetExpr(t, a) && t.span == key.span && (*t.data matches TargetExpr::Id(
            x,
        ) && x@ == key.data.0@) && a == ass,
{
    let ks = key.span;
    TargetExpr::TargetExpr(Node::new(ks, TargetExpr::Id(key.data().0)), ass)
}

/// An item of a dictionary: `[key]: val` (closed with a brace), `...val`,
/// `key: val` or `key`.  An item with a default value `= expr` shows that the
/// brace holds targets, and an item followed by a separator shows that the
/// brace holds a block: either is handed upwards as a partial parse.
#[verifier::rlimit(100)]
#[verifier::spinoff_prover]
pub fn dict_item(ts: &[Node<Token>], i: usize) -> (r: PResult<Node<DictItem>>)
    requires
        i <= ts@.len(),
    ensures
        tok_at(ts@, i as int) is Id && is_tok(ts@, i + 1, TokenV::COLON) && 0 <= i + 2 < item_end(ts@, i + 2) && ends_at(
            ts@,
            item_end(ts@, i + 2),
        ) ==> (r matches Ok((j, x)) && j == item_end(ts@, i + 2) && ditem_plain(ts@, i as int, x)),
        tok_at(ts@, i as int) is Id && is_tok(ts@, i + 1, TokenV::COLON) && nested_at(ts@, i + 2) ==> (r matches Ok(
            (j, x),
        ) && j == list_end(ts@, i + 2) && (*x.data matches DictItem::KeyVal { key, val } && x.span == span_union(
            ts@[i as int].span,
            val.span,
        ) && key.span == ts@[i as int].span && tok_at(ts@, i as int) == TokenV::Id(key.data.0@) && list_expr(ts@, i + 2, val))),
        tok_at(ts@, i as int) is Id && is_tok(ts@, i + 1, TokenV::COLON) && call_at(ts@, i + 2) ==> (r matches Ok(
            (j, x),
        ) && j == call_end(ts@, i + 2) && (*x.data matches DictItem::KeyVal { key, val } && x.span == span_union(
            ts@[i as int].span,
            val.span,
        ) && key.span == ts@[i as int].span && tok_at(ts@, i as int) == TokenV::Id(key.data.0@) && call_expr(ts@, i + 2, val))),
        tok_at(ts@, i as int) is Id && is_tok(ts@, i + 1, TokenV::COLON) && sign_at(ts@, i + 2) ==> (r matches Ok(
            (j, x),
        ) && j == i + 4 && (*x.data matches DictItem::KeyVal { key, val } && x.span == span_union(
            ts@[i as int].span,
            val.span,
        ) && key.span == ts@[i as int].span && tok_at(ts@, i as int) == TokenV::Id(key.data.0@) && sign_expr(ts@, i + 2, val))),
        tok_at(ts@, i as int) is Id && is_tok(ts@, i + 1, TokenV::COLON) && dice_at(ts@, i + 2) ==> (r matches Ok(
            (j, x),
        ) && j == dice_end(ts@, i + 2) && (*x.data matches DictItem::KeyVal { key, val } && x.span == span_union(
            ts@[i as int].span,
            val.span,
        ) && key.span == ts@[i as int].span && tok_at(ts@, i as int) == TokenV::Id(key.data.0@) && dice_expr(ts@, i + 2, val))),
        tok_at(ts@, i as int) is Id && is_tok(ts@, i + 1, TokenV::COLON) && compare_pair(ts@, i + 2) ==> (r matches Ok(
            (j, x),
        ) && j == i + 5 && (*x.data matches DictItem::KeyVal { key, val } && x.span == span_union(
            ts@[i as int].span,
            val.span,
        ) && key.span == ts@[i as int].span && tok_at(ts@, i as int) == TokenV::Id(key.data.0@) && compare_expr(ts@, i + 2, val))),
        two_block(ts@, i as int) ==> (r matches Err(PErr::Failure(e)) && (*e.data matches Error::Convert(k, ConvertKind::ExprBlock(b))
            && k == i + 4 && b.span == span_union(ts@[i as int].span, ts@[i + 3].span) && (*b.data)@.len() == 2 && plain_expr(ts@, i as int, (*b.data)@[0])
            && plain_expr(ts@, i + 2, (*b.data)@[1]))),
        tok_at(ts@, i as int) is Id && is_tok(ts@, i + 1, TokenV::COLON) && plain_at(ts@, i + 2) ==> (r matches Ok(
            (j, x),
        ) && j == i + 3 && x.span == span_union(ts@[i as int].span, ts@[i + 2].span) && (*x.data matches DictItem::KeyVal {
            key,
            val,
        } && key.span == ts@[i as int].span && tok_at(ts@, i as int) == TokenV::Id(key.data.0@) && plain_expr(
            ts@,
            i + 2,
            val,
        ))),
        is_tok(ts@, i as int, TokenV::SPREAD) && plain_at(ts@, i + 1) && !is_tok(ts@, i + 2, TokenV::DELIM) ==> (
        r matches Ok((j, x)) && j == i + 2 && x.span == span_union(ts@[i as int].span, ts@[i + 1].span) && (
        *x.data matches DictItem::Spread(n) && plain_expr(ts@, i + 1, n))),
        is_tok(ts@, i as int, TokenV::SPREAD) && i + 1 < item_end(ts@, i + 1) && ends_at(ts@, item_end(ts@, i + 1))
            && !is_tok(ts@, item_end(ts@, i + 1), TokenV::DELIM) ==> (r matches Ok((j, x)) && j == item_end(ts@, i + 1)
            && (*x.data matches DictItem::Spread(n) && x.span == span_union(ts@[i as int].span, n.span) && item_tree(ts@, i + 1, n))),
        plain_at(ts@, i as int) && !(tok_at(ts@, i as int) is Id) && is_tok(ts@, i + 1, TokenV::COLON) && plain_at(
            ts@,
            i + 2,
        ) ==> (r matches Err(PErr::Failure(e)) && e.span == Some(ts@[i as int].span) && *e.data == Error::Error(
            ErrorKind::Grammar,
        )),
        tok_at(ts@, i as int) is Id && (is_tok(ts@, i + 1, TokenV::COMMA) || is_tok(ts@, i + 1, TokenV::RBRACE))
            ==> (r matches Ok((j, x)) && j == i + 1 && ditem_plain(ts@, i as int, x)),
        tok_at(ts@, i as int) is Id && is_tok(ts@, i + 1, TokenV::COLON) && arith_pair(ts@, i + 2) ==> (r matches Ok(
            (j, x),
        ) && j == i + 5 && (*x.data matches DictItem::KeyVal {
            key,
            val,
        } && x.span == span_union(ts@[i as int].span, val.span) && key.span == ts@[i as int].span && tok_at(ts@, i as int) == TokenV::Id(key.data.0@) && pair_expr(
            ts@,
            i + 2,
            val,
        ))),
        ends_at(ts@, i as int) && !is_tok(ts@, i as int, TokenV::COLON) ==> r matches Err(PErr::Error(_)),
        r matches Ok((j, x)) ==> dict_item_rel(ts@, i as int, j as int, x.span, *x.data),
        res_ok(r, ts@, i as int),
        r matches Ok((_, x)) ==> (*x.data is DynKeyVal <==> is_tok(ts@, i as int, TokenV::LBRACKET)),
        r matches Ok((_, x)) ==> (*x.data is Spread ==> is_tok(ts@, i as int, TokenV::SPREAD)),
    decreases ts@.len() - i, 28int,
{
    proof {
        if 0 <= i + 2 < item_end(ts@, i + 2) {
            lemma_item_kinds(ts@, i + 2);
        }
        if 0 <= i + 1 < item_end(ts@, i + 1) {
            lemma_item_kinds(ts@, i + 1);
        }
    }
    // A computed key opens with `[` and, as the language reads it, closes
    // with `}` before its colon; a key printed as `[k]: v` is therefore not
    // read back.
    if let Some((j, lspan)) = opt_tag(ts, i, &Token::LBRACKET) {
        let (k, key) = expr(ts, j)?;
        let (k1, _) = token_tag(ts, k, &Token::RBRACE)?;
        let (k2, _) = token_tag(ts, k1, &Token::COLON)?;
        let (k3, val) = expr(ts, k2)?;
        let s = lspan.add(val.span);
        return Ok((k3, Node::new(s, DictItem::DynKeyVal { key, val })));
    }
    let (j, lhs) = match opt_tag(ts, i, &Token::SPREAD) {
        Some((j, sp)) => (j, Some(sp)),
        None => (i, None),
    };
    let (k, key) = match expr(ts, j) {
        Ok(x) => x,
        Err(PErr::Failure(e)) => {
            let span = e.span;
            match e.data() {
                Error::Convert(k, ConvertKind::TargetKindExpr(val)) => {
                    match opt_tag(ts, k, &Token::ASSIGN) {
                        Some((k1, _)) => {
                            let (k2, rhs) = expr(ts, k1)?;
                            let s = val.span.add(rhs.span);
                            return Err(
                                PErr::Failure(
                                    ONode::new(
                                        span,
                                        Error::Convert(
                                            k2,
                                            ConvertKind::TargetDictItemExpr(
                                                Node::new(
                                                    s,
                                                    TargetDictItem::Target(
                                                        TargetExpr::TargetExpr(val, rhs),
                                                    ),
                                                ),
                                            ),
                                        ),
                                    ),
                                ),
                            );
                        },
                        None => {
                            let vspan = val.span;
                            let item = match lhs {
                                Some(sp) => Node::new(sp.add(vspan), TargetDictItem::Spread(val)),
                                None => Node::new(vspan, TargetDictItem::Target(val.data())),
                            };
                            return Err(
                                PErr::Failure(
                                    ONode::new(
                                        span,
                                        Error::Convert(k, ConvertKind::TargetDictItemExpr(item)),
                                    ),
                                ),
                            );
                        },
                    }
                },
                other => {
                    return Err(PErr::Failure(ONode::new(span, other)));
                },
            }
        },
        Err(e) => {
            return Err(e);
        },
    };
    let key_span = key.span;
    if let Some((k1, dspan)) = opt_tag(ts, k, &Token::DELIM) {
        let (k2, vals) = expr_block0(ts, k1)?;
        let mut vals = match vals {
            Some(v) => v.data(),
            None => Vec::new(),
        };
        let (k3, rhs) = token_tag(ts, k2, &Token::RBRACE)?;
        vals.insert(0, key);
        return Err(
            PErr::Failure(
                ONode::new(
                    Some(dspan),
                    Error::Convert(k3, ConvertKind::ExprBlock(Node::new(key_span.add(rhs.span), vals))),
                ),
            ),
        );
    }
    let (k1, val) = match lhs {
        Some(_) => (k, None),
        None => match opt_tag(ts, k, &Token::COLON) {
            Some((c1, _)) => match expr(ts, c1) {
                Ok((c2, v)) => (c2, Some(v)),
                Err(PErr::Error(_)) => (k, None),
                Err(e) => {
                    return Err(e);
                },
            },
            None => (k, None),
        },
    };
    let (k2, ass) = match opt_tag(ts, k1, &Token::ASSIGN) {
        Some((a1, _)) => match expr(ts, a1) {
            Ok((a2, v)) => (a2, Some(v)),
            Err(PErr::Error(_)) => (k1, None),
            Err(e) => {
                return Err(e);
            },
        },
        None => (k1, None),
    };
    if lhs.is_some() && ass.is_none() {
        let sp = match lhs {
            Some(sp) => sp,
            None => key_span,
        };
        proof {
            lemma_item_tree_of(ts@, i + 1, key);
        }
        return Ok((k2, Node::new(sp.add(key_span), DictItem::Spread(key))));
    }
    match expr_to_id(&key) {
        Ok(keyid) => {
        proof {
            lemma_expr_name(ts@, j as int, k as int, key.span, *key.data);
        }
        match ass {
            Some(ass) => {
                let kspan = keyid.span;
                let aspan = ass.span;
                let span = kspan.add_opt(lhs).add(aspan);
                let item = match (lhs, val) {
                    (None, None) => TargetDictItem::Target(key_target(keyid, ass)),
                    (Some(_), None) => TargetDictItem::Spread(Node::new(span, key_target(keyid, ass))),
                    (None, Some(v)) => match expr_to_id(&v) {
                        Ok(vid) => TargetDictItem::Pair { key: keyid, val: Node::new(span, key_target(vid, ass)) },
                        Err(_) => {
                            return Err(fail(Some(kspan), ErrorKind::Grammar));
                        },
                    },
                    (Some(l), Some(_)) => {
                        return Err(fail(Some(l), ErrorKind::Grammar));
                    },
                };
                Err(
                    PErr::Failure(
                        ONode::new(
                            Some(aspan),
                            Error::Convert(k2, ConvertKind::TargetDictItemExpr(Node::new(span, item))),
                        ),
                    ),
                )
            },
            None => match val {
                Some(v) => {
                    let s = keyid.span.add(v.span);
                    proof {
                        lemma_item_tree_of(ts@, i + 2, v);
                    }
                    Ok((k2, Node::new(s, DictItem::KeyVal { key: keyid, val: v })))
                },
                None => {
                    let s = keyid.span;
                    Ok((k2, Node::new(s, DictItem::Shorthand(keyid.data()))))
                },
            },
        }
        },
        Err(_) => Err(fail(Some(key_span), ErrorKind::Grammar)),
    }
}

/// As `target_tuple_result`, for dictionaries.
pub fn target_dict_result<T>(
    ts: &[Node<Token>],
    i0: usize,
    lhs_span: Span,
    vals: Vec<Node<DictItem>>,
    result: PResult<T>,
) -> (r: PResult<(Vec<Node<DictItem>>, T)>)
    requires
        i0 <= ts@.len(),
        res_ok(result, ts@, i0 as int),
    ensures
        res_ok(r, ts@, i0 as int),
        r matches Ok((j, (v, t))) ==> result matches Ok((j2, t2)) && j == j2 && t == t2 && v == vals,
        hands_on(result, r, vals, true),
        result matches Err(PErr::Failure(e)) ==> (carries_dict_item(*e.data) && (exists|x: int|
            0 <= x < vals@.len() && !dict_item_is_target(#[trigger] *vals@[x].data)) ==> (r matches Err(
            PErr::Failure(e2),
        ) && *e2.data == Error::Error(ErrorKind::Grammar))),
        dict_target_whole(ts@, lhs_span, vals@, result, r),
        dict_target_more(ts@, lhs_span, vals@, result, r),
    decreases ts@.len() - i0, 7int,
{
    proof {
        reveal(hands_on);
        reveal(dict_target_whole);
        reveal(dict_target_more);
    }
    let ghost g_res = result;
    match result {
        Ok((i, val)) => Ok((i, (vals, val))),
        Err(PErr::Failure(e)) => {
            let span = e.span;
            match e.data() {
                Error::Convert(k, ConvertKind::TargetDictItemExpr(val)) => {
                    let mut tv: Vec<Node<TargetDictItem<TargetExpr>>> = Vec::new();
                    let mut x: usize = 0;
                    while x < vals.len()
                        invariant
                            x <= vals@.len(),
                            tv@.len() == x,
                            forall|y: int| 0 <= y < x ==> dict_item_param(vals@[y], #[trigger] tv@[y]),
                            forall|y: int| 0 <= y < x ==> dict_item_is_target(#[trigger] *vals@[y].data),
                            g_res == result && (g_res matches Err(PErr::Failure(e0)) && carries_dict_item(*e0.data)),
                        decreases vals@.len() - x,
                    {
                        proof {
                            reveal(hands_on);
                            reveal(dict_target_whole);
                            reveal(dict_target_more);
                        }
                        match dict_item_to_target_expr(&vals[x]) {
                            Ok(t) => {
                                tv.push(t);
                            },
                            Err(_) => {
                                return Err(fail(span, ErrorKind::Grammar));
                            },
                        }
                        x = x + 1;
                    }
                    let ghost g_val = val;
                    tv.push(val);
                    let ghost tv0 = tv@;
                    let mut m = k;
                    if let Some((k1, _)) = opt_tag(ts, k, &Token::COMMA) {
                        match target_dict_item_expr(ts, k1) {
                            Ok((k2, it)) => {
                                let ghost g_it = it;
                                tv.push(it);
                                m = k2;
                                let ghost tv1 = tv@;
                                loop
                                    invariant
                                        (id_at(ts@, k + 1) && is_tok(ts@, k + 2, TokenV::RBRACE)) ==> (k2 == k + 2 && m == k + 2
                                            && tv@ == tv1),
                                        k <= m <= ts@.len(),
                                        i0 <= k,
                                        is_tok(ts@, k as int, TokenV::COMMA),
                                        g_res matches Err(PErr::Failure(e0)) && (*e0.data matches Error::Convert(k0, _) && k0 == k),
                                        clean(ts@, i0 as int, m as int),
                                        forall|y: int|
                                            0 <= y < vals@.len() ==> dict_item_is_target(
                                                #[trigger] *vals@[y].data,
                                            ),
                                        g_res == result && (g_res matches Err(PErr::Failure(e0)) && carries_dict_item(*e0.data)),
                                    decreases ts@.len() - m,
                                {
                                    proof {
                                        reveal(hands_on);
                                        reveal(dict_target_whole);
                                        reveal(dict_target_more);
                                    }
                                    match opt_tag(ts, m, &Token::COMMA) {
                                        Some((m1, _)) => match target_dict_item_expr(ts, m1) {
                                            Ok((m2, it)) => {
                                                tv.push(it);
                                                m = m2;
                                            },
                                            Err(PErr::Error(_)) => {
                                                break ;
                                            },
                                            Err(e) => {
                                                return Err(e);
                                            },
                                        },
                                        None => {
                                            break ;
                                        },
                                    }
                                }
                                proof {
                                    if id_at(ts@, k + 1) && is_tok(ts@, k + 2, TokenV::RBRACE) {
                                        assert(k2 == k + 2);
                                        assert(m == k + 2 && tv@ == tv1);
                                        assert(tv@.len() == vals@.len() + 2);
                                        assert(tv@[vals@.len() + 1int] == g_it);
                                        assert(tgx_id_ditem(ts@, k + 1, tv@[vals@.len() + 1int]));
                                        assert(forall|y: int| 0 <= y <= vals@.len() ==> tv@[y] == tv0[y]);
                                    }
                                }
                            },
                            Err(PErr::Error(_)) => {},
                            Err(e) => {
                                return Err(e);
                            },
                        }
                    }
                    if let Some((m1, _)) = opt_tag(ts, m, &Token::COMMA) {
                        m = m1;
                    }
                    let (n, rhs) = token_tag(ts, m, &Token::RBRACE)?;
                    proof {
                        if is_tok(ts@, k as int, TokenV::COMMA) && id_at(ts@, k + 1) && is_tok(ts@, k + 2, TokenV::RBRACE) {
                            assert(m == k + 2);
                            assert(tv@.len() == vals@.len() + 2);
                            assert(tv0[vals@.len() as int] == g_val);
                            assert(tv@[vals@.len() as int] == g_val);
                            assert forall|y: int| 0 <= y < vals@.len() implies dict_item_param(#[trigger] vals@[y], tv@[y]) by {
                                assert(tv@[y] == tv0[y]);
                            }
                        }
                        if is_tok(ts@, k as int, TokenV::RBRACE) {
                            assert(m == k);
                            assert(tv@ == tv0);
                            assert(tv0[vals@.len() as int] == g_val);
                            assert forall|y: int| 0 <= y < vals@.len() implies dict_item_param(#[trigger] vals@[y], tv@[y]) by {
                                assert(tv@[y] == tv0[y]);
                            }
                        }
                    }
                    Err(
                        PErr::Failure(
                            ONode::new(
                                span,
                                Error::Convert(
                                    n,
                                    ConvertKind::TargetKindExpr(
                                        Node::new(lhs_span.add(rhs.span), TargetExpr::TargetDict(tv)),
                                    ),
                                ),
                            ),
                        ),
                    )
                },
                other => Err(PErr::Failure(ONode::new(span, other))),
            }
        },
        Err(PErr::Error(e)) => Err(PErr::Error(e)),
    }
}

/// `for target in expr`
pub fn comp_for(ts: &[Node<Token>], i: usize) -> (r: PResult<Node<CompIter>>)
    requires
        i <= ts@.len(),
    ensures
        is_tok(ts@, i as int, TokenV::FOR) && id_at(ts@, i + 1) && is_tok(ts@, i + 2, TokenV::IN) && plain_at(ts@, i + 3) ==> (
        r matches Ok((j, c)) && j == i + 4 && (*c.data matches CompIter::For { target, val } && tgt_id(ts@, i + 1, target)
            && plain_expr(ts@, i + 3, val))),
        !is_tok(ts@, i as int, TokenV::FOR) ==> r matches Err(PErr::Error(_)),
        r matches Ok((j, c)) ==> *c.data is For && comp_rel(ts@, i as int, j as int, c),
        res_adv(r, ts@, i as int),
    decreases ts@.len() - i, 7int,
{
    let (j, lhs) = token_tag(ts, i, &Token::FOR)?;
    let (k, tar) = target(ts, j)?;
    let (l, _) = token_tag(ts, k, &Token::IN)?;
    let (m, val) = or_test(ts, l)?;
    let span = lhs.span.add(val.span);
    Ok((m, Node::new(span, CompIter::For { target: tar, val })))
}

/// `if expr`
pub fn comp_if(ts: &[Node<Token>], i: usize) -> (r: PResult<Node<CompIter>>)
    requires
        i <= ts@.len(),
    ensures
        is_tok(ts@, i as int, TokenV::IF) && plain_at(ts@, i + 1) ==> (r matches Ok((j, c)) && j == i + 2 && (*c.data matches CompIter::If(x)
            && plain_expr(ts@, i + 1, x))),
        !is_tok(ts@, i as int, TokenV::IF) ==> r matches Err(PErr::Error(_)),
        r matches Ok((j, c)) ==> comp_rel(ts@, i as int, j as int, c),
        res_adv(r, ts@, i as int),
    decreases ts@.len() - i, 7int,
{
    let (j, lhs) = token_tag(ts, i, &Token::IF)?;
    let (k, val) = or_test(ts, j)?;
    let span = lhs.span.add(val.span);
    Ok((k, Node::new(span, CompIter::If(val))))
}

} // verus!
