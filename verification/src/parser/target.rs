use vstd::prelude::*;

use super::atom::{atom_of_token, literal, token_admitted};
use super::error::{append, clean, err_ok, res_adv, Error, NomKind, PErr, PResult};
use super::expr::expr;
use super::target_grammar::{
    id_at, mt_id, mt_id_ditem, mt_id_item, tgt_id, tgt_id_ditem, tgt_id_item, tgx_id, tgx_id_ditem,
    tgx_id_item,
    mt_dict_exact, mt_dict_item, mt_list_exact, mt_list_item, mt_rel, tgt_dict_exact, tgt_dict_item,
    tgt_list_exact, tgt_list_item, tgt_rel, tgx_default, tgx_dict_exact, tgx_dict_item, tgx_list_exact,
    tgx_list_item, tgx_rel,
};
use super::tok::{get0, is_tok, opt_tag, tok_at, token_tag, token_tag_id};
use crate::ast::{Match, Target, TargetDictItem, TargetExpr, TargetListItem};
use crate::lexer::token::{Token, TokenV};
use crate::types::node::Node;
use crate::types::span::{span_union, Span};

verus! {

/// An assignment target.
pub fn target(ts: &[Node<Token>], i: usize) -> (r: PResult<Node<Target>>)
    requires
        i <= ts@.len(),
    ensures
        id_at(ts@, i as int) ==> (r matches Ok((j, t)) && j == i + 1 && tgt_id(ts@, i as int, t)),
        r matches Ok((j, t)) ==> tgt_rel(ts@, i as int, j as int, t.span, *t.data),
        res_adv(r, ts@, i as int),
    decreases ts@.len() - i, 5int,
{
    target_kind(ts, i)
}

/// A name, or a tuple, list or dictionary of targets.
pub fn target_kind(ts: &[Node<Token>], i: usize) -> (r: PResult<Node<Target>>)
    requires
        i <= ts@.len(),
    ensures
        id_at(ts@, i as int) ==> (r matches Ok((j, t)) && j == i + 1 && tgt_id(ts@, i as int, t)),
        !id_at(ts@, i as int) && !is_tok(ts@, i as int, TokenV::LPAREN) && !is_tok(ts@, i as int, TokenV::LBRACKET) && !is_tok(ts@, i as int, TokenV::LBRACE) ==> r matches Err(PErr::Error(_)),
        r matches Ok((j, t)) ==> tgt_rel(ts@, i as int, j as int, t.span, *t.data),
        res_adv(r, ts@, i as int),
    decreases ts@.len() - i, 4int,
{
    match target_id(ts, i) {
        Err(PErr::Error(_)) => {},
        x => {
            return x;
        },
    }
    match target_tuple(ts, i) {
        Err(PErr::Error(_)) => {},
        x => {
            return x;
        },
    }
    match target_list(ts, i) {
        Err(PErr::Error(_)) => {},
        x => {
            return x;
        },
    }
    match target_dict(ts, i) {
        Err(PErr::Error(last)) => Err(
            PErr::Error(
                append(get0(ts, i), NomKind::Alt, last),
            ),
        ),
        x => x,
    }
}

/// A name as a target.
pub fn target_id(ts: &[Node<Token>], i: usize) -> (r: PResult<Node<Target>>)
    requires
        i <= ts@.len(),
    ensures
        r matches Ok((j, t)) ==> tgt_rel(ts@, i as int, j as int, t.span, *t.data),
        r is Ok <==> (i < ts@.len() && tok_at(ts@, i as int) is Id),
        r matches Ok((j, t)) ==> j == i + 1 && t.span == ts@[i as int].span && (match *t.data {
            Target::Id(s) => tok_at(ts@, i as int) == TokenV::Id(s@),
            _ => false,
        }),
        r is Err ==> r->Err_0 is Error && err_ok(r->Err_0, ts@, i as int),
{
    let (j, x) = token_tag_id(ts, i)?;
    let span = x.span;
    Ok((j, Node::new(span, Target::Id(x.data().0))))
}

/// One or more items between brackets `open` and `close`, separated by commas,
/// with an optional comma at the end.
fn target_seq(ts: &[Node<Token>], i: usize, open: &Token, close: &Token) -> (r: PResult<
    (Span, Vec<Node<TargetListItem<Target>>>),
>)
    requires
        !(close@ is COMMA),
        !(close@ is ASSIGN),
        i <= ts@.len(),
        !(open@ is ERROR),
        !(close@ is ERROR),
    ensures
        !is_tok(ts@, i as int, open@) ==> r matches Err(PErr::Error(_)),
        is_tok(ts@, i as int, open@) && id_at(ts@, i + 1) && is_tok(ts@, i + 2, close@) ==> (r matches Ok((j, (sp, v))) && j == i + 3
            && sp == span_union(ts@[i as int].span, ts@[i + 2].span) && v@.len() == 1 && tgt_id_item(ts@, i + 1, v@[0])),
        r matches Ok((j, (s, v))) ==> tgt_list_exact(ts@, i + 1, j - 1, v@) || (is_tok(ts@, j - 2, TokenV::COMMA)
            && tgt_list_exact(ts@, i + 1, j - 2, v@)),
        res_adv(r, ts@, i as int),
        r matches Ok((j, (s, v))) ==> v@.len() >= 1 && is_tok(ts@, i as int, open@) && is_tok(ts@, j - 1, close@)
            && s == span_union(ts@[i as int].span, ts@[j - 1].span),
    decreases ts@.len() - i, 2int,
{
    let ghost single = is_tok(ts@, i as int, open@) && id_at(ts@, i + 1) && is_tok(ts@, i + 2, close@);
    let (j, lhs) = token_tag(ts, i, open)?;
    let (mut k, first) = target_list_item(ts, j)?;
    let mut vals: Vec<Node<TargetListItem<Target>>> = Vec::new();
    vals.push(first);
    loop
        invariant
            i < j <= k <= ts@.len(),
            clean(ts@, i as int, k as int),
            vals@.len() >= 1,
            j == i + 1,
            is_tok(ts@, i as int, open@),
            !(close@ is COMMA),
            single == (is_tok(ts@, i as int, open@) && id_at(ts@, i + 1) && is_tok(ts@, i + 2, close@)),
            single ==> k == i + 2 && vals@.len() == 1 && tgt_id_item(ts@, i + 1, vals@[0]),
            tgt_list_exact(ts@, j as int, k as int, vals@),
        decreases ts@.len() - k,
    {
        match opt_tag(ts, k, &Token::COMMA) {
            Some((k1, _)) => match target_list_item(ts, k1) {
                Ok((k2, v)) => {
                    let ghost old_vals = vals@;
                    let ghost k0 = k as int;
                    vals.push(v);
                    k = k2;
                    assert(vals@.subrange(0, vals@.len() - 1) =~= old_vals);
                    assert(is_tok(ts@, k0, TokenV::COMMA));
                },
                Err(PErr::Error(_)) => {
                    break ;
                },
                Err(e) => {
                    return Err(e);
                },
            },
            None => {
                break ;
            },
        }
    }
    if let Some((k1, _)) = opt_tag(ts, k, &Token::COMMA) {
        k = k1;
    }
    let (l, rhs) = token_tag(ts, k, close)?;
    Ok((l, (lhs.span.add(rhs.span), vals)))
}

/// `(a, b, ...)` of targets.
pub fn target_tuple(ts: &[Node<Token>], i: usize) -> (r: PResult<Node<Target>>)
    requires
        i <= ts@.len(),
    ensures
        !is_tok(ts@, i as int, TokenV::LPAREN) ==> r matches Err(PErr::Error(_)),
        is_tok(ts@, i as int, TokenV::LPAREN) && id_at(ts@, i + 1) && is_tok(ts@, i + 2, TokenV::RPAREN) ==> (r matches Ok((j, t)) && j == i + 3
            && t.span == span_union(ts@[i as int].span, ts@[i + 2].span) && (*t.data matches Target::TargetTuple(v) && v@.len() == 1 && tgt_id_item(ts@, i + 1, v@[0]))),
        r matches Ok((j, t)) ==> tgt_rel(ts@, i as int, j as int, t.span, *t.data),
        res_adv(r, ts@, i as int),
        r matches Ok((_, t)) ==> *t.data is TargetTuple,
    decreases ts@.len() - i, 3int,
{
    let (j, (span, val)) = target_seq(ts, i, &Token::LPAREN, &Token::RPAREN)?;
    Ok((j, Node::new(span, Target::TargetTuple(val))))
}

/// `[a, b, ...]` of targets.
pub fn target_list(ts: &[Node<Token>], i: usize) -> (r: PResult<Node<Target>>)
    requires
        i <= ts@.len(),
    ensures
        !is_tok(ts@, i as int, TokenV::LBRACKET) ==> r matches Err(PErr::Error(_)),
        is_tok(ts@, i as int, TokenV::LBRACKET) && id_at(ts@, i + 1) && is_tok(ts@, i + 2, TokenV::RBRACKET) ==> (r matches Ok((j, t)) && j == i + 3
            && t.span == span_union(ts@[i as int].span, ts@[i + 2].span) && (*t.data matches Target::TargetList(v) && v@.len() == 1 && tgt_id_item(ts@, i + 1, v@[0]))),
        r matches Ok((j, t)) ==> tgt_rel(ts@, i as int, j as int, t.span, *t.data),
        res_adv(r, ts@, i as int),
        r matches Ok((_, t)) ==> *t.data is TargetList,
    decreases ts@.len() - i, 3int,
{
    let (j, (span, val)) = target_seq(ts, i, &Token::LBRACKET, &Token::RBRACKET)?;
    Ok((j, Node::new(span, Target::TargetList(val))))
}

/// `{a, key: b, ...c}` of targets.
pub fn target_dict(ts: &[Node<Token>], i: usize) -> (r: PResult<Node<Target>>)
    requires
        i <= ts@.len(),
    ensures
        !is_tok(ts@, i as int, TokenV::LBRACE) ==> r matches Err(PErr::Error(_)),
        is_tok(ts@, i as int, TokenV::LBRACE) && id_at(ts@, i + 1) && is_tok(ts@, i + 2, TokenV::RBRACE) ==> (r matches Ok((j, t)) && j == i + 3
            && t.span == span_union(ts@[i as int].span, ts@[i + 2].span) && (*t.data matches Target::TargetDict(v) && v@.len() == 1 && tgt_id_ditem(ts@, i + 1, v@[0]))),
        r matches Ok((j, t)) ==> tgt_rel(ts@, i as int, j as int, t.span, *t.data),
        res_adv(r, ts@, i as int),
        r matches Ok((_, t)) ==> *t.data is TargetDict,
    decreases ts@.len() - i, 3int,
{
    let ghost single = is_tok(ts@, i as int, TokenV::LBRACE) && id_at(ts@, i + 1) && is_tok(ts@, i + 2, TokenV::RBRACE);
    let (j, lhs) = token_tag(ts, i, &Token::LBRACE)?;
    let (mut k, first) = target_dict_item(ts, j)?;
    let mut vals: Vec<Node<TargetDictItem<Target>>> = Vec::new();
    vals.push(first);
    loop
        invariant
            i < j <= k <= ts@.len(),
            clean(ts@, i as int, k as int),
            j == i + 1,
            is_tok(ts@, i as int, TokenV::LBRACE),
            single == (is_tok(ts@, i as int, TokenV::LBRACE) && id_at(ts@, i + 1) && is_tok(ts@, i + 2, TokenV::RBRACE)),
            single ==> k == i + 2 && vals@.len() == 1 && tgt_id_ditem(ts@, i + 1, vals@[0]),
            tgt_dict_exact(ts@, j as int, k as int, vals@),
        decreases ts@.len() - k,
    {
        match opt_tag(ts, k, &Token::COMMA) {
            Some((k1, _)) => match target_dict_item(ts, k1) {
                Ok((k2, v)) => {
                    let ghost old_vals = vals@;
                    let ghost k0 = k as int;
                    vals.push(v);
                    k = k2;
                    assert(vals@.subrange(0, vals@.len() - 1) =~= old_vals);
                    assert(is_tok(ts@, k0, TokenV::COMMA));
                },
                Err(PErr::Error(_)) => {
                    break ;
                },
                Err(e) => {
                    return Err(e);
                },
            },
            None => {
                break ;
            },
        }
    }
    if let Some((k1, _)) = opt_tag(ts, k, &Token::COMMA) {
        k = k1;
    }
    let (l, rhs) = token_tag(ts, k, &Token::RBRACE)?;
    Ok((l, Node::new(lhs.span.add(rhs.span), Target::TargetDict(vals))))
}

/// An item of a tuple or list of targets: `t` or `...t`.
pub fn target_list_item(ts: &[Node<Token>], i: usize) -> (r: PResult<Node<TargetListItem<Target>>>)
    requires
        i <= ts@.len(),
    ensures
        id_at(ts@, i as int) ==> (r matches Ok((j, n)) && j == i + 1 && tgt_id_item(ts@, i as int, n)),
        r matches Ok((j, n)) ==> tgt_list_item(ts@, i as int, j as int, n),
        res_adv(r, ts@, i as int),
    decreases ts@.len() - i, 6int,
{
    match opt_tag(ts, i, &Token::SPREAD) {
        Some((j, op)) => {
            let (k, val) = target(ts, j)?;
            let span = op.add(val.span);
            Ok((k, Node::new(span, TargetListItem::Spread(val))))
        },
        None => {
            let (k, val) = target(ts, i)?;
            let span = val.span;
            Ok((k, Node::new(span, TargetListItem::Target(val.data()))))
        },
    }
}

/// An item of a dictionary of targets: `...t`, `key: t` or `key`.
pub fn target_dict_item(ts: &[Node<Token>], i: usize) -> (r: PResult<Node<TargetDictItem<Target>>>)
    requires
        i <= ts@.len(),
    ensures
        id_at(ts@, i as int) && !is_tok(ts@, i + 1, TokenV::COLON) ==> (r matches Ok((j, n)) && j == i + 1 && tgt_id_ditem(ts@, i as int, n)),
        r matches Ok((j, n)) ==> tgt_dict_item(ts@, i as int, j as int, n),
        res_adv(r, ts@, i as int),
    decreases ts@.len() - i, 6int,
{
    if let Some((j, op)) = opt_tag(ts, i, &Token::SPREAD) {
        let (k, val) = target(ts, j)?;
        let span = op.add(val.span);
        return Ok((k, Node::new(span, TargetDictItem::Spread(val))));
    }
    let (j, key) = token_tag_id(ts, i)?;
    let val = match opt_tag(ts, j, &Token::COLON) {
        Some((j1, _)) => match target(ts, j1) {
            Ok(x) => Some(x),
            Err(PErr::Error(_)) => None,
            Err(e) => {
                return Err(e);
            },
        },
        None => None,
    };
    match val {
        Some((k, val)) => {
            let span = key.span.add(val.span);
            Ok((k, Node::new(span, TargetDictItem::Pair { key, val })))
        },
        None => {
            let span = key.span;
            Ok((j, Node::new(span, TargetDictItem::Target(Target::Id(key.data().0)))))
        },
    }
}

/// A target with an optional default value `= expr`.
pub fn target_expr(ts: &[Node<Token>], i: usize) -> (r: PResult<Node<TargetExpr>>)
    requires
        i <= ts@.len(),
    ensures
        id_at(ts@, i as int) && !is_tok(ts@, i + 1, TokenV::ASSIGN) ==> (r matches Ok((j, t)) && j == i + 1 && tgx_id(ts@, i as int, t)),
        r matches Ok((j, t)) ==> tgx_rel(ts@, i as int, j as int, t.span, *t.data),
        res_adv(r, ts@, i as int),
    decreases ts@.len() - i, 5int,
{
    let (j, tar) = target_kind_expr(ts, i)?;
    match opt_tag(ts, j, &Token::ASSIGN) {
        Some((j1, _)) => match expr(ts, j1) {
            Ok((k, val)) => {
                assert(tgx_default(ts@, i as int, k as int, tar, val));
                let span = tar.span.add(val.span);
                Ok((k, Node::new(span, TargetExpr::TargetExpr(tar, val))))
            },
            Err(PErr::Error(_)) => Ok((j, tar)),
            Err(e) => Err(e),
        },
        None => Ok((j, tar)),
    }
}

/// A name, or a tuple, list or dictionary of targets with default values.
pub fn target_kind_expr(ts: &[Node<Token>], i: usize) -> (r: PResult<Node<TargetExpr>>)
    requires
        i <= ts@.len(),
    ensures
        id_at(ts@, i as int) ==> (r matches Ok((j, t)) && j == i + 1 && tgx_id(ts@, i as int, t)),
        !id_at(ts@, i as int) && !is_tok(ts@, i as int, TokenV::LPAREN) && !is_tok(ts@, i as int, TokenV::LBRACKET) && !is_tok(ts@, i as int, TokenV::LBRACE) ==> r matches Err(PErr::Error(_)),
        r matches Ok((_, t)) ==> !(*t.data is TargetExpr),
        r matches Ok((j, t)) ==> tgx_rel(ts@, i as int, j as int, t.span, *t.data),
        res_adv(r, ts@, i as int),
    decreases ts@.len() - i, 4int,
{
    match target_id_expr(ts, i) {
        Err(PErr::Error(_)) => {},
        x => {
            return x;
        },
    }
    match target_tuple_expr(ts, i) {
        Err(PErr::Error(_)) => {},
        x => {
            return x;
        },
    }
    match target_list_expr(ts, i) {
        Err(PErr::Error(_)) => {},
        x => {
            return x;
        },
    }
    match target_dict_expr(ts, i) {
        Err(PErr::Error(last)) => Err(
            PErr::Error(
                append(get0(ts, i), NomKind::Alt, last),
            ),
        ),
        x => x,
    }
}

/// A name as a target.
pub fn target_id_expr(ts: &[Node<Token>], i: usize) -> (r: PResult<Node<TargetExpr>>)
    requires
        i <= ts@.len(),
    ensures
        r matches Ok((j, t)) ==> tgx_rel(ts@, i as int, j as int, t.span, *t.data),
        r is Ok <==> (i < ts@.len() && tok_at(ts@, i as int) is Id),
        r matches Ok((j, t)) ==> j == i + 1 && t.span == ts@[i as int].span && (match *t.data {
            TargetExpr::Id(s) => tok_at(ts@, i as int) == TokenV::Id(s@),
            _ => false,
        }),
        r is Err ==> r->Err_0 is Error && err_ok(r->Err_0, ts@, i as int),
{
    let (j, x) = token_tag_id(ts, i)?;
    let span = x.span;
    Ok((j, Node::new(span, TargetExpr::Id(x.data().0))))
}

/// One or more items between brackets `open` and `close`, separated by commas,
/// with an optional comma at the end.
fn target_seq_expr(ts: &[Node<Token>], i: usize, open: &Token, close: &Token) -> (r: PResult<
    (Span, Vec<Node<TargetListItem<TargetExpr>>>),
>)
    requires
        !(close@ is COMMA),
        !(close@ is ASSIGN),
        i <= ts@.len(),
        !(open@ is ERROR),
        !(close@ is ERROR),
    ensures
        !is_tok(ts@, i as int, open@) ==> r matches Err(PErr::Error(_)),
        is_tok(ts@, i as int, open@) && id_at(ts@, i + 1) && is_tok(ts@, i + 2, close@) ==> (r matches Ok((j, (sp, v))) && j == i + 3
            && sp == span_union(ts@[i as int].span, ts@[i + 2].span) && v@.len() == 1 && tgx_id_item(ts@, i + 1, v@[0])),
        r matches Ok((j, (s, v))) ==> tgx_list_exact(ts@, i + 1, j - 1, v@) || (is_tok(ts@, j - 2, TokenV::COMMA)
            && tgx_list_exact(ts@, i + 1, j - 2, v@)),
        res_adv(r, ts@, i as int),
        r matches Ok((j, (s, v))) ==> v@.len() >= 1 && is_tok(ts@, i as int, open@) && is_tok(ts@, j - 1, close@)
            && s == span_union(ts@[i as int].span, ts@[j - 1].span),
    decreases ts@.len() - i, 2int,
{
    let ghost single = is_tok(ts@, i as int, open@) && id_at(ts@, i + 1) && is_tok(ts@, i + 2, close@);
    let (j, lhs) = token_tag(ts, i, open)?;
    let (mut k, first) = target_list_item_expr(ts, j)?;
    let mut vals: Vec<Node<TargetListItem<TargetExpr>>> = Vec::new();
    vals.push(first);
    loop
        invariant
            i < j <= k <= ts@.len(),
            clean(ts@, i as int, k as int),
            vals@.len() >= 1,
            j == i + 1,
            is_tok(ts@, i as int, open@),
            !(close@ is COMMA),
            single == (is_tok(ts@, i as int, open@) && id_at(ts@, i + 1) && is_tok(ts@, i + 2, close@)),
            single ==> k == i + 2 && vals@.len() == 1 && tgx_id_item(ts@, i + 1, vals@[0]),
            tgx_list_exact(ts@, j as int, k as int, vals@),
        decreases ts@.len() - k,
    {
        match opt_tag(ts, k, &Token::COMMA) {
            Some((k1, _)) => match target_list_item_expr(ts, k1) {
                Ok((k2, v)) => {
                    let ghost old_vals = vals@;
                    let ghost k0 = k as int;
                    vals.push(v);
                    k = k2;
                    assert(vals@.subrange(0, vals@.len() - 1) =~= old_vals);
                    assert(is_tok(ts@, k0, TokenV::COMMA));
                },
                Err(PErr::Error(_)) => {
                    break ;
                },
                Err(e) => {
                    return Err(e);
                },
            },
            None => {
                break ;
            },
        }
    }
    if let Some((k1, _)) = opt_tag(ts, k, &Token::COMMA) {
        k = k1;
    }
    let (l, rhs) = token_tag(ts, k, close)?;
    Ok((l, (lhs.span.add(rhs.span), vals)))
}

/// `(a, b, ...)` of targets with default values.
pub fn target_tuple_expr(ts: &[Node<Token>], i: usize) -> (r: PResult<Node<TargetExpr>>)
    requires
        i <= ts@.len(),
    ensures
        !is_tok(ts@, i as int, TokenV::LPAREN) ==> r matches Err(PErr::Error(_)),
        is_tok(ts@, i as int, TokenV::LPAREN) && id_at(ts@, i + 1) && is_tok(ts@, i + 2, TokenV::RPAREN) ==> (r matches Ok((j, t)) && j == i + 3
            && t.span == span_union(ts@[i as int].span, ts@[i + 2].span) && (*t.data matches TargetExpr::TargetTuple(v) && v@.len() == 1 && tgx_id_item(ts@, i + 1, v@[0]))),
        r matches Ok((j, t)) ==> tgx_rel(ts@, i as int, j as int, t.span, *t.data),
        res_adv(r, ts@, i as int),
        r matches Ok((_, t)) ==> *t.data is TargetTuple,
    decreases ts@.len() - i, 3int,
{
    let (j, (span, val)) = target_seq_expr(ts, i, &Token::LPAREN, &Token::RPAREN)?;
    Ok((j, Node::new(span, TargetExpr::TargetTuple(val))))
}

/// `[a, b, ...]` of targets with default values.
pub fn target_list_expr(ts: &[Node<Token>], i: usize) -> (r: PResult<Node<TargetExpr>>)
    requires
        i <= ts@.len(),
    ensures
        !is_tok(ts@, i as int, TokenV::LBRACKET) ==> r matches Err(PErr::Error(_)),
        is_tok(ts@, i as int, TokenV::LBRACKET) && id_at(ts@, i + 1) && is_tok(ts@, i + 2, TokenV::RBRACKET) ==> (r matches Ok((j, t)) && j == i + 3
            && t.span == span_union(ts@[i as int].span, ts@[i + 2].span) && (*t.data matches TargetExpr::TargetList(v) && v@.len() == 1 && tgx_id_item(ts@, i + 1, v@[0]))),
        r matches Ok((j, t)) ==> tgx_rel(ts@, i as int, j as int, t.span, *t.data),
        res_adv(r, ts@, i as int),
        r matches Ok((_, t)) ==> *t.data is TargetList,
    decreases ts@.len() - i, 3int,
{
    let (j, (span, val)) = target_seq_expr(ts, i, &Token::LBRACKET, &Token::RBRACKET)?;
    Ok((j, Node::new(span, TargetExpr::TargetList(val))))
}

/// `{a, key: b, ...c}` of targets with default values.
pub fn target_dict_expr(ts: &[Node<Token>], i: usize) -> (r: PResult<Node<TargetExpr>>)
    requires
        i <= ts@.len(),
    ensures
        !is_tok(ts@, i as int, TokenV::LBRACE) ==> r matches Err(PErr::Error(_)),
        is_tok(ts@, i as int, TokenV::LBRACE) && id_at(ts@, i + 1) && is_tok(ts@, i + 2, TokenV::RBRACE) ==> (r matches Ok((j, t)) && j == i + 3
            && t.span == span_union(ts@[i as int].span, ts@[i + 2].span) && (*t.data matches TargetExpr::TargetDict(v) && v@.len() == 1 && tgx_id_ditem(ts@, i + 1, v@[0]))),
        r matches Ok((j, t)) ==> tgx_rel(ts@, i as int, j as int, t.span, *t.data),
        res_adv(r, ts@, i as int),
        r matches Ok((_, t)) ==> *t.data is TargetDict,
    decreases ts@.len() - i, 3int,
{
    let ghost single = is_tok(ts@, i as int, TokenV::LBRACE) && id_at(ts@, i + 1) && is_tok(ts@, i + 2, TokenV::RBRACE);
    let (j, lhs) = token_tag(ts, i, &Token::LBRACE)?;
    let (mut k, first) = target_dict_item_expr(ts, j)?;
    let mut vals: Vec<Node<TargetDictItem<TargetExpr>>> = Vec::new();
    vals.push(first);
    loop
        invariant
            i < j <= k <= ts@.len(),
            clean(ts@, i as int, k as int),
            j == i + 1,
            is_tok(ts@, i as int, TokenV::LBRACE),
            single == (is_tok(ts@, i as int, TokenV::LBRACE) && id_at(ts@, i + 1) && is_tok(ts@, i + 2, TokenV::RBRACE)),
            single ==> k == i + 2 && vals@.len() == 1 && tgx_id_ditem(ts@, i + 1, vals@[0]),
            tgx_dict_exact(ts@, j as int, k as int, vals@),
        decreases ts@.len() - k,
    {
        match opt_tag(ts, k, &Token::COMMA) {
            Some((k1, _)) => match target_dict_item_expr(ts, k1) {
                Ok((k2, v)) => {
                    let ghost old_vals = vals@;
                    let ghost k0 = k as int;
                    vals.push(v);
                    k = k2;
                    assert(vals@.subrange(0, vals@.len() - 1) =~= old_vals);
                    assert(is_tok(ts@, k0, TokenV::COMMA));
                },
                Err(PErr::Error(_)) => {
                    break ;
                },
                Err(e) => {
                    return Err(e);
                },
            },
            None => {
                break ;
            },
        }
    }
    if let Some((k1, _)) = opt_tag(ts, k, &Token::COMMA) {
        k = k1;
    }
    let (l, rhs) = token_tag(ts, k, &Token::RBRACE)?;
    Ok((l, Node::new(lhs.span.add(rhs.span), TargetExpr::TargetDict(vals))))
}

/// An item of a tuple or list of targets with default values: `t` or `...t`.
pub fn target_list_item_expr(ts: &[Node<Token>], i: usize) -> (r: PResult<Node<TargetListItem<TargetExpr>>>)
    requires
        i <= ts@.len(),
    ensures
        id_at(ts@, i as int) && !is_tok(ts@, i + 1, TokenV::ASSIGN) ==> (r matches Ok((j, n)) && j == i + 1 && tgx_id_item(ts@, i as int, n)),
        r matches Ok((j, n)) ==> tgx_list_item(ts@, i as int, j as int, n),
        res_adv(r, ts@, i as int),
    decreases ts@.len() - i, 6int,
{
    match opt_tag(ts, i, &Token::SPREAD) {
        Some((j, op)) => {
            let (k, val) = target_expr(ts, j)?;
            let span = op.add(val.span);
            Ok((k, Node::new(span, TargetListItem::Spread(val))))
        },
        None => {
            let (k, val) = target_expr(ts, i)?;
            let span = val.span;
            Ok((k, Node::new(span, TargetListItem::Target(val.data()))))
        },
    }
}

/// An item of a dictionary of targets with default values: `...t`, `key: t` or `key`.
pub fn target_dict_item_expr(ts: &[Node<Token>], i: usize) -> (r: PResult<Node<TargetDictItem<TargetExpr>>>)
    requires
        i <= ts@.len(),
    ensures
        id_at(ts@, i as int) && !is_tok(ts@, i + 1, TokenV::COLON) ==> (r matches Ok((j, n)) && j == i + 1 && tgx_id_ditem(ts@, i as int, n)),
        r matches Ok((j, n)) ==> tgx_dict_item(ts@, i as int, j as int, n),
        res_adv(r, ts@, i as int),
    decreases ts@.len() - i, 6int,
{
    if let Some((j, op)) = opt_tag(ts, i, &Token::SPREAD) {
        let (k, val) = target_expr(ts, j)?;
        let span = op.add(val.span);
        return Ok((k, Node::new(span, TargetDictItem::Spread(val))));
    }
    let (j, key) = token_tag_id(ts, i)?;
    let val = match opt_tag(ts, j, &Token::COLON) {
        Some((j1, _)) => match target_expr(ts, j1) {
            Ok(x) => Some(x),
            Err(PErr::Error(_)) => None,
            Err(e) => {
                return Err(e);
            },
        },
        None => None,
    };
    match val {
        Some((k, val)) => {
            let span = key.span.add(val.span);
            Ok((k, Node::new(span, TargetDictItem::Pair { key, val })))
        },
        None => {
            let span = key.span;
            Ok((j, Node::new(span, TargetDictItem::Target(TargetExpr::Id(key.data().0)))))
        },
    }
}

/// A pattern: a target, or a literal.
pub fn target_match(ts: &[Node<Token>], i: usize) -> (r: PResult<Node<Match>>)
    requires
        i <= ts@.len(),
    ensures
        i < ts@.len() && token_admitted(tok_at(ts@, i as int), 2) ==> (r matches Ok((j, t)) && j == i + 1 && t.span
            == ts@[i as int].span && (*t.data matches Match::Literal(a) && atom_of_token(tok_at(ts@, i as int), a))),
        id_at(ts@, i as int) ==> (r matches Ok((j, t)) && j == i + 1 && mt_id(ts@, i as int, t)),
        is_tok(ts@, i as int, TokenV::RBRACE) ==> r matches Err(PErr::Error(_)),
        r matches Ok((j, t)) ==> mt_rel(ts@, i as int, j as int, t.span, *t.data),
        res_adv(r, ts@, i as int),
    decreases ts@.len() - i, 5int,
{
    match target_kind_match(ts, i) {
        Err(PErr::Error(_)) => {},
        x => {
            return x;
        },
    }
    match literal(ts, i) {
        Ok((j, x)) => {
            let span = x.span;
            Ok((j, Node::new(span, Match::Literal(x.data()))))
        },
        Err(PErr::Error(last)) => Err(
            PErr::Error(
                append(get0(ts, i), NomKind::Alt, last),
            ),
        ),
        Err(e) => Err(e),
    }
}

/// A name, or a tuple, list or dictionary of patterns.
pub fn target_kind_match(ts: &[Node<Token>], i: usize) -> (r: PResult<Node<Match>>)
    requires
        i <= ts@.len(),
    ensures
        id_at(ts@, i as int) ==> (r matches Ok((j, t)) && j == i + 1 && mt_id(ts@, i as int, t)),
        !id_at(ts@, i as int) && !is_tok(ts@, i as int, TokenV::LPAREN) && !is_tok(ts@, i as int, TokenV::LBRACKET) && !is_tok(ts@, i as int, TokenV::LBRACE) ==> r matches Err(PErr::Error(_)),
        r matches Ok((j, t)) ==> mt_rel(ts@, i as int, j as int, t.span, *t.data),
        res_adv(r, ts@, i as int),
    decreases ts@.len() - i, 4int,
{
    match target_id_match(ts, i) {
        Err(PErr::Error(_)) => {},
        x => {
            return x;
        },
    }
    match target_tuple_match(ts, i) {
        Err(PErr::Error(_)) => {},
        x => {
            return x;
        },
    }
    match target_list_match(ts, i) {
        Err(PErr::Error(_)) => {},
        x => {
            return x;
        },
    }
    match target_dict_match(ts, i) {
        Err(PErr::Error(last)) => Err(
            PErr::Error(
                append(get0(ts, i), NomKind::Alt, last),
            ),
        ),
        x => x,
    }
}

/// A name as a target.
pub fn target_id_match(ts: &[Node<Token>], i: usize) -> (r: PResult<Node<Match>>)
    requires
        i <= ts@.len(),
    ensures
        r matches Ok((j, t)) ==> mt_rel(ts@, i as int, j as int, t.span, *t.data),
        r is Ok <==> (i < ts@.len() && tok_at(ts@, i as int) is Id),
        r matches Ok((j, t)) ==> j == i + 1 && t.span == ts@[i as int].span && (match *t.data {
            Match::Id(s) => tok_at(ts@, i as int) == TokenV::Id(s@),
            _ => false,
        }),
        r is Err ==> r->Err_0 is Error && err_ok(r->Err_0, ts@, i as int),
{
    let (j, x) = token_tag_id(ts, i)?;
    let span = x.span;
    Ok((j, Node::new(span, Match::Id(x.data().0))))
}

/// One or more items between brackets `open` and `close`, separated by commas,
/// with an optional comma at the end.
fn target_seq_match(ts: &[Node<Token>], i: usize, open: &Token, close: &Token) -> (r: PResult<
    (Span, Vec<Node<TargetListItem<Match>>>),
>)
    requires
        !(close@ is COMMA),
        !(close@ is ASSIGN),
        i <= ts@.len(),
        !(open@ is ERROR),
        !(close@ is ERROR),
    ensures
        !is_tok(ts@, i as int, open@) ==> r matches Err(PErr::Error(_)),
        is_tok(ts@, i as int, open@) && id_at(ts@, i + 1) && is_tok(ts@, i + 2, close@) ==> (r matches Ok((j, (sp, v))) && j == i + 3
            && sp == span_union(ts@[i as int].span, ts@[i + 2].span) && v@.len() == 1 && mt_id_item(ts@, i + 1, v@[0])),
        r matches Ok((j, (s, v))) ==> mt_list_exact(ts@, i + 1, j - 1, v@) || (is_tok(ts@, j - 2, TokenV::COMMA)
            && mt_list_exact(ts@, i + 1, j - 2, v@)),
        res_adv(r, ts@, i as int),
        r matches Ok((j, (s, v))) ==> v@.len() >= 1 && is_tok(ts@, i as int, open@) && is_tok(ts@, j - 1, close@)
            && s == span_union(ts@[i as int].span, ts@[j - 1].span),
    decreases ts@.len() - i, 2int,
{
    let ghost single = is_tok(ts@, i as int, open@) && id_at(ts@, i + 1) && is_tok(ts@, i + 2, close@);
    let (j, lhs) = token_tag(ts, i, open)?;
    let (mut k, first) = target_list_item_match(ts, j)?;
    let mut vals: Vec<Node<TargetListItem<Match>>> = Vec::new();
    vals.push(first);
    loop
        invariant
            i < j <= k <= ts@.len(),
            clean(ts@, i as int, k as int),
            vals@.len() >= 1,
            j == i + 1,
            is_tok(ts@, i as int, open@),
            !(close@ is COMMA),
            single == (is_tok(ts@, i as int, open@) && id_at(ts@, i + 1) && is_tok(ts@, i + 2, close@)),
            single ==> k == i + 2 && vals@.len() == 1 && mt_id_item(ts@, i + 1, vals@[0]),
            mt_list_exact(ts@, j as int, k as int, vals@),
        decreases ts@.len() - k,
    {
        match opt_tag(ts, k, &Token::COMMA) {
            Some((k1, _)) => match target_list_item_match(ts, k1) {
                Ok((k2, v)) => {
                    let ghost old_vals = vals@;
                    let ghost k0 = k as int;
                    vals.push(v);
                    k = k2;
                    assert(vals@.subrange(0, vals@.len() - 1) =~= old_vals);
                    assert(is_tok(ts@, k0, TokenV::COMMA));
                },
                Err(PErr::Error(_)) => {
                    break ;
                },
                Err(e) => {
                    return Err(e);
                },
            },
            None => {
                break ;
            },
        }
    }
    if let Some((k1, _)) = opt_tag(ts, k, &Token::COMMA) {
        k = k1;
    }
    let (l, rhs) = token_tag(ts, k, close)?;
    Ok((l, (lhs.span.add(rhs.span), vals)))
}

/// `(a, b, ...)` of patterns.
pub fn target_tuple_match(ts: &[Node<Token>], i: usize) -> (r: PResult<Node<Match>>)
    requires
        i <= ts@.len(),
    ensures
        !is_tok(ts@, i as int, TokenV::LPAREN) ==> r matches Err(PErr::Error(_)),
        is_tok(ts@, i as int, TokenV::LPAREN) && id_at(ts@, i + 1) && is_tok(ts@, i + 2, TokenV::RPAREN) ==> (r matches Ok((j, t)) && j == i + 3
            && t.span == span_union(ts@[i as int].span, ts@[i + 2].span) && (*t.data matches Match::TargetTuple(v) && v@.len() == 1 && mt_id_item(ts@, i + 1, v@[0]))),
        r matches Ok((j, t)) ==> mt_rel(ts@, i as int, j as int, t.span, *t.data),
        res_adv(r, ts@, i as int),
        r matches Ok((_, t)) ==> *t.data is TargetTuple,
    decreases ts@.len() - i, 3int,
{
    let (j, (span, val)) = target_seq_match(ts, i, &Token::LPAREN, &Token::RPAREN)?;
    Ok((j, Node::new(span, Match::TargetTuple(val))))
}

/// `[a, b, ...]` of patterns.
pub fn target_list_match(ts: &[Node<Token>], i: usize) -> (r: PResult<Node<Match>>)
    requires
        i <= ts@.len(),
    ensures
        !is_tok(ts@, i as int, TokenV::LBRACKET) ==> r matches Err(PErr::Error(_)),
        is_tok(ts@, i as int, TokenV::LBRACKET) && id_at(ts@, i + 1) && is_tok(ts@, i + 2, TokenV::RBRACKET) ==> (r matches Ok((j, t)) && j == i + 3
            && t.span == span_union(ts@[i as int].span, ts@[i + 2].span) && (*t.data matches Match::TargetList(v) && v@.len() == 1 && mt_id_item(ts@, i + 1, v@[0]))),
        r matches Ok((j, t)) ==> mt_rel(ts@, i as int, j as int, t.span, *t.data),
        res_adv(r, ts@, i as int),
        r matches Ok((_, t)) ==> *t.data is TargetList,
    decreases ts@.len() - i, 3int,
{
    let (j, (span, val)) = target_seq_match(ts, i, &Token::LBRACKET, &Token::RBRACKET)?;
    Ok((j, Node::new(span, Match::TargetList(val))))
}

/// `{a, key: b, ...c}` of patterns.
pub fn target_dict_match(ts: &[Node<Token>], i: usize) -> (r: PResult<Node<Match>>)
    requires
        i <= ts@.len(),
    ensures
        !is_tok(ts@, i as int, TokenV::LBRACE) ==> r matches Err(PErr::Error(_)),
        is_tok(ts@, i as int, TokenV::LBRACE) && id_at(ts@, i + 1) && is_tok(ts@, i + 2, TokenV::RBRACE) ==> (r matches Ok((j, t)) && j == i + 3
            && t.span == span_union(ts@[i as int].span, ts@[i + 2].span) && (*t.data matches Match::TargetDict(v) && v@.len() == 1 && mt_id_ditem(ts@, i + 1, v@[0]))),
        r matches Ok((j, t)) ==> mt_rel(ts@, i as int, j as int, t.span, *t.data),
        res_adv(r, ts@, i as int),
        r matches Ok((_, t)) ==> *t.data is TargetDict,
    decreases ts@.len() - i, 3int,
{
    let ghost single = is_tok(ts@, i as int, TokenV::LBRACE) && id_at(ts@, i + 1) && is_tok(ts@, i + 2, TokenV::RBRACE);
    let (j, lhs) = token_tag(ts, i, &Token::LBRACE)?;
    let (mut k, first) = target_dict_item_match(ts, j)?;
    let mut vals: Vec<Node<TargetDictItem<Match>>> = Vec::new();
    vals.push(first);
    loop
        invariant
            i < j <= k <= ts@.len(),
            clean(ts@, i as int, k as int),
            j == i + 1,
            is_tok(ts@, i as int, TokenV::LBRACE),
            single == (is_tok(ts@, i as int, TokenV::LBRACE) && id_at(ts@, i + 1) && is_tok(ts@, i + 2, TokenV::RBRACE)),
            single ==> k == i + 2 && vals@.len() == 1 && mt_id_ditem(ts@, i + 1, vals@[0]),
            mt_dict_exact(ts@, j as int, k as int, vals@),
        decreases ts@.len() - k,
    {
        match opt_tag(ts, k, &Token::COMMA) {
            Some((k1, _)) => match target_dict_item_match(ts, k1) {
                Ok((k2, v)) => {
                    let ghost old_vals = vals@;
                    let ghost k0 = k as int;
                    vals.push(v);
                    k = k2;
                    assert(vals@.subrange(0, vals@.len() - 1) =~= old_vals);
                    assert(is_tok(ts@, k0, TokenV::COMMA));
                },
                Err(PErr::Error(_)) => {
                    break ;
                },
                Err(e) => {
                    return Err(e);
                },
            },
            None => {
                break ;
            },
        }
    }
    if let Some((k1, _)) = opt_tag(ts, k, &Token::COMMA) {
        k = k1;
    }
    let (l, rhs) = token_tag(ts, k, &Token::RBRACE)?;
    Ok((l, Node::new(lhs.span.add(rhs.span), Match::TargetDict(vals))))
}

/// An item of a tuple or list of patterns: `t` or `...t`.
pub fn target_list_item_match(ts: &[Node<Token>], i: usize) -> (r: PResult<Node<TargetListItem<Match>>>)
    requires
        i <= ts@.len(),
    ensures
        id_at(ts@, i as int) ==> (r matches Ok((j, n)) && j == i + 1 && mt_id_item(ts@, i as int, n)),
        r matches Ok((j, n)) ==> mt_list_item(ts@, i as int, j as int, n),
        res_adv(r, ts@, i as int),
    decreases ts@.len() - i, 6int,
{
    match opt_tag(ts, i, &Token::SPREAD) {
        Some((j, op)) => {
            let (k, val) = target_match(ts, j)?;
            let span = op.add(val.span);
            Ok((k, Node::new(span, TargetListItem::Spread(val))))
        },
        None => {
            let (k, val) = target_match(ts, i)?;
            let span = val.span;
            Ok((k, Node::new(span, TargetListItem::Target(val.data()))))
        },
    }
}

/// An item of a dictionary of patterns: `...t`, `key: t` or `key`.
pub fn target_dict_item_match(ts: &[Node<Token>], i: usize) -> (r: PResult<Node<TargetDictItem<Match>>>)
    requires
        i <= ts@.len(),
    ensures
        id_at(ts@, i as int) && !is_tok(ts@, i + 1, TokenV::COLON) ==> (r matches Ok((j, n)) && j == i + 1 && mt_id_ditem(ts@, i as int, n)),
        r matches Ok((j, n)) ==> mt_dict_item(ts@, i as int, j as int, n),
        res_adv(r, ts@, i as int),
    decreases ts@.len() - i, 6int,
{
    if let Some((j, op)) = opt_tag(ts, i, &Token::SPREAD) {
        let (k, val) = target_match(ts, j)?;
        let span = op.add(val.span);
        return Ok((k, Node::new(span, TargetDictItem::Spread(val))));
    }
    let (j, key) = token_tag_id(ts, i)?;
    let val = match opt_tag(ts, j, &Token::COLON) {
        Some((j1, _)) => match target_match(ts, j1) {
            Ok(x) => Some(x),
            Err(PErr::Error(_)) => None,
            Err(e) => {
                return Err(e);
            },
        },
        None => None,
    };
    match val {
        Some((k, val)) => {
            let span = key.span.add(val.span);
            Ok((k, Node::new(span, TargetDictItem::Pair { key, val })))
        },
        None => {
            let span = key.span;
            Ok((j, Node::new(span, TargetDictItem::Target(Match::Id(key.data().0)))))
        },
    }
}

} // verus!
