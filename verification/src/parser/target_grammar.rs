//! The grammar of assignment targets as relations: `tgt_rel(ts, i, j, s, t)`
//! holds when the tokens `ts[i..j]` read as the target `t` with the span `s`.
//! Items are separated by commas, and a comma may end a sequence.
use vstd::prelude::*;

use super::grammar::enclosed;
use super::tok::is_tok;
use super::atom::{atom_of_token, token_admitted};
use super::grammar::expr_rel;
use super::tok::tok_at;
use crate::ast::{Expr, Match, Target, TargetDictItem, TargetExpr, TargetListItem};
use crate::lexer::token::{Token, TokenV};
use crate::types::node::Node;
use crate::types::span::{span_union, Span};

verus! {

/// A name at `i`.
pub open spec fn id_at(ts: Seq<Node<Token>>, i: int) -> bool {
    0 <= i < ts.len() && tok_at(ts, i) is Id
}

/// `t` is the name at `i`, in its place.
pub open spec fn tgt_id(ts: Seq<Node<Token>>, i: int, t: Node<Target>) -> bool {
    0 <= i < ts.len() && t.span == ts[i].span && (*t.data matches Target::Id(s) && tok_at(ts, i) == TokenV::Id(s@))
}

/// `n` is the item made of the name at `i`, in its place.
pub open spec fn tgt_id_item(ts: Seq<Node<Token>>, i: int, n: Node<TargetListItem<Target>>) -> bool {
    0 <= i < ts.len() && n.span == ts[i].span && (*n.data matches TargetListItem::Target(Target::Id(s)) && tok_at(
        ts,
        i,
    ) == TokenV::Id(s@))
}

/// `n` is the dictionary item made of the name at `i`, in its place.
pub open spec fn tgt_id_ditem(ts: Seq<Node<Token>>, i: int, n: Node<TargetDictItem<Target>>) -> bool {
    0 <= i < ts.len() && n.span == ts[i].span && (*n.data matches TargetDictItem::Target(Target::Id(s)) && tok_at(
        ts,
        i,
    ) == TokenV::Id(s@))
}

/// `t` is the name at `i`, in its place.
pub open spec fn tgx_id(ts: Seq<Node<Token>>, i: int, t: Node<TargetExpr>) -> bool {
    0 <= i < ts.len() && t.span == ts[i].span && (*t.data matches TargetExpr::Id(s) && tok_at(ts, i) == TokenV::Id(s@))
}

/// `n` is the item made of the name at `i`, in its place.
pub open spec fn tgx_id_item(ts: Seq<Node<Token>>, i: int, n: Node<TargetListItem<TargetExpr>>) -> bool {
    0 <= i < ts.len() && n.span == ts[i].span && (*n.data matches TargetListItem::Target(TargetExpr::Id(s)) && tok_at(
        ts,
        i,
    ) == TokenV::Id(s@))
}

/// `n` is the dictionary item made of the name at `i`, in its place.
pub open spec fn tgx_id_ditem(ts: Seq<Node<Token>>, i: int, n: Node<TargetDictItem<TargetExpr>>) -> bool {
    0 <= i < ts.len() && n.span == ts[i].span && (*n.data matches TargetDictItem::Target(TargetExpr::Id(s)) && tok_at(
        ts,
        i,
    ) == TokenV::Id(s@))
}

/// `t` is the name at `i`, in its place.
pub open spec fn mt_id(ts: Seq<Node<Token>>, i: int, t: Node<Match>) -> bool {
    0 <= i < ts.len() && t.span == ts[i].span && (*t.data matches Match::Id(s) && tok_at(ts, i) == TokenV::Id(s@))
}

/// `n` is the item made of the name at `i`, in its place.
pub open spec fn mt_id_item(ts: Seq<Node<Token>>, i: int, n: Node<TargetListItem<Match>>) -> bool {
    0 <= i < ts.len() && n.span == ts[i].span && (*n.data matches TargetListItem::Target(Match::Id(s)) && tok_at(
        ts,
        i,
    ) == TokenV::Id(s@))
}

/// `n` is the dictionary item made of the name at `i`, in its place.
pub open spec fn mt_id_ditem(ts: Seq<Node<Token>>, i: int, n: Node<TargetDictItem<Match>>) -> bool {
    0 <= i < ts.len() && n.span == ts[i].span && (*n.data matches TargetDictItem::Target(Match::Id(s)) && tok_at(
        ts,
        i,
    ) == TokenV::Id(s@))
}


/// Targets: a name, or a tuple, list or dictionary of target items.
pub open spec fn tgt_rel(ts: Seq<Node<Token>>, i: int, j: int, s: Span, t: Target) -> bool
    decreases t,
{
    match t {
        Target::Id(x) => j == i + 1 && is_tok(ts, i, TokenV::Id(x@)) && s == ts[i].span,
        Target::TargetTuple(v) => enclosed(ts, i, j, s, TokenV::LPAREN, TokenV::RPAREN) && (
        tgt_list_exact(ts, i + 1, j - 1, v@) || (is_tok(ts, j - 2, TokenV::COMMA) && tgt_list_exact(
            ts,
            i + 1,
            j - 2,
            v@,
        ))),
        Target::TargetList(v) => enclosed(ts, i, j, s, TokenV::LBRACKET, TokenV::RBRACKET) && (
        tgt_list_exact(ts, i + 1, j - 1, v@) || (is_tok(ts, j - 2, TokenV::COMMA) && tgt_list_exact(
            ts,
            i + 1,
            j - 2,
            v@,
        ))),
        Target::TargetDict(v) => enclosed(ts, i, j, s, TokenV::LBRACE, TokenV::RBRACE) && (
        tgt_dict_exact(ts, i + 1, j - 1, v@) || (is_tok(ts, j - 2, TokenV::COMMA) && tgt_dict_exact(
            ts,
            i + 1,
            j - 2,
            v@,
        ))),
    }
}

/// One or more items of a tuple or list of targets at `ts[a..b]`, separated
/// by commas.
pub open spec fn tgt_list_exact(
    ts: Seq<Node<Token>>,
    a: int,
    b: int,
    v: Seq<Node<TargetListItem<Target>>>,
) -> bool
    decreases v,
{
    if v.len() == 0 {
        false
    } else if v.len() == 1 {
        tgt_list_item(ts, a, b, v[0])
    } else {
        exists|k: int|
            #![trigger is_tok(ts, k, TokenV::COMMA)]
            tgt_list_exact(ts, a, k, v.subrange(0, v.len() - 1)) && is_tok(ts, k, TokenV::COMMA)
                && tgt_list_item(ts, k + 1, b, v[v.len() - 1])
    }
}

/// An item of a tuple or list of targets: a target, or `...` and a target.
pub open spec fn tgt_list_item(ts: Seq<Node<Token>>, a: int, b: int, n: Node<TargetListItem<Target>>) -> bool
    decreases n,
{
    match *n.data {
        TargetListItem::Spread(x) => is_tok(ts, a, TokenV::SPREAD) && tgt_rel(
            ts,
            a + 1,
            b,
            x.span,
            *x.data,
        ) && n.span == span_union(ts[a].span, x.span),
        TargetListItem::Target(t) => tgt_rel(ts, a, b, n.span, t),
    }
}

/// One or more items of a dictionary of targets at `ts[a..b]`, separated by
/// commas.
pub open spec fn tgt_dict_exact(
    ts: Seq<Node<Token>>,
    a: int,
    b: int,
    v: Seq<Node<TargetDictItem<Target>>>,
) -> bool
    decreases v,
{
    if v.len() == 0 {
        false
    } else if v.len() == 1 {
        tgt_dict_item(ts, a, b, v[0])
    } else {
        exists|k: int|
            #![trigger is_tok(ts, k, TokenV::COMMA)]
            tgt_dict_exact(ts, a, k, v.subrange(0, v.len() - 1)) && is_tok(ts, k, TokenV::COMMA)
                && tgt_dict_item(ts, k + 1, b, v[v.len() - 1])
    }
}

/// An item of a dictionary of targets: `...t`, `key: t` or `key`.
pub open spec fn tgt_dict_item(ts: Seq<Node<Token>>, a: int, b: int, n: Node<TargetDictItem<Target>>) -> bool
    decreases n,
{
    match *n.data {
        TargetDictItem::Spread(x) => is_tok(ts, a, TokenV::SPREAD) && tgt_rel(
            ts,
            a + 1,
            b,
            x.span,
            *x.data,
        ) && n.span == span_union(ts[a].span, x.span),
        TargetDictItem::Pair { key, val } => is_tok(ts, a, TokenV::Id(key.data.0@)) && key.span
            == ts[a].span && is_tok(ts, a + 1, TokenV::COLON) && tgt_rel(
            ts,
            a + 2,
            b,
            val.span,
            *val.data,
        ) && n.span == span_union(key.span, val.span),
        TargetDictItem::Target(t) => t matches Target::Id(x) && b == a + 1 && is_tok(
            ts,
            a,
            TokenV::Id(x@),
        ) && n.span == ts[a].span,
    }
}

/// Targets with default values: a target, or a target `= expr`.
pub open spec fn tgx_rel(ts: Seq<Node<Token>>, i: int, j: int, s: Span, t: TargetExpr) -> bool
    decreases t,
{
    match t {
        TargetExpr::Id(x) => j == i + 1 && is_tok(ts, i, TokenV::Id(x@)) && s == ts[i].span,
        TargetExpr::TargetTuple(v) => enclosed(ts, i, j, s, TokenV::LPAREN, TokenV::RPAREN) && (
        tgx_list_exact(ts, i + 1, j - 1, v@) || (is_tok(ts, j - 2, TokenV::COMMA) && tgx_list_exact(
            ts,
            i + 1,
            j - 2,
            v@,
        ))),
        TargetExpr::TargetList(v) => enclosed(ts, i, j, s, TokenV::LBRACKET, TokenV::RBRACKET) && (
        tgx_list_exact(ts, i + 1, j - 1, v@) || (is_tok(ts, j - 2, TokenV::COMMA) && tgx_list_exact(
            ts,
            i + 1,
            j - 2,
            v@,
        ))),
        TargetExpr::TargetDict(v) => enclosed(ts, i, j, s, TokenV::LBRACE, TokenV::RBRACE) && (
        tgx_dict_exact(ts, i + 1, j - 1, v@) || (is_tok(ts, j - 2, TokenV::COMMA) && tgx_dict_exact(
            ts,
            i + 1,
            j - 2,
            v@,
        ))),
        TargetExpr::TargetExpr(tar, val) => tgx_default(ts, i, j, tar, val) && s == span_union(
            tar.span,
            val.span,
        ),
    }
}

/// One or more items of a tuple or list of targets at `ts[a..b]`, separated
/// by commas.
pub open spec fn tgx_list_exact(
    ts: Seq<Node<Token>>,
    a: int,
    b: int,
    v: Seq<Node<TargetListItem<TargetExpr>>>,
) -> bool
    decreases v,
{
    if v.len() == 0 {
        false
    } else if v.len() == 1 {
        tgx_list_item(ts, a, b, v[0])
    } else {
        exists|k: int|
            #![trigger is_tok(ts, k, TokenV::COMMA)]
            tgx_list_exact(ts, a, k, v.subrange(0, v.len() - 1)) && is_tok(ts, k, TokenV::COMMA)
                && tgx_list_item(ts, k + 1, b, v[v.len() - 1])
    }
}

/// An item of a tuple or list of targets: a target, or `...` and a target.
pub open spec fn tgx_list_item(ts: Seq<Node<Token>>, a: int, b: int, n: Node<TargetListItem<TargetExpr>>) -> bool
    decreases n,
{
    match *n.data {
        TargetListItem::Spread(x) => is_tok(ts, a, TokenV::SPREAD) && tgx_rel(
            ts,
            a + 1,
            b,
            x.span,
            *x.data,
        ) && n.span == span_union(ts[a].span, x.span),
        TargetListItem::Target(t) => tgx_rel(ts, a, b, n.span, t),
    }
}

/// One or more items of a dictionary of targets at `ts[a..b]`, separated by
/// commas.
pub open spec fn tgx_dict_exact(
    ts: Seq<Node<Token>>,
    a: int,
    b: int,
    v: Seq<Node<TargetDictItem<TargetExpr>>>,
) -> bool
    decreases v,
{
    if v.len() == 0 {
        false
    } else if v.len() == 1 {
        tgx_dict_item(ts, a, b, v[0])
    } else {
        exists|k: int|
            #![trigger is_tok(ts, k, TokenV::COMMA)]
            tgx_dict_exact(ts, a, k, v.subrange(0, v.len() - 1)) && is_tok(ts, k, TokenV::COMMA)
                && tgx_dict_item(ts, k + 1, b, v[v.len() - 1])
    }
}

/// An item of a dictionary of targets: `...t`, `key: t` or `key`.
pub open spec fn tgx_dict_item(ts: Seq<Node<Token>>, a: int, b: int, n: Node<TargetDictItem<TargetExpr>>) -> bool
    decreases n,
{
    match *n.data {
        TargetDictItem::Spread(x) => is_tok(ts, a, TokenV::SPREAD) && tgx_rel(
            ts,
            a + 1,
            b,
            x.span,
            *x.data,
        ) && n.span == span_union(ts[a].span, x.span),
        TargetDictItem::Pair { key, val } => is_tok(ts, a, TokenV::Id(key.data.0@)) && key.span
            == ts[a].span && is_tok(ts, a + 1, TokenV::COLON) && tgx_rel(
            ts,
            a + 2,
            b,
            val.span,
            *val.data,
        ) && n.span == span_union(key.span, val.span),
        TargetDictItem::Target(t) => t matches TargetExpr::Id(x) && b == a + 1 && is_tok(
            ts,
            a,
            TokenV::Id(x@),
        ) && n.span == ts[a].span,
    }
}

/// A target without a default value, `=`, and its default value, at
/// `ts[i..j]`.
pub open spec fn tgx_default(ts: Seq<Node<Token>>, i: int, j: int, tar: Node<TargetExpr>, val: Node<Expr>) -> bool
    decreases tar,
{
    !(*tar.data is TargetExpr) && exists|k: int|
        #![trigger is_tok(ts, k, TokenV::ASSIGN)]
        tgx_rel(ts, i, k, tar.span, *tar.data) && is_tok(ts, k, TokenV::ASSIGN) && expr_rel(
            ts,
            k + 1,
            j,
            val.span,
            *val.data,
        )
}

/// Patterns: a target of names, or a literal.
pub open spec fn mt_rel(ts: Seq<Node<Token>>, i: int, j: int, s: Span, t: Match) -> bool
    decreases t,
{
    match t {
        Match::Id(x) => j == i + 1 && is_tok(ts, i, TokenV::Id(x@)) && s == ts[i].span,
        Match::TargetTuple(v) => enclosed(ts, i, j, s, TokenV::LPAREN, TokenV::RPAREN) && (
        mt_list_exact(ts, i + 1, j - 1, v@) || (is_tok(ts, j - 2, TokenV::COMMA) && mt_list_exact(
            ts,
            i + 1,
            j - 2,
            v@,
        ))),
        Match::TargetList(v) => enclosed(ts, i, j, s, TokenV::LBRACKET, TokenV::RBRACKET) && (
        mt_list_exact(ts, i + 1, j - 1, v@) || (is_tok(ts, j - 2, TokenV::COMMA) && mt_list_exact(
            ts,
            i + 1,
            j - 2,
            v@,
        ))),
        Match::TargetDict(v) => enclosed(ts, i, j, s, TokenV::LBRACE, TokenV::RBRACE) && (
        mt_dict_exact(ts, i + 1, j - 1, v@) || (is_tok(ts, j - 2, TokenV::COMMA) && mt_dict_exact(
            ts,
            i + 1,
            j - 2,
            v@,
        ))),
        Match::Literal(a) => j == i + 1 && 0 <= i < ts.len() && token_admitted(tok_at(ts, i), 2u8)
            && s == ts[i].span && atom_of_token(tok_at(ts, i), a),
    }
}

/// One or more items of a tuple or list of targets at `ts[a..b]`, separated
/// by commas.
pub open spec fn mt_list_exact(
    ts: Seq<Node<Token>>,
    a: int,
    b: int,
    v: Seq<Node<TargetListItem<Match>>>,
) -> bool
    decreases v,
{
    if v.len() == 0 {
        false
    } else if v.len() == 1 {
        mt_list_item(ts, a, b, v[0])
    } else {
        exists|k: int|
            #![trigger is_tok(ts, k, TokenV::COMMA)]
            mt_list_exact(ts, a, k, v.subrange(0, v.len() - 1)) && is_tok(ts, k, TokenV::COMMA)
                && mt_list_item(ts, k + 1, b, v[v.len() - 1])
    }
}

/// An item of a tuple or list of targets: a target, or `...` and a target.
pub open spec fn mt_list_item(ts: Seq<Node<Token>>, a: int, b: int, n: Node<TargetListItem<Match>>) -> bool
    decreases n,
{
    match *n.data {
        TargetListItem::Spread(x) => is_tok(ts, a, TokenV::SPREAD) && mt_rel(
            ts,
            a + 1,
            b,
            x.span,
            *x.data,
        ) && n.span == span_union(ts[a].span, x.span),
        TargetListItem::Target(t) => mt_rel(ts, a, b, n.span, t),
    }
}

/// One or more items of a dictionary of targets at `ts[a..b]`, separated by
/// commas.
pub open spec fn mt_dict_exact(
    ts: Seq<Node<Token>>,
    a: int,
    b: int,
    v: Seq<Node<TargetDictItem<Match>>>,
) -> bool
    decreases v,
{
    if v.len() == 0 {
        false
    } else if v.len() == 1 {
        mt_dict_item(ts, a, b, v[0])
    } else {
        exists|k: int|
            #![trigger is_tok(ts, k, TokenV::COMMA)]
            mt_dict_exact(ts, a, k, v.subrange(0, v.len() - 1)) && is_tok(ts, k, TokenV::COMMA)
                && mt_dict_item(ts, k + 1, b, v[v.len() - 1])
    }
}

/// An item of a dictionary of targets: `...t`, `key: t` or `key`.
pub open spec fn mt_dict_item(ts: Seq<Node<Token>>, a: int, b: int, n: Node<TargetDictItem<Match>>) -> bool
    decreases n,
{
    match *n.data {
        TargetDictItem::Spread(x) => is_tok(ts, a, TokenV::SPREAD) && mt_rel(
            ts,
            a + 1,
            b,
            x.span,
            *x.data,
        ) && n.span == span_union(ts[a].span, x.span),
        TargetDictItem::Pair { key, val } => is_tok(ts, a, TokenV::Id(key.data.0@)) && key.span
            == ts[a].span && is_tok(ts, a + 1, TokenV::COLON) && mt_rel(
            ts,
            a + 2,
            b,
            val.span,
            *val.data,
        ) && n.span == span_union(key.span, val.span),
        TargetDictItem::Target(t) => t matches Match::Id(x) && b == a + 1 && is_tok(
            ts,
            a,
            TokenV::Id(x@),
        ) && n.span == ts[a].span,
    }
}

} // verus!
