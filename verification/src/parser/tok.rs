use vstd::prelude::*;

use super::error::{clean, err, err_ok, perr_node, Error, ErrorKind, PResult};
use crate::ast::Id;
use crate::lexer::token::{NumberKind, NumberV, Token, TokenV};
use crate::types::node::Node;
use crate::types::span::Span;

verus! {

/// The view of the token at `i`.
pub open spec fn tok_at(ts: Seq<Node<Token>>, i: int) -> TokenV {
    (*ts[i].data)@
}

/// Whether the token at `i` exists and is `t`.
pub open spec fn is_tok(ts: Seq<Node<Token>>, i: int, t: TokenV) -> bool {
    0 <= i < ts.len() && tok_at(ts, i) == t
}

/// The span of the token at `i`, when there is one.
pub open spec fn span_at(ts: Seq<Node<Token>>, i: int) -> Option<Span> {
    if 0 <= i < ts.len() {
        Some(ts[i].span)
    } else {
        None
    }
}

/// The span of the token at `i`, when there is one.
pub fn get0(ts: &[Node<Token>], i: usize) -> (r: Option<Span>)
    ensures
        r == span_at(ts@, i as int),
{
    if i < ts.len() {
        Some(ts[i].span)
    } else {
        None
    }
}

/// Reads one token; an error token and the end of input are errors.
pub fn token<'a>(ts: &'a [Node<Token>], i: usize) -> (r: PResult<&'a Node<Token>>)
    requires
        i <= ts@.len(),
    ensures
        r is Ok <==> (i < ts@.len() && !(tok_at(ts@, i as int) is ERROR)),
        r matches Ok((j, t)) ==> j == i + 1 && *t == ts@[i as int],
        r matches Err(e) ==> e is Error && err_ok(e, ts@, i as int),
        r matches Err(e) ==> (if i < ts@.len() {
            perr_node(e).span == Some(ts@[i as int].span) && *perr_node(e).data == Error::Error(
                ErrorKind::Lex,
            )
        } else {
            perr_node(e).span is None && *perr_node(e).data == Error::Error(ErrorKind::Eof)
        }),
{
    if i < ts.len() {
        let x = &ts[i];
        match &*x.data {
            Token::ERROR => Err(err(Some(x.span), ErrorKind::Lex)),
            _ => Ok((i + 1, x)),
        }
    } else {
        Err(err(None, ErrorKind::Eof))
    }
}

/// Reads one token that satisfies `predicate`.
pub fn token_if<'a, P: Fn(&'a Node<Token>) -> bool>(ts: &'a [Node<Token>], i: usize, predicate: P) -> (r:
    PResult<&'a Node<Token>>)
    requires
        i <= ts@.len(),
        i < ts@.len() ==> call_requires(predicate, (&ts@[i as int],)),
    ensures
        r matches Ok((j, t)) ==> j == i + 1 && *t == ts@[i as int] && call_ensures(
            predicate,
            (&ts@[i as int],),
            true,
        ),
        r matches Err(e) ==> e is Error && err_ok(e, ts@, i as int),
        r is Err ==> i >= ts@.len() || tok_at(ts@, i as int) is ERROR || call_ensures(
            predicate,
            (&ts@[i as int],),
            false,
        ),
{
    let (tail, head) = token(ts, i)?;
    if predicate(head) {
        Ok((tail, head))
    } else {
        Err(err(Some(head.span), ErrorKind::Predicate))
    }
}

/// Reads one token and turns it into a value with `action`; a token that
/// `action` refuses is an error.
pub fn token_action<'a, T, Q: Fn(&'a Node<Token>) -> Option<T>>(ts: &'a [Node<Token>], i: usize, action: Q) -> (r:
    PResult<T>)
    requires
        i <= ts@.len(),
        i < ts@.len() ==> call_requires(action, (&ts@[i as int],)),
    ensures
        r matches Ok((j, t)) ==> j == i + 1 && !(tok_at(ts@, i as int) is ERROR) && call_ensures(
            action,
            (&ts@[i as int],),
            Some(t),
        ),
        r matches Err(e) ==> e is Error && err_ok(e, ts@, i as int),
        r is Err ==> i >= ts@.len() || tok_at(ts@, i as int) is ERROR || call_ensures(
            action,
            (&ts@[i as int],),
            None,
        ),
{
    let (tail, head) = token(ts, i)?;
    match action(head) {
        Some(t) => Ok((tail, t)),
        None => Err(err(Some(head.span), ErrorKind::Predicate)),
    }
}

/// Reads the token `tag`.
pub fn token_tag<'a>(ts: &'a [Node<Token>], i: usize, tag: &Token) -> (r: PResult<&'a Node<Token>>)
    requires
        i <= ts@.len(),
    ensures
        r is Ok <==> (is_tok(ts@, i as int, tag@) && !(tag@ is ERROR)),
        r matches Ok((j, t)) ==> j == i + 1 && *t == ts@[i as int],
        r matches Err(e) ==> e is Error && err_ok(e, ts@, i as int),
{
    let (tail, head) = token(ts, i)?;
    if *head.data == *tag {
        Ok((tail, head))
    } else {
        Err(err(Some(head.span), ErrorKind::Predicate))
    }
}

/// Reads the token `tag` if it is next: its span and the position after it.
pub fn opt_tag(ts: &[Node<Token>], i: usize, tag: &Token) -> (r: Option<(usize, Span)>)
    requires
        i <= ts@.len(),
        !(tag@ is ERROR),
    ensures
        r is Some <==> is_tok(ts@, i as int, tag@),
        r matches Some((j, sp)) ==> j == i + 1 && sp == ts@[i as int].span,
{
    match token_tag(ts, i, tag) {
        Ok((j, t)) => Some((j, t.span)),
        Err(_) => None,
    }
}

/// Reads any number of `tag` tokens.
pub fn many_tag(ts: &[Node<Token>], i: usize, tag: &Token) -> (r: (usize, Vec<Span>))
    requires
        i <= ts@.len(),
        !(tag@ is ERROR),
    ensures
        i <= r.0 <= ts@.len(),
        clean(ts@, i as int, r.0 as int),
        r.0 - i == r.1@.len(),
        forall|k: int| i <= k < r.0 ==> is_tok(ts@, k, tag@),
        !is_tok(ts@, r.0 as int, tag@),
        forall|k: int| 0 <= k < r.1@.len() ==> r.1@[k] == ts@[i + k].span,
{
    let mut j = i;
    let mut spans: Vec<Span> = Vec::new();
    loop
        invariant
            i <= j <= ts@.len(),
            !(tag@ is ERROR),
            j - i == spans@.len(),
            forall|k: int| i <= k < j ==> is_tok(ts@, k, tag@),
            forall|k: int| 0 <= k < spans@.len() ==> spans@[k] == ts@[i + k].span,
        decreases ts@.len() - j,
    {
        match opt_tag(ts, j, tag) {
            Some((k, sp)) => {
                spans.push(sp);
                j = k;
            },
            None => {
                proof {
                    assert forall|k: int| i <= k < j implies !(#[trigger] (*ts@[k].data)@ is ERROR) by {
                        assert(is_tok(ts@, k, tag@));
                    }
                }
                return (j, spans);
            },
        }
    }
}

/// Reads an identifier.
pub fn token_tag_id(ts: &[Node<Token>], i: usize) -> (r: PResult<Node<Id>>)
    requires
        i <= ts@.len(),
    ensures
        r is Ok <==> (i < ts@.len() && tok_at(ts@, i as int) is Id),
        r matches Ok((j, n)) ==> j == i + 1 && n.span == ts@[i as int].span && TokenV::Id(
            n.data.0@,
        ) == tok_at(ts@, i as int),
        r matches Err(e) ==> e is Error && err_ok(e, ts@, i as int),
{
    let (tail, head) = token(ts, i)?;
    match &*head.data {
        Token::Id(val) => Ok((tail, Node::new(head.span, Id(val.clone())))),
        _ => Err(err(Some(head.span), ErrorKind::Predicate)),
    }
}

/// Reads an index literal `.n`.
pub fn token_tag_idx(ts: &[Node<Token>], i: usize) -> (r: PResult<Node<usize>>)
    requires
        i <= ts@.len(),
    ensures
        r is Ok <==> (i < ts@.len() && tok_at(ts@, i as int) matches TokenV::Number(
            NumberV::Index(_),
        )),
        r matches Ok((j, n)) ==> j == i + 1 && n.span == ts@[i as int].span && tok_at(
            ts@,
            i as int,
        ) == TokenV::Number(NumberV::Index(*n.data)),
        r matches Err(e) ==> e is Error && err_ok(e, ts@, i as int),
{
    let (tail, head) = token(ts, i)?;
    match &*head.data {
        Token::Number(NumberKind::Index(val)) => Ok((tail, Node::new(head.span, *val))),
        _ => Err(err(Some(head.span), ErrorKind::Predicate)),
    }
}

} // verus!
