use vstd::prelude::*;

use super::enclosure::enclosure;
use super::grammar::{atom_content, atom_rel, comp_content, no_atom_at};
use super::error::{append, err, err_ok, res_ok, Error, ErrorKind, NomKind, PErr, PResult};
use super::tok::{get0, tok_at, token};
use crate::ast::Atom;
use crate::lexer::token::{NumberKind, NumberV, Token, TokenV};
use crate::types::node::Node;

use super::nested::{list_end, list_tree, nested_list};
verus! {

/// Whether the token `t` reads as an atom of a kind that `want` admits: 0 names,
/// strings and numbers; 1 names; 2 strings and numbers; 3 strings; 4 numbers
/// (an index is no atom).
pub open spec fn token_admitted(t: TokenV, want: u8) -> bool {
    match t {
        TokenV::Id(_) => want == 0 || want == 1,
        TokenV::String(_) => want == 0 || want == 2 || want == 3,
        TokenV::Number(NumberV::Integer(_)) => want == 0 || want == 2 || want == 4,
        TokenV::Number(NumberV::Float(_)) => want == 0 || want == 2 || want == 4,
        _ => false,
    }
}

/// The atom `a` is what the token `t` reads as.
pub open spec fn atom_of_token(t: TokenV, a: Atom) -> bool {
    match a {
        Atom::Id(s) => t == TokenV::Id(s@),
        Atom::String(s) => t == TokenV::String(s@),
        Atom::Integer(v) => t == TokenV::Number(NumberV::Integer(v)),
        Atom::Float(f) => t == TokenV::Number(NumberV::Float(f.digits@)),
        _ => false,
    }
}

/// Reads an atom from a single token, when `want` admits its kind.
pub fn atom_token(ts: &[Node<Token>], i: usize, want: u8) -> (r: PResult<Node<Atom>>)
    requires
        i <= ts@.len(),
    ensures
        r is Ok <==> (i < ts@.len() && token_admitted(tok_at(ts@, i as int), want)),
        r matches Ok((j, a)) ==> j == i + 1 && a.span == ts@[i as int].span && atom_of_token(
            tok_at(ts@, i as int),
            *a.data,
        ),
        r is Err ==> r->Err_0 is Error && err_ok(r->Err_0, ts@, i as int),
{
    let (j, x) = token(ts, i)?;
    let a = match &*x.data {
        Token::Id(y) => if want == 0 || want == 1 {
            Some(Atom::Id(y.clone()))
        } else {
            None
        },
        Token::String(y) => if want == 0 || want == 2 || want == 3 {
            Some(Atom::String(y.clone()))
        } else {
            None
        },
        Token::Number(NumberKind::Integer(y)) => if want == 0 || want == 2 || want == 4 {
            Some(Atom::Integer(*y))
        } else {
            None
        },
        Token::Number(NumberKind::Float(y)) => if want == 0 || want == 2 || want == 4 {
            Some(Atom::Float(y.copy()))
        } else {
            None
        },
        _ => None,
    };
    match a {
        Some(a) => Ok((j, Node::new(x.span, a))),
        None => Err(err(Some(x.span), ErrorKind::Predicate)),
    }
}

/// An atom: a name, a literal or an enclosure.
pub fn atom(ts: &[Node<Token>], i: usize) -> (r: PResult<Node<Atom>>)
    requires
        i <= ts@.len(),
    ensures
        nested_list(ts@, i as int) ==> (r matches Ok((j, a)) && j == list_end(ts@, i as int) && list_tree(ts@, i as int, a)),
        no_atom_at(ts@, i as int) ==> r matches Err(PErr::Error(_)),
        res_ok(r, ts@, i as int),
        r matches Ok((j, _)) ==> i < j,
        r matches Ok((j, a)) ==> atom_rel(ts@, i as int, j as int, a.span, *a.data),
        r matches Ok((j, a)) ==> atom_content(ts@, i as int, j as int, *a.data),
        r matches Ok((j, a)) ==> comp_content(ts@, i as int, j as int, *a.data),
        i < ts@.len() && token_admitted(tok_at(ts@, i as int), 0) ==> (r matches Ok((j, a)) && j == i
            + 1 && a.span == ts@[i as int].span && atom_of_token(tok_at(ts@, i as int), *a.data)),
    decreases ts@.len() - i, 9int,
{
    match atom_token(ts, i, 0) {
        Ok(x) => Ok(x),
        Err(PErr::Error(_)) => match enclosure(ts, i) {
            Ok(x) => Ok(x),
            Err(PErr::Error(last)) => Err(
                PErr::Error(
                    append(get0(ts, i), NomKind::Alt, last),
                ),
            ),
            Err(e) => Err(e),
        },
        Err(e) => Err(e),
    }
}

/// A name.
pub fn id(ts: &[Node<Token>], i: usize) -> (r: PResult<Node<Atom>>)
    requires
        i <= ts@.len(),
    ensures
        r is Ok <==> (i < ts@.len() && token_admitted(tok_at(ts@, i as int), 1u8)),
        r matches Ok((j, a)) ==> j == i + 1 && a.span == ts@[i as int].span && atom_of_token(
            tok_at(ts@, i as int),
            *a.data,
        ),
        r is Err ==> r->Err_0 is Error && err_ok(r->Err_0, ts@, i as int),
{
    atom_token(ts, i, 1)
}

/// A string or numeric literal.
pub fn literal(ts: &[Node<Token>], i: usize) -> (r: PResult<Node<Atom>>)
    requires
        i <= ts@.len(),
    ensures
        r is Ok <==> (i < ts@.len() && token_admitted(tok_at(ts@, i as int), 2u8)),
        r matches Ok((j, a)) ==> j == i + 1 && a.span == ts@[i as int].span && atom_of_token(
            tok_at(ts@, i as int),
            *a.data,
        ),
        r is Err ==> r->Err_0 is Error && err_ok(r->Err_0, ts@, i as int),
{
    atom_token(ts, i, 2)
}

/// A string literal.
pub fn string_literal(ts: &[Node<Token>], i: usize) -> (r: PResult<Node<Atom>>)
    requires
        i <= ts@.len(),
    ensures
        r is Ok <==> (i < ts@.len() && token_admitted(tok_at(ts@, i as int), 3u8)),
        r matches Ok((j, a)) ==> j == i + 1 && a.span == ts@[i as int].span && atom_of_token(
            tok_at(ts@, i as int),
            *a.data,
        ),
        r is Err ==> r->Err_0 is Error && err_ok(r->Err_0, ts@, i as int),
{
    atom_token(ts, i, 3)
}

/// A numeric literal (not an index).
pub fn numeric_literal(ts: &[Node<Token>], i: usize) -> (r: PResult<Node<Atom>>)
    requires
        i <= ts@.len(),
    ensures
        r is Ok <==> (i < ts@.len() && token_admitted(tok_at(ts@, i as int), 4u8)),
        r matches Ok((j, a)) ==> j == i + 1 && a.span == ts@[i as int].span && atom_of_token(
            tok_at(ts@, i as int),
            *a.data,
        ),
        r is Err ==> r->Err_0 is Error && err_ok(r->Err_0, ts@, i as int),
{
    atom_token(ts, i, 4)
}

} // verus!
