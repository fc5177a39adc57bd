use vstd::prelude::*;

use crate::ast::{Expr, TargetDictItem, TargetExpr, TargetListItem};
use crate::lexer::token::Token;
use crate::types::node::{Node, ONode};
use crate::types::span::Span;

verus! {

/// The names of the combinator steps that can fail.
#[derive(Debug, Clone, Copy, PartialEq, Eq, Structural)]
pub enum NomKind {
    /// No alternative matched.
    Alt,
    /// Input was left over after a complete program.
    Eof,
    /// A repetition found not even one item.
    Many1,
}

/// Partial parses handed upwards so that a later token can decide how to
/// read them: an enclosure turned out to hold targets with default values, or a
/// brace turned out to hold a block.
#[derive(Debug)]
pub enum ConvertKind {
    TargetKindExpr(Node<TargetExpr>),
    TargetListItemExpr(Node<TargetListItem<TargetExpr>>),
    TargetDictItemExpr(Node<TargetDictItem<TargetExpr>>),
    ExprBlock(Node<Vec<Node<Expr>>>),
}

/// What went wrong while parsing.
#[derive(Debug)]
pub enum ErrorKind {
    Runtime,
    Eof,
    Lex,
    Nom(NomKind),
    Predicate,
    Grammar,
    /// An error, and the combinator step that passed it on.
    Chain(ONode<Error>, Box<ErrorKind>),
    /// A partial parse that nothing took up.
    Convert(ConvertKind),
}

/// A parse error: an error proper, or a partial parse together with the
/// position at which parsing resumes after it.
#[derive(Debug)]
pub enum Error {
    Error(ErrorKind),
    Convert(usize, ConvertKind),
}

/// A failed parse: `Error` lets an enclosing alternative try something else,
/// `Failure` ends the parse.
#[derive(Debug)]
pub enum PErr {
    Error(ONode<Error>),
    Failure(ONode<Error>),
}

/// The result of a parser: the position after what it read, and its value.
pub type PResult<T> = Result<(usize, T), PErr>;

pub open spec fn perr_node(e: PErr) -> ONode<Error> {
    match e {
        PErr::Error(x) => x,
        PErr::Failure(x) => x,
    }
}

/// No token in `i..j` is an error token.
pub open spec fn clean(ts: Seq<Node<Token>>, i: int, j: int) -> bool {
    forall|k: int| i <= k < j ==> !(#[trigger] (*ts[k].data)@ is ERROR)
}

/// A partial parse in an error resumes within the input, after tokens that
/// are no error tokens.
pub open spec fn err_ok(e: PErr, ts: Seq<Node<Token>>, i: int) -> bool {
    match *perr_node(e).data {
        Error::Convert(k, _) => i <= k <= ts.len() && clean(ts, i, k as int),
        _ => true,
    }
}

/// A parser that started at `i` read forward, stayed within the input and
/// read no error token.
pub open spec fn res_ok<T>(r: PResult<T>, ts: Seq<Node<Token>>, i: int) -> bool {
    match r {
        Ok((j, _)) => i <= j <= ts.len() && clean(ts, i, j as int),
        Err(e) => err_ok(e, ts, i),
    }
}

/// As `res_ok`, and a success read at least one token.
pub open spec fn res_adv<T>(r: PResult<T>, ts: Seq<Node<Token>>, i: int) -> bool {
    match r {
        Ok((j, _)) => i < j <= ts.len() && clean(ts, i, j as int),
        Err(e) => err_ok(e, ts, i),
    }
}

/// The error of a combinator step `kind` that failed at `span`.
pub fn from_error_kind(span: Option<Span>, kind: NomKind) -> (r: ONode<Error>)
    ensures
        r.span == span,
        *r.data == Error::Error(ErrorKind::Nom(kind)),
{
    ONode::new(span, Error::Error(ErrorKind::Nom(kind)))
}

/// The error `other`, passed on by the combinator step `kind` at `span`.
pub fn append(span: Option<Span>, kind: NomKind, other: ONode<Error>) -> (r: ONode<Error>)
    ensures
        r.span == span,
        *r.data == Error::Error(ErrorKind::Chain(other, Box::new(ErrorKind::Nom(kind)))),
{
    ONode::new(span, Error::Error(ErrorKind::Chain(other, Box::new(ErrorKind::Nom(kind)))))
}

/// An error that lets alternatives go on.
pub fn err(span: Option<Span>, kind: ErrorKind) -> (r: PErr)
    ensures
        r is Error,
        *perr_node(r).data == Error::Error(kind),
        perr_node(r).span == span,
{
    PErr::Error(ONode::new(span, Error::Error(kind)))
}

/// An error that ends the parse.
pub fn fail(span: Option<Span>, kind: ErrorKind) -> (r: PErr)
    ensures
        r is Failure,
        *perr_node(r).data == Error::Error(kind),
        perr_node(r).span == span,
{
    PErr::Failure(ONode::new(span, Error::Error(kind)))
}

/// A partial parse that resumes at `k`.
pub fn convert(span: Span, k: usize, c: ConvertKind) -> (r: PErr)
    ensures
        r is Failure,
        *perr_node(r).data == Error::Convert(k, c),
        perr_node(r).span == Some(span),
{
    PErr::Failure(ONode::new(Some(span), Error::Convert(k, c)))
}

/// The kind of a parse error as it is reported: the partial parse of a
/// `Convert` that nothing took up is reported as such.
pub fn error_kind(e: Error) -> (r: ErrorKind)
    ensures
        match e {
            Error::Error(k) => r == k,
            Error::Convert(_, c) => r == ErrorKind::Convert(c),
        },
{
    match e {
        Error::Error(k) => k,
        Error::Convert(_, c) => ErrorKind::Convert(c),
    }
}

} // verus!
