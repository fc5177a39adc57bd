use vstd::prelude::*;

use super::error::{from_error_kind, res_ok, Error, ErrorKind, NomKind, PErr, PResult};
use super::grammar::{arith_pair, block_rel, pair_expr, plain_block, plain_count, plain_expr};
use super::stmt::{simple_block, stmt_block0, stmt_tree};
use super::tok::get0;
use crate::ast::ExprTop;
use crate::lexer::token::Token;
use crate::types::node::{node_spans, Node, ONode};
use crate::types::span::spec_reduce;

verus! {

/// A whole program: statements that use up every token.
pub fn start(ts: &[Node<Token>], i: usize) -> (r: PResult<Node<ExprTop>>)
    requires
        i <= ts@.len(),
    ensures
        r matches Ok((_, top)) ==> (top.data.0@.len() > 0 ==> Some(top.span) == spec_reduce(node_spans(top.data.0@))),
        res_ok(r, ts@, i as int),
        r matches Ok((j, _)) ==> j == ts@.len() && i < ts@.len(),
        r matches Ok((j, top)) ==> block_rel(ts@, i as int, j as int, top.data.0@, true),
        i == ts@.len() ==> (r matches Err(PErr::Failure(e)) && e.span is None && *e.data
            == Error::Error(ErrorKind::Eof)),
        plain_block(ts@, i as int) ==> (r matches Ok((end, top)) && end == ts@.len() && top.data.0@.len()
            == plain_count(ts@, i as int) && forall|q: int|
            0 <= q < plain_count(ts@, i as int) ==> plain_expr(ts@, i + 2 * q, #[trigger] top.data.0@[q])),
        arith_pair(ts@, i as int) && ts@.len() == i + 3 ==> (r matches Ok((end, top)) && end == ts@.len()
            && top.data.0@.len() == 1 && pair_expr(ts@, i as int, top.data.0@[0])),
        forall|ps: Seq<int>|
            #![trigger simple_block(ts@, i as int, ps)]
            simple_block(ts@, i as int, ps) ==> (r matches Ok((end, top)) && end == ts@.len() && top.data.0@.len()
                == ps.len() && forall|q: int| 0 <= q < ps.len() ==> stmt_tree(ts@, ps[q], #[trigger] top.data.0@[q])),
{
    let i_span = match get0(ts, i) {
        Some(x) => x,
        None => {
            return Err(PErr::Failure(ONode::new(None, Error::Error(ErrorKind::Eof))));
        },
    };
    let (j, val) = stmt_block0(ts, i)?;
    if j < ts.len() {
        return Err(PErr::Error(from_error_kind(get0(ts, j), NomKind::Eof)));
    }
    match val {
        Some(val) => {
            let span = val.span;
            Ok((j, Node::new(span, ExprTop(val.data()))))
        },
        None => Err(PErr::Failure(ONode::new(Some(i_span), Error::Error(ErrorKind::Eof)))),
    }
}

} // verus!
