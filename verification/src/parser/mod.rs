pub mod atom;
pub mod call_form;
pub mod enclosure;
pub mod error;
pub mod expr;
pub mod grammar;
pub mod nested;
pub mod op;
pub mod primary;
pub mod start;
pub mod stmt;
pub mod target;
pub mod target_grammar;
pub mod tok;

use vstd::prelude::*;

use crate::ast::ExprTop;
use crate::lexer::lex::{tokenize, tokens_view};
use crate::lexer::token::Token;
use crate::types::node::{Node, ONode};
use crate::lexer::scan::lex_from;
use grammar::{arith_of, arith_pair, block_rel, pair_expr, plain_block, plain_count, plain_expr};
use atom::{atom_of_token, token_admitted};
use crate::ast::{Expr, Op, Primary};
use crate::lexer::token::TokenV;
use crate::types::span::{span_union, spec_reduce, Span};
use crate::types::node::node_spans;
use error::{error_kind, perr_node, Error, ErrorKind, PErr, PResult};
use vstd::string::StringSliceAdditionalSpecFns;
use start::start;
use stmt::{lemma_same_block, simple_block, stmt_end, stmt_ok, stmt_plain, stmt_tree, stmt_width};
use nested::same_tokens;

verus! {

/// The tokens `tv` are names, strings or numbers with a statement separator
/// between each two, as in `a; 2; "b"`.
pub open spec fn plain_program(tv: Seq<(TokenV, Span)>) -> bool {
    let n = (tv.len() + 1) / 2;
    &&& n >= 1
    &&& tv.len() == 2 * n - 1
    &&& forall|q: int| 0 <= q < n ==> token_admitted(#[trigger] tv[2 * q].0, 0)
    &&& forall|q: int| 0 <= q < n - 1 ==> #[trigger] tv[2 * q + 1].0 == TokenV::DELIM
}

/// The tokens `tv` are two names, strings or numbers joined by one of `+ - * / %`,
/// as in `1 + 2`.
pub open spec fn pair_program(tv: Seq<(TokenV, Span)>) -> bool {
    &&& tv.len() == 3
    &&& token_admitted(tv[0].0, 0)
    &&& (tv[1].0 is ADD || tv[1].0 is SUB || tv[1].0 is MUL || tv[1].0 is DIV || tv[1].0 is MOD)
    &&& token_admitted(tv[2].0, 0)
}

/// `x` is the operation that the tokens `tv` of a `pair_program` read as.
pub open spec fn pair_tree(tv: Seq<(TokenV, Span)>, x: Node<Expr>) -> bool {
    &&& x.span == span_union(tv[0].1, tv[2].1)
    &&& *x.data matches Expr::Op(Op::Arith(l, op, r))
    &&& l.span == tv[0].1 && (*l.data matches Expr::Primary(Primary::Atom(a)) && atom_of_token(tv[0].0, a))
    &&& op.span == tv[1].1 && arith_of(tv[1].0) == Some(*op.data)
    &&& r.span == tv[2].1 && (*r.data matches Expr::Primary(Primary::Atom(b)) && atom_of_token(tv[2].0, b))
}

/// An arithmetic operator other than `**` is the token at `k` of `tv`.
pub open spec fn arith_token(tv: Seq<(TokenV, Span)>, k: int) -> bool {
    0 <= k < tv.len() && (tv[k].0 is ADD || tv[k].0 is SUB || tv[k].0 is MUL || tv[k].0 is DIV || tv[k].0 is MOD)
}

/// The number of tokens of the simple statement at `p` of `tv`: three for
/// `a op b`, one for an atom.
pub open spec fn token_width(tv: Seq<(TokenV, Span)>, p: int) -> int {
    if arith_token(tv, p + 1) {
        3
    } else {
        1
    }
}

/// The tokens `tv` are simple statements, each a name, string or number or
/// two of them joined by one of `+ - * / %`, with one statement separator
/// between each two, as in `a; 1 + 2; "b"`: statement `q` starts at `ps[q]`.
pub open spec fn simple_program(tv: Seq<(TokenV, Span)>, ps: Seq<int>) -> bool {
    &&& ps.len() >= 1
    &&& ps[0] == 0
    &&& forall|q: int|
        0 <= q < ps.len() ==> 0 <= #[trigger] ps[q] < tv.len() && token_admitted(tv[ps[q]].0, 0) && (arith_token(
            tv,
            ps[q] + 1,
        ) ==> ps[q] + 2 < tv.len() && token_admitted(tv[ps[q] + 2].0, 0))
    &&& forall|q: int|
        0 <= q < ps.len() - 1 ==> 0 <= #[trigger] ps[q] + token_width(tv, ps[q]) < tv.len() && tv[ps[q] + token_width(
            tv,
            ps[q],
        )].0 == TokenV::DELIM && ps[q + 1] == ps[q] + token_width(tv, ps[q]) + 1
    &&& ps.last() + token_width(tv, ps.last()) == tv.len()
}

/// `x` is the statement at `p` of `tv` read as a tree: the operation on two
/// atoms, or the atom, each part in its place.
pub open spec fn statement_tree(tv: Seq<(TokenV, Span)>, p: int, x: Node<Expr>) -> bool {
    if arith_token(tv, p + 1) {
        &&& x.span == span_union(tv[p].1, tv[p + 2].1)
        &&& *x.data matches Expr::Op(Op::Arith(l, op, r))
        &&& l.span == tv[p].1 && (*l.data matches Expr::Primary(Primary::Atom(a)) && atom_of_token(tv[p].0, a))
        &&& op.span == tv[p + 1].1 && arith_of(tv[p + 1].0) == Some(*op.data)
        &&& r.span == tv[p + 2].1 && (*r.data matches Expr::Primary(Primary::Atom(b)) && atom_of_token(tv[p + 2].0, b))
    } else {
        x.span == tv[p].1 && (*x.data matches Expr::Primary(Primary::Atom(a)) && atom_of_token(tv[p].0, a))
    }
}

/// `out` reports the parse result `r`: its tree, or the kind of its error and
/// where it was found.
pub open spec fn reported(r: PResult<Node<ExprTop>>, out: Result<Node<ExprTop>, ONode<ErrorKind>>) -> bool {
    match r {
        Ok((_, d)) => out == Ok::<Node<ExprTop>, ONode<ErrorKind>>(d),
        Err(e) => out matches Err(x) && x.span == perr_node(e).span && (match *perr_node(e).data {
            Error::Error(k) => *x.data == k,
            Error::Convert(_, c) => *x.data == ErrorKind::Convert(c),
        }),
    }
}

/// The outcome of a whole parse: the tree, or the error's kind and where it
/// was found.
pub fn report(r: PResult<Node<ExprTop>>) -> (out: Result<Node<ExprTop>, ONode<ErrorKind>>)
    ensures
        reported(r, out),
{
    match r {
        Ok((_, data)) => Ok(data),
        Err(PErr::Error(e)) => {
            let span = e.span;
            Err(ONode::new(span, error_kind(e.data())))
        },
        Err(PErr::Failure(e)) => {
            let span = e.span;
            Err(ONode::new(span, error_kind(e.data())))
        },
    }
}

/// Tokenizes `input` and runs `parser` from its first token.
pub fn run_parser<P: Fn(&[Node<Token>], usize) -> PResult<Node<ExprTop>>>(parser: P, input: &str) -> (r:
    Result<Node<ExprTop>, ONode<ErrorKind>>)
    requires
        forall|ts: &[Node<Token>]| #[trigger] call_requires(parser, (ts, 0usize)),
    ensures
        exists|ts: &[Node<Token>], res: PResult<Node<ExprTop>>|
            tokens_view(ts@) == lex_from(input.spec_bytes(), 0) && #[trigger] call_ensures(
                parser,
                (ts, 0usize),
                res,
            ) && reported(res, r),
{
    let toks = tokenize(input);
    let ts = toks.as_slice();
    let res = parser(ts, 0);
    let r = report(res);
    assert(call_ensures(parser, (ts, 0usize), res));
    r
}

/// A program of atoms and `a op b` statements reads as a `simple_block` of
/// its tokens.
proof fn lemma_simple_program_block(ts: Seq<Node<Token>>, tv: Seq<(TokenV, Span)>)
    requires
        tokens_view(ts) == tv,
    ensures
        forall|ps: Seq<int>| simple_program(tv, ps) ==> simple_block(ts, 0, ps),
{
    assert forall|ps: Seq<int>| simple_program(tv, ps) implies simple_block(ts, 0, ps) by {
        assert forall|k: int| 0 <= k < tv.len() implies #[trigger] tv[k] == ((*ts[k].data)@, ts[k].span) by {}
        assert forall|q: int| 0 <= q < ps.len() implies stmt_ok(ts, #[trigger] ps[q]) && stmt_end(ts, ps[q]) == ps[q]
            + token_width(tv, ps[q]) by {
            assert(tv[ps[q]].0 == tok::tok_at(ts, ps[q]));
            assert(!tok::is_tok(ts, ps[q], TokenV::LBRACKET));
            if ps[q] + 1 < tv.len() {
                assert(tv[ps[q] + 1].0 == tok::tok_at(ts, ps[q] + 1));
            }
            if ps[q] + 2 < tv.len() {
                assert(tv[ps[q] + 2].0 == tok::tok_at(ts, ps[q] + 2));
            }
        }
        assert forall|q: int| 0 <= q < ps.len() - 1 implies tok::is_tok(
            ts,
            stmt_end(ts, #[trigger] ps[q]),
            TokenV::DELIM,
        ) && ps[q + 1] == stmt_end(ts, ps[q]) + 1 by {
            assert(stmt_end(ts, ps[q]) == ps[q] + token_width(tv, ps[q]));
            let k = ps[q] + token_width(tv, ps[q]);
            assert(tv[k].0 == tok::tok_at(ts, k));
        }
        assert(stmt_end(ts, ps.last()) == ps.last() + token_width(tv, ps.last()));
    }
}

/// The statements of a program of atoms and `a op b`, read from its tokens,
/// are those read from their kinds and places.
proof fn lemma_statement_trees(ts: Seq<Node<Token>>, tv: Seq<(TokenV, Span)>, ps: Seq<int>, v: Seq<Node<Expr>>)
    requires
        tokens_view(ts) == tv,
        simple_program(tv, ps),
        v.len() == ps.len(),
        forall|q: int| 0 <= q < ps.len() ==> stmt_tree(ts, ps[q], #[trigger] v[q]),
    ensures
        forall|q: int| 0 <= q < ps.len() ==> statement_tree(tv, ps[q], #[trigger] v[q]),
{
    assert forall|q: int| 0 <= q < ps.len() implies statement_tree(tv, ps[q], #[trigger] v[q]) by {
        let p = ps[q];
        assert(stmt_tree(ts, p, v[q]));
        assert(tv[p] == ((*ts[p].data)@, ts[p].span));
        assert(!tok::is_tok(ts, p, TokenV::LBRACKET));
        if p + 1 < tv.len() {
            assert(tv[p + 1] == ((*ts[p + 1].data)@, ts[p + 1].span));
        }
        if p + 2 < tv.len() {
            assert(tv[p + 2] == ((*ts[p + 2].data)@, ts[p + 2].span));
        }
    }
}

/// Parses a program.  A text without tokens is an `Eof` error with no place;
/// a text with a token that is a lexical error never parses.
pub fn parse(input: &str) -> (r: Result<Node<ExprTop>, ONode<ErrorKind>>)
    ensures
        r matches Ok(top) ==> (top.data.0@.len() > 0 ==> Some(top.span) == spec_reduce(node_spans(top.data.0@))),
        pair_program(lex_from(input.spec_bytes(), 0)) ==> (r matches Ok(top) && top.span == span_union(
            lex_from(input.spec_bytes(), 0)[0].1,
            lex_from(input.spec_bytes(), 0)[2].1,
        )),
        lex_from(input.spec_bytes(), 0).len() == 0 ==> (r matches Err(e) && e.span is None
            && *e.data == ErrorKind::Eof),
        r matches Ok(top) ==> exists|ts: Seq<Node<Token>>|
            #![trigger tokens_view(ts)]
            tokens_view(ts) == lex_from(input.spec_bytes(), 0) && block_rel(ts, 0, ts.len() as int, top.data.0@, true),
        r is Ok ==> forall|k: int|
            0 <= k < lex_from(input.spec_bytes(), 0).len() ==> !(#[trigger] lex_from(
                input.spec_bytes(),
                0,
            )[k].0 is ERROR),
        plain_program(lex_from(input.spec_bytes(), 0)) ==> (r matches Ok(top) && top.data.0@.len() == (
        lex_from(input.spec_bytes(), 0).len() + 1) / 2 && forall|q: int|
            0 <= q < top.data.0@.len() ==> (#[trigger] top.data.0@[q]).span == lex_from(
                input.spec_bytes(),
                0,
            )[2 * q].1 && (*top.data.0@[q].data matches Expr::Primary(Primary::Atom(a)) && atom_of_token(
                lex_from(input.spec_bytes(), 0)[2 * q].0,
                a,
            ))),
        pair_program(lex_from(input.spec_bytes(), 0)) ==> (r matches Ok(top) && top.data.0@.len() == 1
            && pair_tree(lex_from(input.spec_bytes(), 0), top.data.0@[0])),
        forall|ts: Seq<Node<Token>>, ps: Seq<int>|
            #![trigger tokens_view(ts), simple_block(ts, 0, ps)]
            tokens_view(ts) == lex_from(input.spec_bytes(), 0) && simple_block(ts, 0, ps) ==> (r matches Ok(top)
                && top.data.0@.len() == ps.len() && forall|q: int| 0 <= q < ps.len() ==> stmt_tree(ts, ps[q], #[trigger] top.data.0@[q])),
        forall|ps: Seq<int>|
            #![trigger simple_program(lex_from(input.spec_bytes(), 0), ps)]
            simple_program(lex_from(input.spec_bytes(), 0), ps) ==> (r matches Ok(top) && top.data.0@.len() == ps.len()
                && forall|q: int| 0 <= q < ps.len() ==> statement_tree(lex_from(input.spec_bytes(), 0), ps[q], #[trigger] top.data.0@[q])),
{
    let ts = tokenize(input);
    let ghost tv = lex_from(input.spec_bytes(), 0);
    proof {
        if pair_program(tv) {
            assert(tokens_view(ts@) == tv);
            assert(tv[0].0 == (*ts@[0].data)@ && tv[1].0 == (*ts@[1].data)@ && tv[2].0 == (*ts@[2].data)@);
            assert(arith_pair(ts@, 0));
        }
    }
    proof {
        if plain_program(tv) {
            let n = (tv.len() + 1) / 2;
            assert(tokens_view(ts@) == tv);
            assert forall|q: int| 0 <= q < n implies token_admitted(#[trigger] tok::tok_at(ts@, 0 + 2 * q), 0) by {
                assert(tv[2 * q].0 == (*ts@[2 * q].data)@);
            }
            assert forall|q: int| 0 <= q < n - 1 implies tok::is_tok(ts@, #[trigger] (0 + 2 * q + 1), TokenV::DELIM) by {
                assert(tv[2 * q + 1].0 == (*ts@[2 * q + 1].data)@);
            }
            assert(plain_block(ts@, 0));
        }
    }
    proof {
        lemma_simple_program_block(ts@, tv);
    }
    let res = start(ts.as_slice(), 0);
    proof {
        assert forall|ts2: Seq<Node<Token>>, ps: Seq<int>| tokens_view(ts2) == tv && simple_block(ts2, 0, ps) implies (
        res matches Ok((_, top)) && top.data.0@.len() == ps.len() && forall|q: int|
            0 <= q < ps.len() ==> stmt_tree(ts2, ps[q], #[trigger] top.data.0@[q])) by {
            assert forall|k: int| 0 <= k < ts2.len() implies #[trigger] tok::tok_at(ts2, k) == tok::tok_at(ts@, k)
                && ts2[k].span == ts@[k].span by {
                assert(tokens_view(ts2)[k] == tokens_view(ts@)[k]);
            }
            assert(same_tokens(ts2, ts@));
            lemma_same_block(ts2, ts@, 0, ps);
        }
    }
    proof {
        assert forall|ps: Seq<int>| simple_program(tv, ps) implies (res matches Ok((_, top)) && top.data.0@.len()
            == ps.len() && forall|q: int| 0 <= q < ps.len() ==> statement_tree(tv, ps[q], #[trigger] top.data.0@[q])) by {
            assert(simple_block(ts@, 0, ps));
            lemma_statement_trees(ts@, tv, ps, (res->Ok_0).1.data.0@);
        }
    }
    proof {
        if pair_program(tv) {
            assert(tv[0].1 == ts@[0].span && tv[1].1 == ts@[1].span && tv[2].1 == ts@[2].span);
            assert(pair_expr(ts@, 0, (res->Ok_0).1.data.0@[0]));
            let sp = node_spans((res->Ok_0).1.data.0@);
            assert(sp.drop_last() =~= Seq::<Span>::empty());
            assert(sp.last() == (res->Ok_0).1.data.0@[0].span);
            assert(spec_reduce(sp.drop_last()) is None);
            assert(spec_reduce(sp) == Some(sp.last()));
            assert((res->Ok_0).1.span == span_union(tv[0].1, tv[2].1));
        }
        if plain_program(tv) {
            assert forall|q: int| 0 <= q < plain_count(ts@, 0) implies plain_expr(ts@, 0 + 2 * q, (res->Ok_0).1.data.0@[q])
                && tv[2 * q].0 == (*ts@[2 * q].data)@ && tv[2 * q].1 == ts@[2 * q].span by {
                assert(plain_expr(ts@, 0 + 2 * q, (res->Ok_0).1.data.0@[q]));
            }
        }
    }
    proof {
        if res is Ok {
            let toks = lex_from(input.spec_bytes(), 0);
            assert forall|k: int| 0 <= k < toks.len() implies !(#[trigger] toks[k].0 is ERROR) by {
                assert(tokens_view(ts@)[k] == ((*ts@[k].data)@, ts@[k].span));
            }
        }
    }
    report(res)
}

} // verus!
