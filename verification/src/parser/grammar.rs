//! The grammar as relations: `x_rel(ts, i, j, s, e)` holds when the tokens
//! `ts[i..j]` read, at level `x`, as the node `e` with the span `s`.  Each
//! operator level takes its own operators and passes everything else to the
//! level below; binary operators group to the right.  The relations reach
//! into nested expressions, each measured by the tokens it covers and then by
//! its level.
use vstd::prelude::*;

use super::atom::{atom_of_token, token_admitted};
use super::tok::{is_tok, tok_at};
use crate::ast::convert::expr_target;
use super::target_grammar::{mt_rel, tgt_rel};
use crate::ast::{
    Atom, Branch, CompIter, DictItem, DictItemComp, Expr, ExprEnclosure, ListItem, Loop, LoopKind,
    MatchArm, Op, OpArith, OpEqs, Match, Primary, Range, Stmt, Target,
};
use crate::lexer::token::{Token, TokenV};
use crate::types::node::Node;
use crate::types::span::{span_union, Span};

verus! {

/// Position `k` ends an expression: the input ends there, or a comma, a
/// colon, a closing bracket or a statement separator stands there.
pub open spec fn ends_at(ts: Seq<Node<Token>>, k: int) -> bool {
    k >= ts.len() || is_tok(ts, k, TokenV::COMMA) || is_tok(ts, k, TokenV::RPAREN) || is_tok(
        ts,
        k,
        TokenV::RBRACKET,
    ) || is_tok(ts, k, TokenV::RBRACE) || is_tok(ts, k, TokenV::DELIM) || is_tok(ts, k, TokenV::COLON)
}

/// The token at `i` is a name, a string or a number, and the expression ends
/// right after it.
pub open spec fn plain_at(ts: Seq<Node<Token>>, i: int) -> bool {
    0 <= i < ts.len() && token_admitted(tok_at(ts, i), 0) && ends_at(ts, i + 1)
}

/// The token at `i` is a name, a string or a number.
pub open spec fn atom_at(ts: Seq<Node<Token>>, i: int) -> bool {
    0 <= i < ts.len() && token_admitted(tok_at(ts, i), 0)
}

/// An adding operator stands at `k`.
pub open spec fn add_tok(ts: Seq<Node<Token>>, k: int) -> bool {
    is_tok(ts, k, TokenV::ADD) || is_tok(ts, k, TokenV::SUB)
}

/// An arithmetic operator other than `**` stands at `k`.
pub open spec fn arith_tok(ts: Seq<Node<Token>>, k: int) -> bool {
    add_tok(ts, k) || is_tok(ts, k, TokenV::MUL) || is_tok(ts, k, TokenV::DIV) || is_tok(ts, k, TokenV::MOD)
}

/// No atom, enclosure or operand starts at `k`: an expression ends there, or an
/// arithmetic or range operator, an arrow or `for` stands there.
pub open spec fn no_atom_at(ts: Seq<Node<Token>>, k: int) -> bool {
    ends_at(ts, k) || arith_tok(ts, k) || range_tok(ts, k) || is_tok(ts, k, TokenV::ARROW) || is_tok(ts, k, TokenV::FOR)
        || eqs_tok(ts, k)
}

/// A comparison operator stands at `k`.
pub open spec fn eqs_tok(ts: Seq<Node<Token>>, k: int) -> bool {
    0 <= k < ts.len() && eqs_of(tok_at(ts, k)) is Some
}

/// Two names, strings or numbers compared by one of `== != < <= > >=`, then
/// the end of the expression.
pub open spec fn compare_pair(ts: Seq<Node<Token>>, i: int) -> bool {
    atom_at(ts, i) && eqs_tok(ts, i + 1) && atom_at(ts, i + 2) && ends_at(ts, i + 3)
}

/// `x` is the comparison at `i`: the two atoms and the operator between.
pub open spec fn compare_expr(ts: Seq<Node<Token>>, i: int, x: Node<Expr>) -> bool {
    0 <= i && i + 2 < ts.len() && x.span == span_union(ts[i].span, ts[i + 2].span) && (*x.data matches Expr::Op(
        Op::Compare(l, op, r),
    ) && plain_expr(ts, i, l) && eqs_at(ts, i + 1, op) && plain_expr(ts, i + 2, r))
}

/// A name at `i` and an opening brace right after it, as the condition of an
/// `if`, `while` or `match` before its block.
pub open spec fn id_brace(ts: Seq<Node<Token>>, i: int) -> bool {
    0 <= i < ts.len() && tok_at(ts, i) is Id && is_tok(ts, i + 1, TokenV::LBRACE)
}

/// An atom at `i` that ends an expression: the end of the expression, an
/// arrow or `for` follows it, or it is a name before an opening brace.
pub open spec fn atom_end(ts: Seq<Node<Token>>, i: int) -> bool {
    (atom_at(ts, i) && (ends_at(ts, i + 1) || is_tok(ts, i + 1, TokenV::ARROW) || is_tok(ts, i + 1, TokenV::FOR)))
        || id_brace(ts, i)
}

/// An atom at `i` that is a whole expression: `plain_at`, a name before an
/// opening brace, or an atom before `for`.
pub open spec fn expr_end(ts: Seq<Node<Token>>, i: int) -> bool {
    plain_at(ts, i) || id_brace(ts, i) || (atom_at(ts, i) && is_tok(ts, i + 1, TokenV::FOR))
}

/// One of the six range forms `a..b`, `a..=b`, `a..`, `..b`, `..=b`, `..`
/// starts at `i`, its operands atoms, and the expression ends after it.
pub open spec fn range_form(ts: Seq<Node<Token>>, i: int) -> bool {
    ||| atom_at(ts, i) && range_tok(ts, i + 1) && (plain_at(ts, i + 2) || ends_at(ts, i + 2))
    ||| range_tok(ts, i) && (plain_at(ts, i + 1) || ends_at(ts, i + 1))
}

/// The number of tokens of a `range_form` at `i`.
pub open spec fn range_len(ts: Seq<Node<Token>>, i: int) -> int {
    if atom_at(ts, i) {
        if plain_at(ts, i + 2) {
            3
        } else {
            2
        }
    } else if plain_at(ts, i + 1) {
        2
    } else {
        1
    }
}

/// `x` is the range that a `range_form` at `i` reads as: `..` gives an
/// exclusive range and `..=` an inclusive one when both ends are there or
/// only the end; with no end (`a..` or `a..=`) it is a range from `a`; alone
/// it is the full range.
pub open spec fn range_tree(ts: Seq<Node<Token>>, i: int, x: Node<Expr>) -> bool {
    if atom_at(ts, i) {
        if plain_at(ts, i + 2) {
            &&& x.span == span_union(ts[i].span, ts[i + 2].span)
            &&& if is_tok(ts, i + 1, TokenV::RANGE) {
                *x.data matches Expr::Op(Op::Range(Range::Range { start, end })) && plain_expr(ts, i, start)
                    && plain_expr(ts, i + 2, end)
            } else {
                *x.data matches Expr::Op(Op::Range(Range::RangeI { start, end })) && plain_expr(ts, i, start)
                    && plain_expr(ts, i + 2, end)
            }
        } else {
            &&& x.span == span_union(ts[i].span, ts[i + 1].span)
            &&& *x.data matches Expr::Op(Op::Range(Range::RangeFrom { start }))
            &&& plain_expr(ts, i, start)
        }
    } else if plain_at(ts, i + 1) {
        &&& x.span == span_union(ts[i].span, ts[i + 1].span)
        &&& if is_tok(ts, i, TokenV::RANGE) {
            *x.data matches Expr::Op(Op::Range(Range::RangeTo { end })) && plain_expr(ts, i + 1, end)
        } else {
            *x.data matches Expr::Op(Op::Range(Range::RangeToI { end })) && plain_expr(ts, i + 1, end)
        }
    } else {
        &&& 0 <= i < ts.len()
        &&& x.span == ts[i].span
        &&& *x.data matches Expr::Op(Op::Range(Range::RangeFull))
    }
}

/// An atom at `i`, then an arithmetic operator or the end of the expression.
pub open spec fn atom_stop(ts: Seq<Node<Token>>, i: int) -> bool {
    (atom_at(ts, i) && no_atom_at(ts, i + 1)) || id_brace(ts, i)
}

/// An atom at `i`, then an adding, range or comparison operator, an arrow
/// or the end of the expression.
pub open spec fn atom_then_add(ts: Seq<Node<Token>>, i: int) -> bool {
    (atom_at(ts, i) && (ends_at(ts, i + 1) || add_tok(ts, i + 1) || range_tok(ts, i + 1) || eqs_tok(ts, i + 1) || is_tok(
        ts,
        i + 1,
        TokenV::ARROW,
    ) || is_tok(ts, i + 1, TokenV::FOR))) || id_brace(ts, i)
}

/// Two atoms joined by an arithmetic operator other than `**`, then the end of
/// the expression, as in `1 + 2` or `a * b`.
pub open spec fn arith_pair(ts: Seq<Node<Token>>, i: int) -> bool {
    atom_at(ts, i) && arith_tok(ts, i + 1) && plain_at(ts, i + 2)
}

/// `x` is the operation that an `arith_pair` at `i` reads as.
pub open spec fn pair_expr(ts: Seq<Node<Token>>, i: int, x: Node<Expr>) -> bool {
    0 <= i && i + 2 < ts.len() && x.span == span_union(ts[i].span, ts[i + 2].span) && (*x.data matches Expr::Op(
        Op::Arith(l, op, r),
    ) && plain_expr(ts, i, l) && arith_at(ts, i + 1, op) && plain_expr(ts, i + 2, r))
}

/// Two atoms separated by one statement separator, then no separator.
pub open spec fn two_plain(ts: Seq<Node<Token>>, i: int) -> bool {
    plain_at(ts, i) && is_tok(ts, i + 1, TokenV::DELIM) && plain_at(ts, i + 2) && !is_tok(ts, i + 3, TokenV::DELIM)
}

/// `{ a }`: a brace, an atom, a closing brace.
pub open spec fn one_block(ts: Seq<Node<Token>>, i: int) -> bool {
    is_tok(ts, i, TokenV::LBRACE) && plain_at(ts, i + 1) && is_tok(ts, i + 2, TokenV::RBRACE)
}

/// The block `b` holds the atom at `k` alone.
pub open spec fn one_expr(ts: Seq<Node<Token>>, k: int, b: Node<ExprEnclosure>) -> bool {
    b.data.0@.len() == 1 && plain_expr(ts, k, b.data.0@[0])
}

/// The number of items of a `plain_block` from `i`.
pub open spec fn plain_count(ts: Seq<Node<Token>>, i: int) -> int {
    (ts.len() - i + 1) / 2
}

/// The tokens from `i` on are names, strings or numbers with a statement
/// separator between each two.
pub open spec fn plain_block(ts: Seq<Node<Token>>, i: int) -> bool {
    let n = plain_count(ts, i);
    &&& 0 <= i
    &&& n >= 1
    &&& ts.len() == i + 2 * n - 1
    &&& forall|q: int| 0 <= q < n ==> token_admitted(#[trigger] tok_at(ts, i + 2 * q), 0)
    &&& forall|q: int| 0 <= q < n - 1 ==> is_tok(ts, #[trigger] (i + 2 * q + 1), TokenV::DELIM)
}

/// `x` is the atom that the token at `i` reads as, in its place.
pub open spec fn plain_expr(ts: Seq<Node<Token>>, i: int, x: Node<Expr>) -> bool {
    0 <= i < ts.len() && x.span == ts[i].span && (*x.data matches Expr::Primary(Primary::Atom(a))
        && atom_of_token(tok_at(ts, i), a))
}


/// The arithmetic operator that a token stands for.
pub open spec fn arith_of(t: TokenV) -> Option<OpArith> {
    match t {
        TokenV::ADD => Some(OpArith::ADD),
        TokenV::SUB => Some(OpArith::SUB),
        TokenV::MUL => Some(OpArith::MUL),
        TokenV::DIV => Some(OpArith::DIV),
        TokenV::MOD => Some(OpArith::MOD),
        TokenV::POW => Some(OpArith::POW),
        _ => None,
    }
}

/// The comparison operator that a token stands for.
pub open spec fn eqs_of(t: TokenV) -> Option<OpEqs> {
    match t {
        TokenV::EQ => Some(OpEqs::EQ),
        TokenV::NE => Some(OpEqs::NE),
        TokenV::LT => Some(OpEqs::LT),
        TokenV::LE => Some(OpEqs::LE),
        TokenV::GT => Some(OpEqs::GT),
        TokenV::GE => Some(OpEqs::GE),
        _ => None,
    }
}

/// The operator node `op` is the token at `k`.
pub open spec fn arith_at(ts: Seq<Node<Token>>, k: int, op: Node<OpArith>) -> bool {
    0 <= k < ts.len() && op.span == ts[k].span && arith_of(tok_at(ts, k)) == Some(*op.data)
}

/// The comparison node `op` is the token at `k`.
pub open spec fn eqs_at(ts: Seq<Node<Token>>, k: int, op: Node<OpEqs>) -> bool {
    0 <= k < ts.len() && op.span == ts[k].span && eqs_of(tok_at(ts, k)) == Some(*op.data)
}

/// The atom node `a` is the numeric literal at `k`.
pub open spec fn number_at(ts: Seq<Node<Token>>, k: int, a: Node<Atom>) -> bool {
    0 <= k < ts.len() && token_admitted(tok_at(ts, k), 4u8) && a.span == ts[k].span
        && atom_of_token(tok_at(ts, k), *a.data)
}

/// `ts[i..j]` is enclosed by the tokens `open` and `close`, and `s` spans both.
pub open spec fn enclosed(ts: Seq<Node<Token>>, i: int, j: int, s: Span, open: TokenV, close: TokenV) -> bool {
    i < j - 1 && is_tok(ts, i, open) && is_tok(ts, j - 1, close) && s == span_union(
        ts[i].span,
        ts[j - 1].span,
    )
}

/// Atoms: a literal or a name is one token; an enclosure starts with its
/// opening token and, but for a block, ends with the matching closing token.
pub open spec fn atom_rel(ts: Seq<Node<Token>>, i: int, j: int, s: Span, a: Atom) -> bool {
    match a {
        Atom::Id(_) | Atom::String(_) | Atom::Integer(_) | Atom::Float(_) => j == i + 1 && 0 <= i
            < ts.len() && s == ts[i].span && atom_of_token(tok_at(ts, i), a),
        Atom::Paren(_) | Atom::Tuple(_) | Atom::Generator { .. } => enclosed(
            ts,
            i,
            j,
            s,
            TokenV::LPAREN,
            TokenV::RPAREN,
        ),
        Atom::ListDisplay(_) | Atom::ListComprehension { .. } => enclosed(
            ts,
            i,
            j,
            s,
            TokenV::LBRACKET,
            TokenV::RBRACKET,
        ),
        Atom::DictDisplay(_) | Atom::DictComprehension { .. } => enclosed(
            ts,
            i,
            j,
            s,
            TokenV::LBRACE,
            TokenV::RBRACE,
        ),
        Atom::Block(_) => i < j && is_tok(ts, i, TokenV::LBRACE),
    }
}

/// What an enclosure at `ts[i..j]` holds between its brackets, but for the
/// clauses of a comprehension (see `comp_content`).
pub open spec fn atom_content(ts: Seq<Node<Token>>, i: int, j: int, a: Atom) -> bool
    decreases j - i, 270int,
{
    match a {
        Atom::Paren(x) => i + 2 <= j && expr_rel(ts, i + 1, j - 1, x.span, *x.data),
        Atom::Tuple(v) => i + 2 <= j && litems(ts, i + 1, j - 1, v@),
        Atom::ListDisplay(v) => i + 2 <= j && litems(ts, i + 1, j - 1, v@),
        Atom::DictDisplay(v) => i + 2 <= j && ditems(ts, i + 1, j - 1, v@),
        _ => true,
    }
}

/// Primaries: an atom followed by suffixes, each suffix applied to all that
/// precedes it.  A subscription's span is that of its brackets.
pub open spec fn primary_rel(ts: Seq<Node<Token>>, i: int, j: int, s: Span, p: Primary) -> bool
    decreases j - i, 290int,
{
    match p {
        Primary::Atom(a) => atom_rel(ts, i, j, s, a) && atom_content(ts, i, j, a),
        Primary::Attribute(q, id) => i < j - 2 && primary_rel(ts, i, j - 2, q.span, *q.data)
            && is_tok(ts, j - 2, TokenV::DOT) && is_tok(ts, j - 1, TokenV::Id(id.data.0@))
            && id.span == ts[j - 1].span && s == span_union(q.span, id.span),
        Primary::Index(_, _) => false,
        Primary::Subscription(q, vals) => vals@.len() >= 1 && sub_split(ts, i, j, s, q, vals@),
        Primary::Call(q, args) => s == span_union(q.span, args.span) && call_split(
            ts,
            i,
            j,
            q,
            args.span,
            args.data.0@,
        ),
    }
}

/// `q[a, b, ...]` at `ts[i..j]`, `s` spanning the brackets.
pub open spec fn sub_split(ts: Seq<Node<Token>>, i: int, j: int, s: Span, q: Node<Primary>, vals: Seq<Node<Expr>>) -> bool
    decreases j - i, 289int,
{
    exists|k: int|
        #![trigger enclosed(ts, k, j, s, TokenV::LBRACKET, TokenV::RBRACKET)]
        i < k && enclosed(ts, k, j, s, TokenV::LBRACKET, TokenV::RBRACKET) && primary_rel(
            ts,
            i,
            k,
            q.span,
            *q.data,
        ) && eitems_exact(ts, k + 1, j - 1, vals)
}

/// `q(a, b, ...)` at `ts[i..j]`, `es` spanning the parentheses.
pub open spec fn call_split(ts: Seq<Node<Token>>, i: int, j: int, q: Node<Primary>, es: Span, args: Seq<Node<Expr>>) -> bool
    decreases j - i, 288int,
{
    exists|k: int|
        #![trigger enclosed(ts, k, j, es, TokenV::LPAREN, TokenV::RPAREN)]
        i < k && enclosed(ts, k, j, es, TokenV::LPAREN, TokenV::RPAREN) && primary_rel(
            ts,
            i,
            k,
            q.span,
            *q.data,
        ) && args_rel(ts, k + 1, j - 1, args)
}

/// A die `d6`, or a primary.
pub open spec fn die_rel(ts: Seq<Node<Token>>, i: int, j: int, s: Span, e: Expr) -> bool
    decreases j - i, 300int,
{
    match e {
        Expr::Op(Op::Die(a)) => j == i + 2 && is_tok(ts, i, TokenV::DIE) && number_at(ts, i + 1, a)
            && s == span_union(ts[i].span, a.span),
        Expr::Primary(p) => primary_rel(ts, i, j, s, p),
        _ => false,
    }
}

/// A numeric literal in front of a die or primary, or a die or primary alone.
pub open spec fn coef_rel(ts: Seq<Node<Token>>, i: int, j: int, s: Span, e: Expr) -> bool
    decreases j - i, 310int,
{
    match e {
        Expr::Op(Op::Coefficient(a, d)) => i < j && number_at(ts, i, a) && die_rel(
            ts,
            i + 1,
            j,
            d.span,
            *d.data,
        ) && s == span_union(a.span, d.span),
        _ => die_rel(ts, i, j, s, e),
    }
}

/// A sign `+` or `-` in front of a coefficient.
pub open spec fn u_rel(ts: Seq<Node<Token>>, i: int, j: int, s: Span, e: Expr) -> bool
    decreases j - i, 320int,
{
    match e {
        Expr::Op(Op::Unary(op, x)) => i < j && arith_at(ts, i, op) && (*op.data == OpArith::ADD
            || *op.data == OpArith::SUB) && coef_rel(ts, i + 1, j, x.span, *x.data) && s == span_union(
            op.span,
            x.span,
        ),
        _ => coef_rel(ts, i, j, s, e),
    }
}

/// `l op r` at `ts[i..j]` for powers: `l` a signed coefficient, `r` a power.
pub open spec fn p_split(ts: Seq<Node<Token>>, i: int, j: int, l: Node<Expr>, op: Node<OpArith>, r: Node<Expr>) -> bool
    decreases j - i, 329int,
{
    exists|k: int|
        #![trigger arith_at(ts, k, op)]
        i <= k < j && u_rel(ts, i, k, l.span, *l.data) && arith_at(ts, k, op) && p_rel(
            ts,
            k + 1,
            j,
            r.span,
            *r.data,
        )
}

/// Powers.
pub open spec fn p_rel(ts: Seq<Node<Token>>, i: int, j: int, s: Span, e: Expr) -> bool
    decreases j - i, 330int,
{
    match e {
        Expr::Op(Op::Arith(l, op, r)) => if *op.data == OpArith::POW {
            p_split(ts, i, j, l, op, r) && s == span_union(l.span, r.span)
        } else {
            u_rel(ts, i, j, s, e)
        },
        _ => u_rel(ts, i, j, s, e),
    }
}

/// `l op r` at `ts[i..j]` for products: `l` a power, `r` a product.
pub open spec fn m_split(ts: Seq<Node<Token>>, i: int, j: int, l: Node<Expr>, op: Node<OpArith>, r: Node<Expr>) -> bool
    decreases j - i, 339int,
{
    exists|k: int|
        #![trigger arith_at(ts, k, op)]
        i <= k < j && p_rel(ts, i, k, l.span, *l.data) && arith_at(ts, k, op) && m_rel(
            ts,
            k + 1,
            j,
            r.span,
            *r.data,
        )
}

/// Products, quotients and remainders.
pub open spec fn m_rel(ts: Seq<Node<Token>>, i: int, j: int, s: Span, e: Expr) -> bool
    decreases j - i, 340int,
{
    match e {
        Expr::Op(Op::Arith(l, op, r)) => if *op.data == OpArith::MUL || *op.data == OpArith::DIV
            || *op.data == OpArith::MOD {
            m_split(ts, i, j, l, op, r) && s == span_union(l.span, r.span)
        } else {
            p_rel(ts, i, j, s, e)
        },
        _ => p_rel(ts, i, j, s, e),
    }
}

/// `l op r` at `ts[i..j]` for sums: `l` a product, `r` a sum.
pub open spec fn a_split(ts: Seq<Node<Token>>, i: int, j: int, l: Node<Expr>, op: Node<OpArith>, r: Node<Expr>) -> bool
    decreases j - i, 349int,
{
    exists|k: int|
        #![trigger arith_at(ts, k, op)]
        i <= k < j && m_rel(ts, i, k, l.span, *l.data) && arith_at(ts, k, op) && a_rel(
            ts,
            k + 1,
            j,
            r.span,
            *r.data,
        )
}

/// Sums and differences.
pub open spec fn a_rel(ts: Seq<Node<Token>>, i: int, j: int, s: Span, e: Expr) -> bool
    decreases j - i, 350int,
{
    match e {
        Expr::Op(Op::Arith(l, op, r)) => if *op.data == OpArith::ADD || *op.data == OpArith::SUB {
            a_split(ts, i, j, l, op, r) && s == span_union(l.span, r.span)
        } else {
            m_rel(ts, i, j, s, e)
        },
        _ => m_rel(ts, i, j, s, e),
    }
}

/// Whether the token at `k` is `..` or `..=`.
pub open spec fn range_tok(ts: Seq<Node<Token>>, k: int) -> bool {
    is_tok(ts, k, TokenV::RANGE) || is_tok(ts, k, TokenV::RANGEI)
}

/// `start t end` at `ts[i..j]`, both ends sums.
pub open spec fn range_split(ts: Seq<Node<Token>>, i: int, j: int, start: Node<Expr>, t: TokenV, end: Node<Expr>) -> bool
    decreases j - i, 359int,
{
    exists|k: int|
        #![trigger is_tok(ts, k, t)]
        i <= k < j && a_rel(ts, i, k, start.span, *start.data) && is_tok(ts, k, t) && a_rel(
            ts,
            k + 1,
            j,
            end.span,
            *end.data,
        )
}

/// Ranges.  `a..` and `a..=` both read as `RangeFrom`, `..` and `..=` alone
/// both as `RangeFull`.
pub open spec fn r_rel(ts: Seq<Node<Token>>, i: int, j: int, s: Span, e: Expr) -> bool
    decreases j - i, 360int,
{
    match e {
        Expr::Op(Op::Range(rg)) => match rg {
            Range::Range { start, end } => range_split(ts, i, j, start, TokenV::RANGE, end) && s
                == span_union(start.span, end.span),
            Range::RangeI { start, end } => range_split(ts, i, j, start, TokenV::RANGEI, end) && s
                == span_union(start.span, end.span),
            Range::RangeFrom { start } => i < j && a_rel(ts, i, j - 1, start.span, *start.data)
                && range_tok(ts, j - 1) && s == span_union(start.span, ts[j - 1].span),
            Range::RangeTo { end } => i < j && is_tok(ts, i, TokenV::RANGE) && a_rel(
                ts,
                i + 1,
                j,
                end.span,
                *end.data,
            ) && s == span_union(ts[i].span, end.span),
            Range::RangeToI { end } => i < j && is_tok(ts, i, TokenV::RANGEI) && a_rel(
                ts,
                i + 1,
                j,
                end.span,
                *end.data,
            ) && s == span_union(ts[i].span, end.span),
            Range::RangeFull => j == i + 1 && range_tok(ts, i) && s == ts[i].span,
        },
        _ => a_rel(ts, i, j, s, e),
    }
}

/// `l op r` at `ts[i..j]`, both sides ranges.
pub open spec fn cmp_split(ts: Seq<Node<Token>>, i: int, j: int, l: Node<Expr>, op: Node<OpEqs>, r: Node<Expr>) -> bool
    decreases j - i, 368int,
{
    exists|k: int|
        #![trigger eqs_at(ts, k, op)]
        i <= k < j && r_rel(ts, i, k, l.span, *l.data) && eqs_at(ts, k, op) && r_rel(
            ts,
            k + 1,
            j,
            r.span,
            *r.data,
        )
}

/// `l l_op val r_op r` at `ts[i..j]`, all three ranges.
pub open spec fn cmp_bound(
    ts: Seq<Node<Token>>,
    i: int,
    j: int,
    l: Node<Expr>,
    l_op: Node<OpEqs>,
    val: Node<Expr>,
    r_op: Node<OpEqs>,
    r: Node<Expr>,
) -> bool
    decreases j - i, 369int,
{
    exists|k: int|
        #![trigger eqs_at(ts, k, l_op)]
        i <= k < j && r_rel(ts, i, k, l.span, *l.data) && eqs_at(ts, k, l_op) && cmp_split(
            ts,
            k + 1,
            j,
            val,
            r_op,
            r,
        )
}

/// Comparisons, and bounded comparisons `a < b < c`.
pub open spec fn c_rel(ts: Seq<Node<Token>>, i: int, j: int, s: Span, e: Expr) -> bool
    decreases j - i, 370int,
{
    match e {
        Expr::Op(Op::CompareBound { l_val, l_op, val, r_op, r_val }) => cmp_bound(
            ts,
            i,
            j,
            l_val,
            l_op,
            val,
            r_op,
            r_val,
        ) && s == span_union(l_val.span, r_val.span),
        Expr::Op(Op::Compare(l, op, r)) => cmp_split(ts, i, j, l, op, r) && s == span_union(
            l.span,
            r.span,
        ),
        _ => r_rel(ts, i, j, s, e),
    }
}

/// `not` in front of a comparison.
pub open spec fn not_rel(ts: Seq<Node<Token>>, i: int, j: int, s: Span, e: Expr) -> bool
    decreases j - i, 380int,
{
    match e {
        Expr::Op(Op::Not(x)) => i < j && is_tok(ts, i, TokenV::NOT) && c_rel(
            ts,
            i + 1,
            j,
            x.span,
            *x.data,
        ) && s == span_union(ts[i].span, x.span),
        _ => c_rel(ts, i, j, s, e),
    }
}

/// `l and r` at `ts[i..j]`: `l` a negation, `r` a conjunction.
pub open spec fn and_split(ts: Seq<Node<Token>>, i: int, j: int, l: Node<Expr>, r: Node<Expr>) -> bool
    decreases j - i, 389int,
{
    exists|k: int|
        #![trigger is_tok(ts, k, TokenV::AND)]
        i <= k < j && not_rel(ts, i, k, l.span, *l.data) && is_tok(ts, k, TokenV::AND) && and_rel(
            ts,
            k + 1,
            j,
            r.span,
            *r.data,
        )
}

/// Conjunctions.
pub open spec fn and_rel(ts: Seq<Node<Token>>, i: int, j: int, s: Span, e: Expr) -> bool
    decreases j - i, 390int,
{
    match e {
        Expr::Op(Op::And(l, r)) => and_split(ts, i, j, l, r) && s == span_union(l.span, r.span),
        _ => not_rel(ts, i, j, s, e),
    }
}

/// `l or r` at `ts[i..j]`: `l` a conjunction, `r` a disjunction.
pub open spec fn or_split(ts: Seq<Node<Token>>, i: int, j: int, l: Node<Expr>, r: Node<Expr>) -> bool
    decreases j - i, 399int,
{
    exists|k: int|
        #![trigger is_tok(ts, k, TokenV::OR)]
        i <= k < j && and_rel(ts, i, k, l.span, *l.data) && is_tok(ts, k, TokenV::OR) && or_rel(
            ts,
            k + 1,
            j,
            r.span,
            *r.data,
        )
}

/// Disjunctions: the operator expressions.
pub open spec fn or_rel(ts: Seq<Node<Token>>, i: int, j: int, s: Span, e: Expr) -> bool
    decreases j - i, 400int,
{
    match e {
        Expr::Op(Op::Or(l, r)) => or_split(ts, i, j, l, r) && s == span_union(l.span, r.span),
        _ => and_rel(ts, i, j, s, e),
    }
}

/// `=> { ... }` ending at `ts[j]`: the arrow and the braced body of a
/// function whose parameters start at `ts[i]`.
pub open spec fn fn_split(ts: Seq<Node<Token>>, i: int, j: int, block: Node<ExprEnclosure>) -> bool
    decreases j - i, 440int,
{
    exists|k: int|
        #![trigger enclosed(ts, k + 1, j, block.span, TokenV::LBRACE, TokenV::RBRACE)]
        i <= k && is_tok(ts, k, TokenV::ARROW) && enclosed(
            ts,
            k + 1,
            j,
            block.span,
            TokenV::LBRACE,
            TokenV::RBRACE,
        ) && enclosure_rel(ts, k + 1, j, block)
}

/// Expressions: an operator expression, a conditional, a loop or a function.
pub open spec fn expr_rel(ts: Seq<Node<Token>>, i: int, j: int, s: Span, e: Expr) -> bool
    decreases j - i, 500int,
{
    match e {
        Expr::Op(_) | Expr::Primary(_) => or_rel(ts, i, j, s, e),
        Expr::Branch(Branch::If { val, t_block, f_block }) => if_rel(
            ts,
            i,
            j,
            s,
            val,
            t_block,
            f_block,
        ),
        Expr::Branch(Branch::Match { val, arms }) => match_rel(ts, i, j, s, val, arms@),
        Expr::Loop(l) => loop_rel(ts, i, j, s, l),
        Expr::Function { args, block } => fn_split(ts, i, j, block) && s == span_union(
            args.span,
            block.span,
        ),
        _ => false,
    }
}

/// An item of a tuple or list: an expression, or `...` and an expression.
pub open spec fn list_item_rel(ts: Seq<Node<Token>>, i: int, j: int, s: Span, li: ListItem) -> bool
    decreases j - i, 700int,
{
    match li {
        ListItem::Expr(e) => expr_rel(ts, i, j, s, e),
        ListItem::Spread(v) => i < j && is_tok(ts, i, TokenV::SPREAD) && expr_rel(
            ts,
            i + 1,
            j,
            v.span,
            *v.data,
        ) && s == span_union(ts[i].span, v.span),
    }
}

/// `[key}: val` at `ts[i..j]`.
pub open spec fn dyn_key_split(ts: Seq<Node<Token>>, i: int, j: int, key: Node<Expr>, val: Node<Expr>) -> bool
    decreases j - i, 690int,
{
    exists|k: int|
        #![trigger is_tok(ts, k, TokenV::RBRACE)]
        i < k && k + 2 <= j && expr_rel(ts, i + 1, k, key.span, *key.data) && is_tok(
            ts,
            k,
            TokenV::RBRACE,
        ) && is_tok(ts, k + 1, TokenV::COLON) && expr_rel(ts, k + 2, j, val.span, *val.data)
}

/// An item of a dictionary display: `[key}: val`, `...val`, `name: val` or
/// `name`.
pub open spec fn dict_item_rel(ts: Seq<Node<Token>>, i: int, j: int, s: Span, d: DictItem) -> bool
    decreases j - i, 700int,
{
    match d {
        DictItem::DynKeyVal { key, val } => is_tok(ts, i, TokenV::LBRACKET) && dyn_key_split(
            ts,
            i,
            j,
            key,
            val,
        ) && s == span_union(ts[i].span, val.span),
        DictItem::Spread(v) => i < j && is_tok(ts, i, TokenV::SPREAD) && expr_rel(
            ts,
            i + 1,
            j,
            v.span,
            *v.data,
        ) && s == span_union(ts[i].span, v.span),
        DictItem::KeyVal { key, val } => i + 2 <= j && is_tok(ts, i, TokenV::Id(key.data.0@))
            && key.span == ts[i].span && is_tok(ts, i + 1, TokenV::COLON) && expr_rel(
            ts,
            i + 2,
            j,
            val.span,
            *val.data,
        ) && s == span_union(key.span, val.span),
        DictItem::Shorthand(id) => j == i + 1 && is_tok(ts, i, TokenV::Id(id.0@)) && s == ts[i].span,
    }
}

/// `ts[a..b]` are separators: line breaks or `;`.
pub open spec fn delims(ts: Seq<Node<Token>>, a: int, b: int) -> bool {
    a <= b && forall|k: int| a <= k < b ==> #[trigger] is_tok(ts, k, TokenV::DELIM)
}

/// `target op val` at `ts[i..j]`: an expression that reads as the target
/// `t`, the token `op` (`=` or `:=`), and an expression.
pub open spec fn assign_split(ts: Seq<Node<Token>>, i: int, j: int, t: Node<Target>, op: TokenV, v: Node<Expr>) -> bool
    decreases j - i, 590int,
{
    exists|k: int, le: Expr|
        #![trigger expr_target(le, *t.data), is_tok(ts, k, op)]
        i <= k < j && expr_rel(ts, i, k, t.span, le) && expr_target(le, *t.data) && is_tok(ts, k, op)
            && expr_rel(ts, k + 1, j, v.span, *v.data)
}

/// Statements: `break`, with an optional label, and a value; an assignment;
/// or an expression.
pub open spec fn stmt_rel(ts: Seq<Node<Token>>, i: int, j: int, s: Span, e: Expr) -> bool
    decreases j - i, 600int,
{
    match e {
        Expr::Assign(t, v) => assign_split(ts, i, j, t, TokenV::ASSIGN, v) && s == span_union(
            t.span,
            v.span,
        ),
        Expr::Stmt(Stmt::Break { id, val }) => i < j && is_tok(ts, i, TokenV::BREAK) && s
            == span_union(ts[i].span, val.span) && match id {
            Some(n) => i + 4 <= j && is_tok(ts, i + 1, TokenV::COLON) && is_tok(
                ts,
                i + 2,
                TokenV::Id(n.data.0@),
            ) && n.span == ts[i + 2].span && is_tok(ts, i + 3, TokenV::COLON) && expr_rel(
                ts,
                i + 4,
                j,
                val.span,
                *val.data,
            ),
            None => expr_rel(ts, i + 1, j, val.span, *val.data),
        },
        _ => expr_rel(ts, i, j, s, e),
    }
}

/// A statement when `st`, an expression otherwise.
pub open spec fn item_rel(ts: Seq<Node<Token>>, i: int, j: int, s: Span, e: Expr, st: bool) -> bool
    decreases j - i, 610int,
{
    if st {
        stmt_rel(ts, i, j, s, e)
    } else {
        expr_rel(ts, i, j, s, e)
    }
}

/// One or more statements (expressions unless `st`) at `ts[a..b]`, separated
/// by separators.
pub open spec fn items_rel(ts: Seq<Node<Token>>, a: int, b: int, v: Seq<Node<Expr>>, st: bool) -> bool
    decreases b - a, 620int,
{
    if v.len() == 0 {
        false
    } else if v.len() == 1 {
        item_rel(ts, a, b, v[0].span, *v[0].data, st)
    } else {
        exists|k: int, m: int|
            #![trigger delims(ts, k, m)]
            a <= k < m <= b && items_rel(ts, a, k, v.subrange(0, v.len() - 1), st) && delims(ts, k, m)
                && item_rel(ts, m, b, v[v.len() - 1].span, *v[v.len() - 1].data, st)
    }
}

/// A block of statements (expressions unless `st`) at `ts[a..b]`, with any
/// number of separators around them; only separators when there is none.
pub open spec fn block_rel(ts: Seq<Node<Token>>, a: int, b: int, v: Seq<Node<Expr>>, st: bool) -> bool
    decreases b - a, 630int,
{
    if v.len() == 0 {
        delims(ts, a, b)
    } else {
        exists|j: int, k: int|
            #![trigger delims(ts, a, j), delims(ts, k, b)]
            a <= j <= k <= b && delims(ts, a, j) && items_rel(ts, j, k, v, st) && delims(ts, k, b)
    }
}

/// A braced block of expressions at `ts[a..b]`.
pub open spec fn enclosure_rel(ts: Seq<Node<Token>>, a: int, b: int, n: Node<ExprEnclosure>) -> bool
    decreases b - a, 640int,
{
    enclosed(ts, a, b, n.span, TokenV::LBRACE, TokenV::RBRACE) && block_rel(
        ts,
        a + 1,
        b - 1,
        n.data.0@,
        false,
    )
}

/// The condition of an `if`, `while` or `match`, or the range of a `for`: an
/// expression, or an assignment `target := expr`.
pub open spec fn cond_rel(ts: Seq<Node<Token>>, i: int, j: int, s: Span, e: Expr) -> bool
    decreases j - i, 595int,
{
    match e {
        Expr::Assign(t, v) => assign_split(ts, i, j, t, TokenV::ASSIGNE, v) && s == span_union(
            t.span,
            v.span,
        ),
        _ => expr_rel(ts, i, j, s, e),
    }
}

/// `if cond { ... }`, with `else { ... }` or, without it, an empty block just
/// after the first, at `ts[i..j]`.
pub open spec fn if_rel(
    ts: Seq<Node<Token>>,
    i: int,
    j: int,
    s: Span,
    val: Node<Expr>,
    t_block: Node<ExprEnclosure>,
    f_block: Node<ExprEnclosure>,
) -> bool
    decreases j - i, 480int,
{
    is_tok(ts, i, TokenV::IF) && exists|k: int, l: int|
        #![trigger enclosed(ts, k, l, t_block.span, TokenV::LBRACE, TokenV::RBRACE)]
        i < k && k < l && l <= j && enclosed(ts, k, l, t_block.span, TokenV::LBRACE, TokenV::RBRACE)
            && cond_rel(ts, i + 1, k, val.span, *val.data) && enclosure_rel(ts, k, l, t_block) && ((l
            < j && is_tok(ts, l, TokenV::ELSE) && enclosure_rel(ts, l + 1, j, f_block) && s
            == span_union(ts[i].span, f_block.span)) || (j == l && f_block.data.0@.len() == 0
            && f_block.span == Span { start: t_block.span.end, end: t_block.span.end } && s
            == span_union(ts[i].span, t_block.span)))
}

/// `target in cond { ... }` after the `for` at `ts[i]`, up to `ts[j]`.
pub open spec fn for_split(ts: Seq<Node<Token>>, i: int, j: int, tar: Node<Target>, val: Node<Expr>, block: Node<ExprEnclosure>) -> bool
    decreases j - i, 454int,
{
    exists|k: int, m: int|
        #![trigger tgt_rel(ts, i + 1, k, tar.span, *tar.data), enclosed(ts, m, j, block.span, TokenV::LBRACE, TokenV::RBRACE)]
        i < k < m && tgt_rel(ts, i + 1, k, tar.span, *tar.data) && is_tok(ts, k, TokenV::IN)
            && enclosed(ts, m, j, block.span, TokenV::LBRACE, TokenV::RBRACE) && cond_rel(
            ts,
            k + 1,
            m,
            val.span,
            *val.data,
        ) && enclosure_rel(ts, m, j, block)
}

/// `cond { ... }` after the `while` at `ts[i]`, up to `ts[j]`.
pub open spec fn while_split(ts: Seq<Node<Token>>, i: int, j: int, val: Node<Expr>, block: Node<ExprEnclosure>) -> bool
    decreases j - i, 453int,
{
    exists|m: int|
        #![trigger enclosed(ts, m, j, block.span, TokenV::LBRACE, TokenV::RBRACE)]
        i < m && enclosed(ts, m, j, block.span, TokenV::LBRACE, TokenV::RBRACE) && cond_rel(
            ts,
            i + 1,
            m,
            val.span,
            *val.data,
        ) && enclosure_rel(ts, m, j, block)
}

/// The block of a loop.
pub open spec fn loop_block(l: LoopKind) -> Node<ExprEnclosure> {
    match l {
        LoopKind::For { block, .. } => block,
        LoopKind::While { block, .. } => block,
        LoopKind::Loop { block } => block,
    }
}

/// The kind of a loop at `ts[i..j]`: `for target in cond { ... }`,
/// `while cond { ... }` or `loop { ... }`.
pub open spec fn loop_kind_rel(ts: Seq<Node<Token>>, i: int, j: int, l: LoopKind) -> bool
    decreases j - i, 455int,
{
    match l {
        LoopKind::For { tar, val, block } => is_tok(ts, i, TokenV::FOR) && for_split(
            ts,
            i,
            j,
            tar,
            val,
            block,
        ),
        LoopKind::While { val, block } => is_tok(ts, i, TokenV::WHILE) && while_split(
            ts,
            i,
            j,
            val,
            block,
        ),
        LoopKind::Loop { block } => i < j && is_tok(ts, i, TokenV::LOOP) && enclosure_rel(
            ts,
            i + 1,
            j,
            block,
        ),
    }
}

/// A loop at `ts[i..j]`, with an optional label `:name:` in front; it spans
/// its keyword, its block and its label.
pub open spec fn loop_rel(ts: Seq<Node<Token>>, i: int, j: int, s: Span, l: Loop) -> bool
    decreases j - i, 460int,
{
    match l.id {
        Some(n) => i + 3 <= j && is_tok(ts, i, TokenV::COLON) && is_tok(
            ts,
            i + 1,
            TokenV::Id(n.data.0@),
        ) && n.span == ts[i + 1].span && is_tok(ts, i + 2, TokenV::COLON) && loop_kind_rel(
            ts,
            i + 3,
            j,
            l.data,
        ) && s == span_union(span_union(ts[i + 3].span, loop_block(l.data).span), n.span),
        None => loop_kind_rel(ts, i, j, l.data) && s == span_union(ts[i].span, loop_block(l.data).span),
    }
}

/// The body of an arm at `ts[x..y]`: a braced block, or an expression that
/// the block holds and whose span it has.
pub open spec fn arm_body(ts: Seq<Node<Token>>, x: int, y: int, block: Node<ExprEnclosure>) -> bool
    decreases y - x, 648int,
{
    enclosure_rel(ts, x, y, block) || (block.data.0@.len() == 1 && block.span == block.data.0@[0].span
        && expr_rel(ts, x, y, block.span, *block.data.0@[0].data))
}

/// Arms `init` at `ts[a..p]`, then the arm `tar => block` with the span
/// `aspan`, maybe followed by a comma, up to `ts[z]`.
pub open spec fn arms_last(
    ts: Seq<Node<Token>>,
    a: int,
    z: int,
    init: Seq<Node<MatchArm>>,
    tar: Node<Match>,
    block: Node<ExprEnclosure>,
    aspan: Span,
) -> bool
    decreases z - a, 649int,
{
    aspan == span_union(tar.span, block.span) && exists|p: int, b: int|
        #![trigger mt_rel(ts, p, b, tar.span, *tar.data)]
        a <= p <= b && b < z && arms_rel(ts, a, p, init) && mt_rel(ts, p, b, tar.span, *tar.data)
            && is_tok(ts, b, TokenV::ARROW) && (arm_body(ts, b + 1, z, block) || (b + 1 < z && is_tok(
            ts,
            z - 1,
            TokenV::COMMA,
        ) && arm_body(ts, b + 1, z - 1, block)))
}

/// Arms at `ts[a..z]`, each maybe followed by a comma.
pub open spec fn arms_rel(ts: Seq<Node<Token>>, a: int, z: int, v: Seq<Node<MatchArm>>) -> bool
    decreases z - a, 650int,
{
    if v.len() == 0 {
        a == z
    } else {
        arms_last(
            ts,
            a,
            z,
            v.subrange(0, v.len() - 1),
            v[v.len() - 1].data.tar,
            v[v.len() - 1].data.block,
            v[v.len() - 1].span,
        )
    }
}

/// `match cond { arms }` at `ts[i..j]`.
pub open spec fn match_rel(ts: Seq<Node<Token>>, i: int, j: int, s: Span, val: Node<Expr>, arms: Seq<Node<MatchArm>>) -> bool
    decreases j - i, 470int,
{
    is_tok(ts, i, TokenV::MATCH) && is_tok(ts, j - 1, TokenV::RBRACE) && s == span_union(
        ts[i].span,
        ts[j - 1].span,
    ) && exists|k: int|
        #![trigger is_tok(ts, k, TokenV::LBRACE)]
        i < k < j - 1 && cond_rel(ts, i + 1, k, val.span, *val.data) && is_tok(ts, k, TokenV::LBRACE)
            && arms_rel(ts, k + 1, j - 1, arms)
}

/// One or more items of a tuple or list at `ts[a..b]`, separated by commas.
pub open spec fn litems_exact(ts: Seq<Node<Token>>, a: int, b: int, v: Seq<Node<ListItem>>) -> bool
    decreases b - a, 710int,
{
    if v.len() == 0 {
        false
    } else if v.len() == 1 {
        list_item_rel(ts, a, b, v[0].span, *v[0].data)
    } else {
        exists|k: int|
            #![trigger is_tok(ts, k, TokenV::COMMA)]
            a <= k < b && litems_exact(ts, a, k, v.subrange(0, v.len() - 1)) && is_tok(
                ts,
                k,
                TokenV::COMMA,
            ) && list_item_rel(ts, k + 1, b, v[v.len() - 1].span, *v[v.len() - 1].data)
    }
}

/// Items of a tuple or list at `ts[a..b]`: none, or items separated by
/// commas and maybe followed by one.
pub open spec fn litems(ts: Seq<Node<Token>>, a: int, b: int, v: Seq<Node<ListItem>>) -> bool
    decreases b - a, 720int,
{
    if v.len() == 0 {
        a == b
    } else {
        litems_exact(ts, a, b, v) || (a < b && is_tok(ts, b - 1, TokenV::COMMA) && litems_exact(
            ts,
            a,
            b - 1,
            v,
        ))
    }
}

/// One or more items of a dictionary at `ts[a..b]`, separated by commas.
pub open spec fn ditems_exact(ts: Seq<Node<Token>>, a: int, b: int, v: Seq<Node<DictItem>>) -> bool
    decreases b - a, 710int,
{
    if v.len() == 0 {
        false
    } else if v.len() == 1 {
        dict_item_rel(ts, a, b, v[0].span, *v[0].data)
    } else {
        exists|k: int|
            #![trigger is_tok(ts, k, TokenV::COMMA)]
            a <= k < b && ditems_exact(ts, a, k, v.subrange(0, v.len() - 1)) && is_tok(
                ts,
                k,
                TokenV::COMMA,
            ) && dict_item_rel(ts, k + 1, b, v[v.len() - 1].span, *v[v.len() - 1].data)
    }
}

/// Items of a dictionary at `ts[a..b]`: none, or items separated by commas
/// and maybe followed by one.
pub open spec fn ditems(ts: Seq<Node<Token>>, a: int, b: int, v: Seq<Node<DictItem>>) -> bool
    decreases b - a, 720int,
{
    if v.len() == 0 {
        a == b
    } else {
        ditems_exact(ts, a, b, v) || (a < b && is_tok(ts, b - 1, TokenV::COMMA) && ditems_exact(
            ts,
            a,
            b - 1,
            v,
        ))
    }
}

/// One or more expressions at `ts[a..b]`, separated by commas.
pub open spec fn eitems_exact(ts: Seq<Node<Token>>, a: int, b: int, v: Seq<Node<Expr>>) -> bool
    decreases b - a, 710int,
{
    if v.len() == 0 {
        false
    } else if v.len() == 1 {
        expr_rel(ts, a, b, v[0].span, *v[0].data)
    } else {
        exists|k: int|
            #![trigger is_tok(ts, k, TokenV::COMMA)]
            a <= k < b && eitems_exact(ts, a, k, v.subrange(0, v.len() - 1)) && is_tok(
                ts,
                k,
                TokenV::COMMA,
            ) && expr_rel(ts, k + 1, b, v[v.len() - 1].span, *v[v.len() - 1].data)
    }
}

/// The arguments of a call at `ts[a..b]`: none, or expressions separated by
/// commas and maybe followed by one.
pub open spec fn args_rel(ts: Seq<Node<Token>>, a: int, b: int, v: Seq<Node<Expr>>) -> bool
    decreases b - a, 720int,
{
    if v.len() == 0 {
        a == b
    } else {
        eitems_exact(ts, a, b, v) || (a < b && is_tok(ts, b - 1, TokenV::COMMA) && eitems_exact(
            ts,
            a,
            b - 1,
            v,
        ))
    }
}

/// The keyword that a clause of a comprehension starts with is at `p`.
pub open spec fn comp_head(ts: Seq<Node<Token>>, p: int, c: Node<CompIter>) -> bool {
    match *c.data {
        CompIter::For { .. } => is_tok(ts, p, TokenV::FOR),
        CompIter::If(_) => is_tok(ts, p, TokenV::IF),
    }
}

/// `target in val` after the `for` at `ts[a]`, up to `ts[b]`.
pub open spec fn comp_for_split(ts: Seq<Node<Token>>, a: int, b: int, target: Node<Target>, val: Node<Expr>) -> bool {
    exists|k: int|
        #![trigger tgt_rel(ts, a + 1, k, target.span, *target.data)]
        a < k < b && tgt_rel(ts, a + 1, k, target.span, *target.data) && is_tok(ts, k, TokenV::IN)
            && or_rel(ts, k + 1, b, val.span, *val.data)
}

/// A clause of a comprehension at `ts[a..b]`: `for target in val` or
/// `if val`.
pub open spec fn comp_rel(ts: Seq<Node<Token>>, a: int, b: int, c: Node<CompIter>) -> bool {
    comp_head(ts, a, c) && match *c.data {
        CompIter::For { target, val } => c.span == span_union(ts[a].span, val.span) && comp_for_split(
            ts,
            a,
            b,
            target,
            val,
        ),
        CompIter::If(val) => a < b && or_rel(ts, a + 1, b, val.span, *val.data) && c.span
            == span_union(ts[a].span, val.span),
    }
}

/// Clauses `init` at `ts[a..p]`, then the clause `c` up to `ts[b]`.
pub open spec fn comps_last(ts: Seq<Node<Token>>, a: int, b: int, init: Seq<Node<CompIter>>, c: Node<CompIter>) -> bool
    decreases b - a, 0int,
{
    exists|p: int|
        #![trigger comp_head(ts, p, c)]
        a <= p < b && comps_rel(ts, a, p, init) && comp_rel(ts, p, b, c)
}

/// Clauses of a comprehension, one after the other, at `ts[a..b]`.
pub open spec fn comps_rel(ts: Seq<Node<Token>>, a: int, b: int, v: Seq<Node<CompIter>>) -> bool
    decreases b - a, 1int,
{
    if v.len() == 0 {
        a == b
    } else {
        comps_last(ts, a, b, v.subrange(0, v.len() - 1), v[v.len() - 1])
    }
}

/// The clauses of a comprehension at `ts[k..b]`, the first a `for`.
pub open spec fn comprehension(ts: Seq<Node<Token>>, k: int, b: int, iter: Seq<Node<CompIter>>) -> bool {
    iter.len() >= 1 && (*iter[0].data is For) && comps_rel(ts, k, b, iter)
}

/// The item of a dictionary comprehension: `[key}: val` or `...val`.
pub open spec fn dict_comp_rel(ts: Seq<Node<Token>>, a: int, b: int, s: Span, d: DictItemComp) -> bool {
    match d {
        DictItemComp::DynKeyVal { key, val } => dict_item_rel(
            ts,
            a,
            b,
            s,
            DictItem::DynKeyVal { key, val },
        ),
        DictItemComp::Spread(v) => dict_item_rel(ts, a, b, s, DictItem::Spread(v)),
    }
}

/// A list item and the clauses of a comprehension at `ts[a..b]`.
pub open spec fn list_comp_split(ts: Seq<Node<Token>>, a: int, b: int, val: Node<ListItem>, iter: Seq<Node<CompIter>>) -> bool {
    exists|k: int|
        #![trigger is_tok(ts, k, TokenV::FOR)]
        a <= k <= b && list_item_rel(ts, a, k, val.span, *val.data) && comprehension(ts, k, b, iter)
}

/// A dictionary item and the clauses of a comprehension at `ts[a..b]`.
pub open spec fn dict_comp_split(ts: Seq<Node<Token>>, a: int, b: int, val: Node<DictItemComp>, iter: Seq<Node<CompIter>>) -> bool {
    exists|k: int|
        #![trigger is_tok(ts, k, TokenV::FOR)]
        a <= k <= b && dict_comp_rel(ts, a, k, val.span, *val.data) && comprehension(ts, k, b, iter)
}

/// What a comprehension at `ts[i..j]` holds between its brackets: its item
/// and its clauses.
pub open spec fn comp_content(ts: Seq<Node<Token>>, i: int, j: int, a: Atom) -> bool {
    match a {
        Atom::Generator { val, iter } => i + 2 <= j && list_comp_split(ts, i + 1, j - 1, val, iter@),
        Atom::ListComprehension { val, iter } => i + 2 <= j && list_comp_split(
            ts,
            i + 1,
            j - 1,
            val,
            iter@,
        ),
        Atom::DictComprehension { val, iter } => i + 2 <= j && dict_comp_split(
            ts,
            i + 1,
            j - 1,
            val,
            iter@,
        ),
        _ => true,
    }
}

/// An expression that is a name is the one token of that name.
pub proof fn lemma_expr_name(ts: Seq<Node<Token>>, i: int, j: int, s: Span, e: Expr)
    requires
        expr_rel(ts, i, j, s, e),
        e matches Expr::Primary(Primary::Atom(Atom::Id(_))),
    ensures
        j == i + 1,
        s == ts[i].span,
        e matches Expr::Primary(Primary::Atom(Atom::Id(x))) && is_tok(ts, i, TokenV::Id(x@)),
{
    reveal_with_fuel(expr_rel, 16);
}

/// The shapes that each operator level reads as: its own operator or one of
/// the levels below.
pub open spec fn die_shape(e: Expr) -> bool {
    e is Primary || e matches Expr::Op(Op::Die(_))
}

pub open spec fn coef_shape(e: Expr) -> bool {
    die_shape(e) || e matches Expr::Op(Op::Coefficient(_, _))
}

pub open spec fn u_shape(e: Expr) -> bool {
    coef_shape(e) || e matches Expr::Op(Op::Unary(_, _))
}

pub open spec fn p_shape(e: Expr) -> bool {
    u_shape(e) || (e matches Expr::Op(Op::Arith(_, op, _)) && *op.data == OpArith::POW)
}

pub open spec fn m_shape(e: Expr) -> bool {
    p_shape(e) || (e matches Expr::Op(Op::Arith(_, op, _)) && (*op.data == OpArith::MUL || *op.data
        == OpArith::DIV || *op.data == OpArith::MOD))
}

pub open spec fn a_shape(e: Expr) -> bool {
    m_shape(e) || (e matches Expr::Op(Op::Arith(_, op, _)) && (*op.data == OpArith::ADD || *op.data
        == OpArith::SUB))
}

pub open spec fn r_shape(e: Expr) -> bool {
    a_shape(e) || e matches Expr::Op(Op::Range(_))
}

pub open spec fn c_shape(e: Expr) -> bool {
    r_shape(e) || e matches Expr::Op(Op::Compare(_, _, _)) || e matches Expr::Op(
        Op::CompareBound { .. },
    )
}

pub open spec fn not_shape(e: Expr) -> bool {
    c_shape(e) || e matches Expr::Op(Op::Not(_))
}

pub open spec fn and_shape(e: Expr) -> bool {
    not_shape(e) || e matches Expr::Op(Op::And(_, _))
}

pub open spec fn or_shape(e: Expr) -> bool {
    and_shape(e) || e matches Expr::Op(Op::Or(_, _))
}

/// What each operator level can read an expression as: its own operator or
/// the shapes of the levels below.
pub proof fn lemma_die_shape(ts: Seq<Node<Token>>, i: int, j: int, s: Span, e: Expr)
    ensures
        die_rel(ts, i, j, s, e) ==> die_shape(e),
{
}

pub proof fn lemma_coef_shape(ts: Seq<Node<Token>>, i: int, j: int, s: Span, e: Expr)
    ensures
        coef_rel(ts, i, j, s, e) ==> coef_shape(e),
{
    lemma_die_shape(ts, i, j, s, e);
}

pub proof fn lemma_u_shape(ts: Seq<Node<Token>>, i: int, j: int, s: Span, e: Expr)
    ensures
        u_rel(ts, i, j, s, e) ==> u_shape(e),
{
    lemma_coef_shape(ts, i, j, s, e);
}

pub proof fn lemma_p_shape(ts: Seq<Node<Token>>, i: int, j: int, s: Span, e: Expr)
    ensures
        p_rel(ts, i, j, s, e) ==> p_shape(e),
{
    lemma_u_shape(ts, i, j, s, e);
}

pub proof fn lemma_m_shape(ts: Seq<Node<Token>>, i: int, j: int, s: Span, e: Expr)
    ensures
        m_rel(ts, i, j, s, e) ==> m_shape(e),
{
    lemma_p_shape(ts, i, j, s, e);
}

pub proof fn lemma_a_shape(ts: Seq<Node<Token>>, i: int, j: int, s: Span, e: Expr)
    ensures
        a_rel(ts, i, j, s, e) ==> a_shape(e),
{
    lemma_m_shape(ts, i, j, s, e);
}

pub proof fn lemma_r_shape(ts: Seq<Node<Token>>, i: int, j: int, s: Span, e: Expr)
    ensures
        r_rel(ts, i, j, s, e) ==> r_shape(e),
{
    lemma_a_shape(ts, i, j, s, e);
}

pub proof fn lemma_c_shape(ts: Seq<Node<Token>>, i: int, j: int, s: Span, e: Expr)
    ensures
        c_rel(ts, i, j, s, e) ==> c_shape(e),
{
    lemma_r_shape(ts, i, j, s, e);
}

pub proof fn lemma_not_shape(ts: Seq<Node<Token>>, i: int, j: int, s: Span, e: Expr)
    ensures
        not_rel(ts, i, j, s, e) ==> not_shape(e),
{
    lemma_c_shape(ts, i, j, s, e);
}

pub proof fn lemma_and_shape(ts: Seq<Node<Token>>, i: int, j: int, s: Span, e: Expr)
    ensures
        and_rel(ts, i, j, s, e) ==> and_shape(e),
{
    lemma_not_shape(ts, i, j, s, e);
}

pub proof fn lemma_or_shape(ts: Seq<Node<Token>>, i: int, j: int, s: Span, e: Expr)
    ensures
        or_rel(ts, i, j, s, e) ==> or_shape(e),
{
    lemma_and_shape(ts, i, j, s, e);
}

} // verus!
