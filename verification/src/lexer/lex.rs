use vstd::prelude::*;
use vstd::string::StringSliceAdditionalSpecFns;

use super::lit::{ascii_string, lit_float, lit_int, lit_str};
use super::scan::{
    at,
    ceil_log10,
    dot_end,
    eq_ci,
    error_end,
    exponent_end,
    finish_float,
    finish_idx,
    finish_int,
    in_class,
    is_alpha,
    is_digit,
    is_skip,
    is_word,
    keyword,
    lemma_exponent_end,
    lemma_next_progress,
    lemma_num_scan,
    lemma_raw_scan,
    lemma_run_end,
    lemma_str_scan,
    lex_from,
    num_scan,
    number_token,
    raw_scan,
    run_end,
    single,
    spec_next,
    str_scan,
    string_token,
    word_token,
};
use super::token::{FloatLit, NumberKind, Token, TokenV};
use crate::types::node::Node;
use crate::types::span::Span;

verus! {

fn at_exec(s: &[u8], i: usize) -> (r: u8)
    ensures
        r == at(s@, i as int),
{
    if i < s.len() {
        s[i]
    } else {
        0
    }
}

fn is_digit_exec(b: u8) -> (r: bool)
    ensures
        r == is_digit(b),
{
    48 <= b && b <= 57
}

fn is_alpha_exec(b: u8) -> (r: bool)
    ensures
        r == is_alpha(b),
{
    (65 <= b && b <= 90) || (97 <= b && b <= 122)
}

fn is_word_exec(b: u8) -> (r: bool)
    ensures
        r == is_word(b),
{
    is_digit_exec(b) || is_alpha_exec(b) || b == 95
}

fn in_class_exec(c: u8, b: u8) -> (r: bool)
    ensures
        r == in_class(c, b),
{
    if c == 0 {
        is_digit_exec(b) || b == 95
    } else if c == 1 {
        is_word_exec(b)
    } else if c == 2 {
        b == 48 || b == 49 || b == 95
    } else if c == 3 {
        (48 <= b && b <= 55) || b == 95
    } else if c == 4 {
        is_digit_exec(b) || (65 <= b && b <= 70) || (97 <= b && b <= 102) || b == 95
    } else if c == 5 {
        b == 95
    } else {
        b == 35
    }
}

fn run_end_exec(s: &[u8], q: usize, c: u8) -> (r: usize)
    requires
        q <= s@.len(),
    ensures
        r == run_end(s@, q as int, c),
        q <= r <= s@.len(),
{
    proof {
        lemma_run_end(s@, q as int, c);
    }
    let mut i = q;
    while i < s.len() && in_class_exec(c, s[i])
        invariant
            q <= i <= s@.len(),
            run_end(s@, i as int, c) == run_end(s@, q as int, c),
        decreases s@.len() - i,
    {
        i = i + 1;
    }
    i
}

fn exponent_end_exec(s: &[u8], q: usize) -> (r: Option<usize>)
    requires
        q < s@.len(),
    ensures
        r matches Some(e) ==> exponent_end(s@, q as int) == Some(e as int),
        r is None ==> exponent_end(s@, q as int) is None,
{
    let c = s[q];
    if c == 101 || c == 69 {
        let n = at_exec(s, q + 1);
        let q1 = if n == 43 || n == 45 {
            q + 2
        } else {
            q + 1
        };
        if q1 > s.len() {
            return None;
        }
        let q2 = run_end_exec(s, q1, 5);
        if is_digit_exec(at_exec(s, q2)) {
            Some(run_end_exec(s, q2 + 1, 0))
        } else {
            None
        }
    } else {
        None
    }
}

fn num_scan_exec(s: &[u8], q0: usize, dot0: bool) -> (r: (usize, bool, bool))
    requires
        q0 <= s@.len(),
    ensures
        (r.0 as int, r.1, r.2) == num_scan(s@, q0 as int, dot0, false),
        q0 <= r.0 <= s@.len(),
{
    proof {
        lemma_num_scan(s@, q0 as int, dot0, false);
    }
    let mut q = q0;
    let mut dot = dot0;
    let mut exp = false;
    loop
        invariant
            q0 <= q <= s@.len(),
            num_scan(s@, q as int, dot, exp) == num_scan(s@, q0 as int, dot0, false),
        decreases s@.len() - q,
    {
        if q < s.len() && s[q] == 46 {
            let n = at_exec(s, q + 1);
            if !(is_alpha_exec(n) || n == 95 || n == 46) {
                if dot {
                    return (q, dot, exp);
                }
                let dend = if is_digit_exec(n) {
                    run_end_exec(s, q + 2, 0)
                } else {
                    q + 1
                };
                q = dend;
                dot = true;
                continue;
            }
        }
        if q < s.len() {
            match exponent_end_exec(s, q) {
                Some(e) => {
                    if exp {
                        return (q, dot, exp);
                    }
                    proof {
                        lemma_exponent_end(s@, q as int);
                    }
                    q = e;
                    dot = false;
                    exp = true;
                    continue;
                },
                None => {},
            }
        }
        return (q, dot, exp);
    }
}

fn finish_int_exec(t: &[u8]) -> (r: Token)
    ensures
        r@ == finish_int(t@),
{
    if t.len() == 0 || !is_digit_exec(t[0]) {
        return Token::ERROR;
    }
    match lit_int(t) {
        Some(Some(i)) => Token::Number(NumberKind::Integer(i)),
        _ => Token::ERROR,
    }
}

fn finish_float_exec(t: &[u8]) -> (r: Token)
    ensures
        r@ == finish_float(t@),
{
    let mut v: Vec<u8> = Vec::new();
    v.push(48u8);
    let mut i: usize = 0;
    while i < t.len()
        invariant
            i <= t@.len(),
            v@ == seq![48u8] + t@.subrange(0, i as int),
        decreases t@.len() - i,
    {
        v.push(t[i]);
        i = i + 1;
    }
    proof {
        assert(t@.subrange(0, t@.len() as int) =~= t@);
    }
    match lit_float(v.as_slice()) {
        Some(d) => Token::Number(NumberKind::Float(FloatLit { digits: d })),
        None => Token::ERROR,
    }
}

fn dot_end_exec(t: &[u8], k: usize) -> (r: usize)
    requires
        k <= t@.len(),
    ensures
        r == dot_end(t@, k as int),
        k <= r <= t@.len(),
{
    let mut i = k;
    while i < t.len() && t[i] != 46
        invariant
            k <= i <= t@.len(),
            dot_end(t@, i as int) == dot_end(t@, k as int),
        decreases t@.len() - i,
    {
        i = i + 1;
    }
    i
}

/// The least `m` with `10^m >= i` (0 for 0 and 1).
pub fn ceil_log10_exec(i: u32) -> (r: usize)
    ensures
        r == ceil_log10(i as nat),
{
    proof {
        lemma_ceil_log10_bound(i as nat);
    }
    let mut v: u64 = i as u64;
    let mut m: usize = 0;
    while v > 1
        invariant
            m + ceil_log10(v as nat) == ceil_log10(i as nat),
            ceil_log10(i as nat) <= i,
            v <= i,
        decreases v,
    {
        proof {
            lemma_ceil_log10_bound(((v + 9) / 10) as nat);
        }
        v = (v + 9) / 10;
        m = m + 1;
    }
    m
}

pub proof fn lemma_ceil_log10_bound(n: nat)
    ensures
        ceil_log10(n) <= n,
    decreases n,
{
    if n > 1 {
        lemma_ceil_log10_bound(((n + 9) / 10) as nat);
    }
}

fn finish_idx_exec(t: &[u8]) -> (r: Token)
    ensures
        r@ == finish_idx(t@),
{
    if t.len() > 0 && t[0] == 46 {
        let e = dot_end_exec(t, 1);
        let frac = &t[1..e];
        if frac.len() == 0 || !is_digit_exec(frac[0]) {
            return finish_float_exec(t);
        }
        match lit_int(frac) {
            Some(Some(i)) => {
                if i >= 0 && ceil_log10_exec(i as u32) == frac.len() {
                    Token::Number(NumberKind::Index(i as usize))
                } else {
                    finish_float_exec(t)
                }
            },
            Some(None) => Token::ERROR,
            None => finish_float_exec(t),
        }
    } else {
        finish_float_exec(t)
    }
}

fn number_token_exec(s: &[u8], pos: usize, q0: usize, dot: bool) -> (r: (Token, usize))
    requires
        pos <= q0 <= s@.len(),
    ensures
        (r.0@, r.1 as int) == number_token(s@, pos as int, q0 as int, dot),
        q0 <= r.1 <= s@.len(),
{
    let (end, d, e) = num_scan_exec(s, q0, dot);
    let t = &s[pos..end];
    let tok = if !d && !e {
        finish_int_exec(t)
    } else if d && !e {
        finish_idx_exec(t)
    } else {
        finish_float_exec(t)
    };
    (tok, end)
}

fn str_scan_exec(s: &[u8], q0: usize) -> (r: Result<usize, usize>)
    requires
        0 < q0 <= s@.len(),
    ensures
        match r {
            Ok(e) => str_scan(s@, q0 as int) == Ok::<int, int>(e as int),
            Err(e) => str_scan(s@, q0 as int) == Err::<int, int>(e as int),
        },
{
    let mut q = q0;
    loop
        invariant
            q0 <= q <= s@.len(),
            str_scan(s@, q as int) == str_scan(s@, q0 as int),
        decreases s@.len() - q,
    {
        if q >= s.len() {
            return Err(s.len());
        }
        let c = s[q];
        if c == 34 {
            return Ok(q + 1);
        } else if c == 92 {
            if q + 1 < s.len() && s[q + 1] != 10 && s[q + 1] < 128 {
                q = q + 2;
            } else {
                return Err(q);
            }
        } else {
            q = q + 1;
        }
    }
}

fn raw_scan_exec(s: &[u8], q0: usize, guard: usize) -> (r: Result<usize, usize>)
    requires
        0 < q0 <= s@.len(),
    ensures
        match r {
            Ok(e) => raw_scan(s@, q0 as int, None, guard as nat) == Ok::<int, int>(e as int),
            Err(e) => raw_scan(s@, q0 as int, None, guard as nat) == Err::<int, int>(e as int),
        },
{
    let mut q = q0;
    let mut signal: Option<usize> = None;
    loop
        invariant
            q0 <= q <= s@.len(),
            signal matches Some(n) ==> n < guard,
            raw_scan(
                s@,
                q as int,
                match signal {
                    Some(n) => Some(n as nat),
                    None => None,
                },
                guard as nat,
            ) == raw_scan(s@, q0 as int, None, guard as nat),
        decreases s@.len() - q,
    {
        if q >= s.len() {
            return Err(s.len());
        }
        let c = s[q];
        if c == 34 {
            if guard == 0 {
                return Ok(q + 1);
            }
            signal = Some(0);
        } else if c == 35 {
            match signal {
                Some(n) => {
                    if n + 1 == guard {
                        return Ok(q + 1);
                    }
                    signal = Some(n + 1);
                },
                None => {},
            }
        } else {
            signal = None;
        }
        q = q + 1;
    }
}

fn string_token_exec(s: &[u8], pos: usize, scan: Result<usize, usize>) -> (r: (Token, usize))
    requires
        match scan {
            Ok(e) => pos <= e <= s@.len(),
            Err(e) => e <= s@.len(),
        },
    ensures
        (r.0@, r.1 as int) == string_token(
            s@,
            pos as int,
            match scan {
                Ok(e) => Ok::<int, int>(e as int),
                Err(e) => Err::<int, int>(e as int),
            },
        ),
{
    match scan {
        Ok(e) => {
            let t = &s[pos..e];
            let quoted = t.len() > 0 && (t[0] == 34 || (t[0] == 114 && t.len() > 1 && (t[1] == 34
                || t[1] == 35)));
            if !quoted {
                return (Token::ERROR, e);
            }
            let tok = match lit_str(t) {
                Some(v) => Token::String(v),
                None => Token::ERROR,
            };
            (tok, e)
        },
        Err(e) => (Token::ERROR, e),
    }
}

fn eq_ci_exec(w: &[u8], kw: &[u8]) -> (r: bool)
    ensures
        r == eq_ci(w@, kw@),
{
    if w.len() != kw.len() {
        return false;
    }
    let mut i: usize = 0;
    while i < w.len()
        invariant
            w@.len() == kw@.len(),
            i <= w@.len(),
            forall|j: int|
                0 <= j < i ==> (w@[j] == kw@[j] || (65 <= w@[j] <= 90 && w@[j] + 32 == kw@[j])),
        decreases w@.len() - i,
    {
        let a = w[i];
        let b = kw[i];
        if !(a == b || (65 <= a && a <= 90 && a as u16 + 32 == b as u16)) {
            return false;
        }
        i = i + 1;
    }
    true
}

fn keyword_exec(w: &[u8]) -> (r: Option<Token>)
    ensures
        match r {
            Some(t) => keyword(w@) == Some(t@),
            None => keyword(w@) is None,
        },
{
    let kw_for: [u8; 3] = [102u8, 111, 114];
    let kw_in: [u8; 2] = [105u8, 110];
    let kw_if: [u8; 2] = [105u8, 102];
    let kw_else: [u8; 4] = [101u8, 108, 115, 101];
    let kw_match: [u8; 5] = [109u8, 97, 116, 99, 104];
    let kw_while: [u8; 5] = [119u8, 104, 105, 108, 101];
    let kw_loop: [u8; 4] = [108u8, 111, 111, 112];
    let kw_break: [u8; 5] = [98u8, 114, 101, 97, 107];
    let kw_or: [u8; 2] = [111u8, 114];
    let kw_and: [u8; 3] = [97u8, 110, 100];
    let kw_not: [u8; 3] = [110u8, 111, 116];
    proof {
        assert(kw_for@ =~= seq![102u8, 111, 114]);
        assert(kw_in@ =~= seq![105u8, 110]);
        assert(kw_if@ =~= seq![105u8, 102]);
        assert(kw_else@ =~= seq![101u8, 108, 115, 101]);
        assert(kw_match@ =~= seq![109u8, 97, 116, 99, 104]);
        assert(kw_while@ =~= seq![119u8, 104, 105, 108, 101]);
        assert(kw_loop@ =~= seq![108u8, 111, 111, 112]);
        assert(kw_break@ =~= seq![98u8, 114, 101, 97, 107]);
        assert(kw_or@ =~= seq![111u8, 114]);
        assert(kw_and@ =~= seq![97u8, 110, 100]);
        assert(kw_not@ =~= seq![110u8, 111, 116]);
    }
    if eq_ci_exec(w, kw_for.as_slice()) {
        Some(Token::FOR)
    } else if eq_ci_exec(w, kw_in.as_slice()) {
        Some(Token::IN)
    } else if eq_ci_exec(w, kw_if.as_slice()) {
        Some(Token::IF)
    } else if eq_ci_exec(w, kw_else.as_slice()) {
        Some(Token::ELSE)
    } else if eq_ci_exec(w, kw_match.as_slice()) {
        Some(Token::MATCH)
    } else if eq_ci_exec(w, kw_while.as_slice()) {
        Some(Token::WHILE)
    } else if eq_ci_exec(w, kw_loop.as_slice()) {
        Some(Token::LOOP)
    } else if eq_ci_exec(w, kw_break.as_slice()) {
        Some(Token::BREAK)
    } else if eq_ci_exec(w, kw_or.as_slice()) {
        Some(Token::OR)
    } else if eq_ci_exec(w, kw_and.as_slice()) {
        Some(Token::AND)
    } else if eq_ci_exec(w, kw_not.as_slice()) {
        Some(Token::NOT)
    } else {
        None
    }
}

fn word_token_exec(s: &[u8], pos: usize) -> (r: (Token, usize))
    requires
        pos < s@.len(),
        is_word(s@[pos as int]),
    ensures
        (r.0@, r.1 as int) == word_token(s@, pos as int),
{
    let end = run_end_exec(s, pos, 1);
    proof {
        lemma_run_end(s@, pos as int, 1);
    }
    let w = &s[pos..end];
    match keyword_exec(w) {
        Some(k) => (k, end),
        None => {
            proof {
                assert forall|i: int| 0 <= i < w@.len() implies w@[i] < 128 by {
                    assert(in_class(1, s@[pos + i]));
                }
            }
            (Token::Id(ascii_string(w)), end)
        },
    }
}

fn single_exec(b: u8) -> (r: Option<Token>)
    ensures
        match r {
            Some(t) => single(b) == Some(t@),
            None => single(b) is None,
        },
{
    if b == 59 || b == 10 {
        Some(Token::DELIM)
    } else if b == 44 {
        Some(Token::COMMA)
    } else if b == 43 {
        Some(Token::ADD)
    } else if b == 45 {
        Some(Token::SUB)
    } else if b == 42 {
        Some(Token::MUL)
    } else if b == 37 {
        Some(Token::MOD)
    } else if b == 94 {
        Some(Token::POW)
    } else if b == 40 {
        Some(Token::LPAREN)
    } else if b == 41 {
        Some(Token::RPAREN)
    } else if b == 91 {
        Some(Token::LBRACKET)
    } else if b == 93 {
        Some(Token::RBRACKET)
    } else if b == 123 {
        Some(Token::LBRACE)
    } else if b == 125 {
        Some(Token::RBRACE)
    } else {
        None
    }
}

fn error_end_exec(s: &[u8], pos: usize) -> (r: usize)
    requires
        pos < s@.len(),
    ensures
        r == error_end(s@, pos as int),
{
    let b = s[pos];
    let w: usize = if b >= 240 {
        4
    } else if b >= 224 {
        3
    } else if b >= 192 {
        2
    } else {
        1
    };
    if w <= s.len() - pos {
        pos + w
    } else {
        s.len()
    }
}

/// The token that starts at `pos` and where it ends.
pub fn next_token(s: &[u8], pos: usize) -> (r: (Token, usize))
    requires
        pos < s@.len(),
    ensures
        (r.0@, r.1 as int) == spec_next(s@, pos as int),
        pos < r.1 <= s@.len(),
{
    proof {
        lemma_next_progress(s@, pos as int);
    }
    let c = s[pos];
    let n1 = at_exec(s, pos + 1);
    let n2 = if s.len() - pos > 2 {
        s[pos + 2]
    } else {
        0
    };
    match single_exec(c) {
        Some(t) => {
            return (t, pos + 1);
        },
        None => {},
    }
    if c == 58 {
        if n1 == 61 {
            (Token::ASSIGNE, pos + 2)
        } else {
            (Token::COLON, pos + 1)
        }
    } else if c == 61 {
        if n1 == 61 {
            (Token::EQ, pos + 2)
        } else if n1 == 62 {
            (Token::ARROW, pos + 2)
        } else {
            (Token::ASSIGN, pos + 1)
        }
    } else if c == 33 {
        if n1 == 61 {
            (Token::NE, pos + 2)
        } else {
            (Token::ERROR, pos + 1)
        }
    } else if c == 60 {
        if n1 == 61 {
            (Token::LE, pos + 2)
        } else {
            (Token::LT, pos + 1)
        }
    } else if c == 62 {
        if n1 == 61 {
            (Token::GE, pos + 2)
        } else {
            (Token::GT, pos + 1)
        }
    } else if c == 47 {
        if n1 == 37 {
            (Token::IDIV, pos + 2)
        } else {
            (Token::DIV, pos + 1)
        }
    } else if c == 46 {
        if n1 == 46 {
            if n2 == 46 {
                (Token::SPREAD, pos + 3)
            } else if n2 == 61 {
                (Token::RANGEI, pos + 3)
            } else {
                (Token::RANGE, pos + 2)
            }
        } else if is_digit_exec(n1) {
            let q0 = run_end_exec(s, pos + 2, 0);
            number_token_exec(s, pos, q0, true)
        } else {
            (Token::DOT, pos + 1)
        }
    } else if c == 34 {
        proof {
            lemma_str_scan(s@, pos + 1);
        }
        let scan = str_scan_exec(s, pos + 1);
        string_token_exec(s, pos, scan)
    } else if is_digit_exec(c) {
        if c == 48 && (n1 == 98 || n1 == 111 || n1 == 120) {
            let cls: u8 = if n1 == 98 {
                2
            } else if n1 == 111 {
                3
            } else {
                4
            };
            let end = run_end_exec(s, pos + 2, cls);
            (finish_int_exec(&s[pos..end]), end)
        } else {
            let q0 = run_end_exec(s, pos + 1, 0);
            number_token_exec(s, pos, q0, false)
        }
    } else if c == 114 && (n1 == 35 || n1 == 34) && at_exec(s, run_end_exec(s, pos + 1, 6))
        == 34 {
        let h = run_end_exec(s, pos + 1, 6);
        proof {
            lemma_raw_scan(s@, h + 1, None, (h - (pos + 1)) as nat);
        }
        let scan = raw_scan_exec(s, h + 1, h - (pos + 1));
        string_token_exec(s, pos, scan)
    } else if c == 100 || c == 68 {
        if is_alpha_exec(n1) || n1 == 95 {
            word_token_exec(s, pos)
        } else {
            (Token::DIE, pos + 1)
        }
    } else if c == 95 {
        if is_word_exec(n1) {
            word_token_exec(s, pos)
        } else {
            (Token::ERROR, pos + 1)
        }
    } else if is_alpha_exec(c) {
        word_token_exec(s, pos)
    } else {
        (Token::ERROR, error_end_exec(s, pos))
    }
}

/// The view of a lexed token list: each token's view with its span.
pub open spec fn tokens_view(v: Seq<Node<Token>>) -> Seq<(TokenV, Span)> {
    Seq::new(v.len(), |i: int| ((*v[i].data)@, v[i].span))
}

/// Splits the bytes of a source text into tokens; blanks are dropped.
pub fn tokenize_bytes(s: &[u8]) -> (r: Vec<Node<Token>>)
    ensures
        tokens_view(r@) == lex_from(s@, 0),
{
    let mut out: Vec<Node<Token>> = Vec::new();
    let mut pos: usize = 0;
    while pos < s.len()
        invariant
            pos <= s@.len(),
            tokens_view(out@) + lex_from(s@, pos as int) == lex_from(s@, 0),
        decreases s@.len() - pos,
    {
        if is_skip_exec(s[pos]) {
            pos = pos + 1;
        } else {
            let (t, e) = next_token(s, pos);
            let ghost old_out = out@;
            out.push(Node::new(Span { start: pos, end: e }, t));
            proof {
                assert(tokens_view(out@) =~= tokens_view(old_out) + seq![
                    (t@, Span { start: pos, end: e }),
                ]);
                assert(lex_from(s@, pos as int) == seq![(t@, Span { start: pos, end: e })]
                    + lex_from(s@, e as int));
            }
            pos = e;
        }
    }
    proof {
        assert(lex_from(s@, pos as int) =~= Seq::<(TokenV, Span)>::empty());
    }
    out
}

fn is_skip_exec(b: u8) -> (r: bool)
    ensures
        r == is_skip(b),
{
    b == 32 || b == 9 || b == 12
}

/// Splits a source text into tokens (spans are byte offsets).
pub fn tokenize(input: &str) -> (r: Vec<Node<Token>>)
    ensures
        tokens_view(r@) == lex_from(input.spec_bytes(), 0),
{
    tokenize_bytes(input.as_bytes())
}

/// The tokens of a source text, handed out one at a time.
pub struct TokenIterator {
    tokens: Vec<Node<Token>>,
    pos: usize,
}

impl TokenIterator {
    /// The tokens not handed out yet, by their views and places.
    pub closed spec fn rest(&self) -> Seq<(TokenV, Span)> {
        tokens_view(self.tokens@).subrange(self.pos as int, self.tokens@.len() as int)
    }

    /// The place of the next token in the list of all tokens is valid.
    pub closed spec fn wf(&self) -> bool {
        self.pos <= self.tokens@.len()
    }

    /// All the tokens of `input`, none handed out yet.
    pub fn new(input: &str) -> (r: TokenIterator)
        ensures
            r.wf(),
            r.rest() == lex_from(input.spec_bytes(), 0),
    {
        let tokens = tokenize(input);
        let r = TokenIterator { tokens, pos: 0 };
        assert(r.rest() =~= tokens_view(r.tokens@));
        r
    }

    /// The next token, if any is left.
    pub fn next(&mut self) -> (r: Option<Node<Token>>)
        requires
            old(self).wf(),
        ensures
            final(self).wf(),
            old(self).rest().len() == 0 ==> r is None && final(self).rest() == old(self).rest(),
            old(self).rest().len() > 0 ==> (r matches Some(t) && ((*t.data)@, t.span)
                == old(self).rest()[0] && final(self).rest() == old(self).rest().drop_first()),
    {
        if self.pos < self.tokens.len() {
            let t = &self.tokens[self.pos];
            let r = Node::new(t.span, (*t.data).clone_token());
            self.pos = self.pos + 1;
            proof {
                assert(self.rest() =~= old(self).rest().drop_first());
            }
            Some(r)
        } else {
            None
        }
    }
}

} // verus!
