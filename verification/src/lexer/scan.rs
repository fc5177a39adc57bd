use vstd::prelude::*;

use super::lit::{ascii_chars, syn_float, syn_int, syn_str};
use super::token::{NumberV, TokenV};
use crate::types::span::Span;

verus! {

// ---------------------------------------------------------------------------
// Byte classes
// ---------------------------------------------------------------------------

pub open spec fn is_digit(b: u8) -> bool {
    48 <= b <= 57
}

pub open spec fn is_alpha(b: u8) -> bool {
    (65 <= b <= 90) || (97 <= b <= 122)
}

pub open spec fn is_word(b: u8) -> bool {
    is_digit(b) || is_alpha(b) || b == 95
}

/// Blanks that separate tokens: space, tab and form feed.
pub open spec fn is_skip(b: u8) -> bool {
    b == 32 || b == 9 || b == 12
}

/// Character classes of the runs that the lexer reads.
pub open spec fn in_class(c: u8, b: u8) -> bool {
    if c == 0 {
        is_digit(b) || b == 95
    } else if c == 1 {
        is_word(b)
    } else if c == 2 {
        b == 48 || b == 49 || b == 95
    } else if c == 3 {
        (48 <= b <= 55) || b == 95
    } else if c == 4 {
        is_digit(b) || (65 <= b <= 70) || (97 <= b <= 102) || b == 95
    } else if c == 5 {
        b == 95
    } else {
        b == 35
    }
}

/// The byte at `i`, or 0 outside the input (0 belongs to no class the lexer
/// looks for, so it reads as the end of input).
pub open spec fn at(s: Seq<u8>, i: int) -> u8 {
    if 0 <= i < s.len() {
        s[i]
    } else {
        0
    }
}

/// End of the longest run of bytes of class `c` that starts at `q`.
pub open spec fn run_end(s: Seq<u8>, q: int, c: u8) -> int
    decreases s.len() - q,
{
    if 0 <= q < s.len() && in_class(c, s[q]) {
        run_end(s, q + 1, c)
    } else {
        q
    }
}

/// Number of decimal digits needed to reach `i`: the least `m` with
/// `10^m >= i` (0 for 0 and 1).
pub open spec fn ceil_log10(i: nat) -> nat
    decreases i,
{
    if i <= 1 {
        0
    } else {
        1 + ceil_log10(((i + 9) / 10) as nat)
    }
}

// ---------------------------------------------------------------------------
// Numbers
// ---------------------------------------------------------------------------

/// The end of an exponent part `[eE][+-]?_*[0-9][0-9_]*` at `q`, if any.
pub open spec fn exponent_end(s: Seq<u8>, q: int) -> Option<int> {
    if at(s, q) == 101 || at(s, q) == 69 {
        let q1 = if at(s, q + 1) == 43 || at(s, q + 1) == 45 {
            q + 2
        } else {
            q + 1
        };
        let q2 = run_end(s, q1, 5);
        if is_digit(at(s, q2)) {
            Some(run_end(s, q2 + 1, 0))
        } else {
            None
        }
    } else {
        None
    }
}

/// After the leading digits of a number, the parts that extend it: one
/// fraction `.digits` (not when a letter, `_` or `.` follows the dot) and one
/// exponent; a fraction is allowed again after an exponent.  Gives the end
/// and whether the number ended with a fraction or has an exponent.
pub open spec fn num_scan(s: Seq<u8>, q: int, dot: bool, exp: bool) -> (int, bool, bool)
    decreases s.len() - q,
{
    if 0 <= q < s.len() && s[q] == 46 && !(is_alpha(at(s, q + 1)) || at(s, q + 1) == 95
        || at(s, q + 1) == 46) {
        let dend = if is_digit(at(s, q + 1)) {
            run_end(s, q + 2, 0)
        } else {
            q + 1
        };
        if !dot {
            proof {
                if is_digit(at(s, q + 1)) {
                    lemma_run_end(s, q + 2, 0);
                }
            }
            num_scan(s, dend, true, exp)
        } else {
            (q, dot, exp)
        }
    } else if 0 <= q < s.len() && exponent_end(s, q) is Some {
        if !exp {
            proof {
                lemma_exponent_end(s, q);
            }
            num_scan(s, exponent_end(s, q).unwrap(), false, true)
        } else {
            (q, dot, exp)
        }
    } else {
        (q, dot, exp)
    }
}

/// An integer literal: its value, or an error token.
pub open spec fn finish_int(t: Seq<u8>) -> TokenV {
    if int_text(t) {
        match syn_int(t) {
            Some(Some(i)) => TokenV::Number(NumberV::Integer(i)),
            _ => TokenV::ERROR,
        }
    } else {
        TokenV::ERROR
    }
}

/// A text that can be an integer literal: it starts with a digit.
pub open spec fn int_text(t: Seq<u8>) -> bool {
    t.len() > 0 && is_digit(t[0])
}

/// A text that can be a string literal: it starts with a quote, or with `r`
/// and then a quote or a hash.
pub open spec fn str_text(t: Seq<u8>) -> bool {
    t.len() > 0 && (t[0] == 34 || (t[0] == 114 && t.len() > 1 && (t[1] == 34 || t[1] == 35)))
}

/// A float literal, read as `0` followed by the text (so that `.5` reads).
pub open spec fn finish_float(t: Seq<u8>) -> TokenV {
    match syn_float(seq![48u8] + t) {
        Some(d) => TokenV::Number(NumberV::Float(d)),
        None => TokenV::ERROR,
    }
}

/// First position at or after `k` that holds a dot, or the end.
pub open spec fn dot_end(t: Seq<u8>, k: int) -> int
    decreases t.len() - k,
{
    if 0 <= k < t.len() && t[k] != 46 {
        dot_end(t, k + 1)
    } else {
        k
    }
}

/// A literal with a fraction and no exponent: `.n` is an index when `n` has
/// exactly as many digits as its value needs (see `ceil_log10`), else a float.
pub open spec fn finish_idx(t: Seq<u8>) -> TokenV {
    if t.len() > 0 && t[0] == 46 {
        let frac = t.subrange(1, dot_end(t, 1));
        if !int_text(frac) {
            finish_float(t)
        } else {
            match syn_int(frac) {
                Some(Some(i)) => if i >= 0 && ceil_log10(i as nat) == frac.len() {
                    TokenV::Number(NumberV::Index(i as usize))
                } else {
                    finish_float(t)
                },
                Some(None) => TokenV::ERROR,
                None => finish_float(t),
            }
        }
    } else {
        finish_float(t)
    }
}

/// A number whose leading part ends at `q0`.
pub open spec fn number_token(s: Seq<u8>, pos: int, q0: int, dot: bool) -> (TokenV, int) {
    let (end, d, e) = num_scan(s, q0, dot, false);
    let t = s.subrange(pos, end);
    (if !d && !e {
        finish_int(t)
    } else if d && !e {
        finish_idx(t)
    } else {
        finish_float(t)
    }, end)
}

// ---------------------------------------------------------------------------
// Strings
// ---------------------------------------------------------------------------

/// Scans a string body from `q` up to its closing quote: `Ok(end)` after the
/// quote, or `Err(end)` where the scan stopped (the end of input, or a
/// backslash not followed by an ASCII character other than a line break).
pub open spec fn str_scan(s: Seq<u8>, q: int) -> Result<int, int>
    decreases s.len() - q,
{
    if q < 0 || q >= s.len() {
        Err(s.len() as int)
    } else if s[q] == 34 {
        Ok(q + 1)
    } else if s[q] == 92 {
        if q + 1 < s.len() && s[q + 1] != 10 && s[q + 1] < 128 {
            str_scan(s, q + 2)
        } else {
            Err(q)
        }
    } else {
        str_scan(s, q + 1)
    }
}

/// Scans a raw string body from `q`: it ends at a quote followed by `guard`
/// hashes.  `signal` counts the hashes seen since the last quote.
pub open spec fn raw_scan(s: Seq<u8>, q: int, signal: Option<nat>, guard: nat) -> Result<
    int,
    int,
>
    decreases s.len() - q,
{
    if q < 0 || q >= s.len() {
        Err(s.len() as int)
    } else if s[q] == 34 {
        if guard == 0 {
            Ok(q + 1)
        } else {
            raw_scan(s, q + 1, Some(0), guard)
        }
    } else if s[q] == 35 {
        match signal {
            Some(n) => if n + 1 == guard {
                Ok(q + 1)
            } else {
                raw_scan(s, q + 1, Some(n + 1), guard)
            },
            None => raw_scan(s, q + 1, None, guard),
        }
    } else {
        raw_scan(s, q + 1, None, guard)
    }
}

/// A finished string scan: the literal's value, or an error token.
pub open spec fn string_token(s: Seq<u8>, pos: int, scan: Result<int, int>) -> (TokenV, int) {
    match scan {
        Ok(e) => (
            if !str_text(s.subrange(pos, e)) {
                TokenV::ERROR
            } else {
                match syn_str(s.subrange(pos, e)) {
                    Some(v) => TokenV::String(v),
                    None => TokenV::ERROR,
                }
            },
            e,
        ),
        Err(e) => (TokenV::ERROR, e),
    }
}

// ---------------------------------------------------------------------------
// Words
// ---------------------------------------------------------------------------

/// Compares a word with a lower-case keyword, ignoring the case of letters.
pub open spec fn eq_ci(w: Seq<u8>, kw: Seq<u8>) -> bool {
    w.len() == kw.len() && forall|i: int|
        0 <= i < w.len() ==> (w[i] == kw[i] || (65 <= w[i] <= 90 && w[i] + 32 == kw[i]))
}

/// The keyword that a word spells, in any case.
pub open spec fn keyword(w: Seq<u8>) -> Option<TokenV> {
    if eq_ci(w, seq![102u8, 111, 114]) {
        Some(TokenV::FOR)
    } else if eq_ci(w, seq![105u8, 110]) {
        Some(TokenV::IN)
    } else if eq_ci(w, seq![105u8, 102]) {
        Some(TokenV::IF)
    } else if eq_ci(w, seq![101u8, 108, 115, 101]) {
        Some(TokenV::ELSE)
    } else if eq_ci(w, seq![109u8, 97, 116, 99, 104]) {
        Some(TokenV::MATCH)
    } else if eq_ci(w, seq![119u8, 104, 105, 108, 101]) {
        Some(TokenV::WHILE)
    } else if eq_ci(w, seq![108u8, 111, 111, 112]) {
        Some(TokenV::LOOP)
    } else if eq_ci(w, seq![98u8, 114, 101, 97, 107]) {
        Some(TokenV::BREAK)
    } else if eq_ci(w, seq![111u8, 114]) {
        Some(TokenV::OR)
    } else if eq_ci(w, seq![97u8, 110, 100]) {
        Some(TokenV::AND)
    } else if eq_ci(w, seq![110u8, 111, 116]) {
        Some(TokenV::NOT)
    } else {
        None
    }
}

/// A word that starts at `pos`: a keyword, or an identifier.
pub open spec fn word_token(s: Seq<u8>, pos: int) -> (TokenV, int) {
    let end = run_end(s, pos, 1);
    let w = s.subrange(pos, end);
    match keyword(w) {
        Some(k) => (k, end),
        None => (TokenV::Id(ascii_chars(w)), end),
    }
}

/// Number of bytes in the UTF-8 character whose first byte is `b`.
pub open spec fn char_width(b: u8) -> int {
    if b >= 240 {
        4
    } else if b >= 224 {
        3
    } else if b >= 192 {
        2
    } else {
        1
    }
}

/// The bytes that form no token: one character.
pub open spec fn error_end(s: Seq<u8>, pos: int) -> int {
    let w = char_width(s[pos]);
    if pos + w <= s.len() {
        pos + w
    } else {
        s.len() as int
    }
}

/// The one-byte tokens.
pub open spec fn single(b: u8) -> Option<TokenV> {
    if b == 59 || b == 10 {
        Some(TokenV::DELIM)
    } else if b == 44 {
        Some(TokenV::COMMA)
    } else if b == 43 {
        Some(TokenV::ADD)
    } else if b == 45 {
        Some(TokenV::SUB)
    } else if b == 42 {
        Some(TokenV::MUL)
    } else if b == 37 {
        Some(TokenV::MOD)
    } else if b == 94 {
        Some(TokenV::POW)
    } else if b == 40 {
        Some(TokenV::LPAREN)
    } else if b == 41 {
        Some(TokenV::RPAREN)
    } else if b == 91 {
        Some(TokenV::LBRACKET)
    } else if b == 93 {
        Some(TokenV::RBRACKET)
    } else if b == 123 {
        Some(TokenV::LBRACE)
    } else if b == 125 {
        Some(TokenV::RBRACE)
    } else {
        None
    }
}

/// The token that starts at `pos` (a byte that is no blank), and its end:
/// the longest match, with keywords before identifiers.
pub open spec fn spec_next(s: Seq<u8>, pos: int) -> (TokenV, int) {
    let c = s[pos];
    let n1 = at(s, pos + 1);
    let n2 = at(s, pos + 2);
    if single(c) is Some {
        (single(c).unwrap(), pos + 1)
    } else if c == 58 {
        if n1 == 61 {
            (TokenV::ASSIGNE, pos + 2)
        } else {
            (TokenV::COLON, pos + 1)
        }
    } else if c == 61 {
        if n1 == 61 {
            (TokenV::EQ, pos + 2)
        } else if n1 == 62 {
            (TokenV::ARROW, pos + 2)
        } else {
            (TokenV::ASSIGN, pos + 1)
        }
    } else if c == 33 {
        if n1 == 61 {
            (TokenV::NE, pos + 2)
        } else {
            (TokenV::ERROR, pos + 1)
        }
    } else if c == 60 {
        if n1 == 61 {
            (TokenV::LE, pos + 2)
        } else {
            (TokenV::LT, pos + 1)
        }
    } else if c == 62 {
        if n1 == 61 {
            (TokenV::GE, pos + 2)
        } else {
            (TokenV::GT, pos + 1)
        }
    } else if c == 47 {
        if n1 == 37 {
            (TokenV::IDIV, pos + 2)
        } else {
            (TokenV::DIV, pos + 1)
        }
    } else if c == 46 {
        if n1 == 46 {
            if n2 == 46 {
                (TokenV::SPREAD, pos + 3)
            } else if n2 == 61 {
                (TokenV::RANGEI, pos + 3)
            } else {
                (TokenV::RANGE, pos + 2)
            }
        } else if is_digit(n1) {
            number_token(s, pos, run_end(s, pos + 2, 0), true)
        } else {
            (TokenV::DOT, pos + 1)
        }
    } else if c == 34 {
        string_token(s, pos, str_scan(s, pos + 1))
    } else if is_digit(c) {
        if c == 48 && (n1 == 98 || n1 == 111 || n1 == 120) {
            let cls: u8 = if n1 == 98 {
                2
            } else if n1 == 111 {
                3
            } else {
                4
            };
            let end = run_end(s, pos + 2, cls);
            (finish_int(s.subrange(pos, end)), end)
        } else {
            number_token(s, pos, run_end(s, pos + 1, 0), false)
        }
    } else if c == 114 && (n1 == 35 || n1 == 34) && at(s, run_end(s, pos + 1, 6)) == 34 {
        let h = run_end(s, pos + 1, 6);
        string_token(s, pos, raw_scan(s, h + 1, None, (h - (pos + 1)) as nat))
    } else if c == 100 || c == 68 {
        if is_alpha(n1) || n1 == 95 {
            word_token(s, pos)
        } else {
            (TokenV::DIE, pos + 1)
        }
    } else if c == 95 {
        if is_word(n1) {
            word_token(s, pos)
        } else {
            (TokenV::ERROR, pos + 1)
        }
    } else if is_alpha(c) {
        word_token(s, pos)
    } else {
        (TokenV::ERROR, error_end(s, pos))
    }
}

/// The tokens of `s` from `pos` on, each with its span; blanks are skipped.
pub open spec fn lex_from(s: Seq<u8>, pos: int) -> Seq<(TokenV, Span)>
    decreases s.len() - pos,
{
    if pos < 0 || pos >= s.len() {
        Seq::empty()
    } else if is_skip(s[pos]) {
        lex_from(s, pos + 1)
    } else {
        let (t, e) = spec_next(s, pos);
        if pos < e <= s.len() {
            seq![(t, Span { start: pos as usize, end: e as usize })] + lex_from(s, e)
        } else {
            Seq::empty()
        }
    }
}

// ---------------------------------------------------------------------------
// Lemmas
// ---------------------------------------------------------------------------

pub proof fn lemma_run_end(s: Seq<u8>, q: int, c: u8)
    requires
        0 <= q <= s.len(),
    ensures
        q <= run_end(s, q, c) <= s.len(),
        forall|i: int| q <= i < run_end(s, q, c) ==> in_class(c, #[trigger] s[i]),
    decreases s.len() - q,
{
    if q < s.len() && in_class(c, s[q]) {
        lemma_run_end(s, q + 1, c);
    }
}

pub proof fn lemma_exponent_end(s: Seq<u8>, q: int)
    requires
        0 <= q < s.len(),
    ensures
        exponent_end(s, q) matches Some(e) ==> q < e <= s.len(),
{
    if at(s, q) == 101 || at(s, q) == 69 {
        let q1 = if at(s, q + 1) == 43 || at(s, q + 1) == 45 {
            q + 2
        } else {
            q + 1
        };
        lemma_run_end(s, q1, 5);
        let q2 = run_end(s, q1, 5);
        if is_digit(at(s, q2)) {
            lemma_run_end(s, q2 + 1, 0);
        }
    }
}

pub proof fn lemma_num_scan(s: Seq<u8>, q: int, dot: bool, exp: bool)
    requires
        0 <= q <= s.len(),
    ensures
        q <= num_scan(s, q, dot, exp).0 <= s.len(),
    decreases s.len() - q,
{
    if 0 <= q < s.len() && s[q] == 46 && !(is_alpha(at(s, q + 1)) || at(s, q + 1) == 95
        || at(s, q + 1) == 46) {
        if is_digit(at(s, q + 1)) {
            lemma_run_end(s, q + 2, 0);
        }
        if !dot {
            let dend = if is_digit(at(s, q + 1)) {
                run_end(s, q + 2, 0)
            } else {
                q + 1
            };
            lemma_num_scan(s, dend, true, exp);
        }
    } else if 0 <= q < s.len() && exponent_end(s, q) is Some {
        lemma_exponent_end(s, q);
        if !exp {
            lemma_num_scan(s, exponent_end(s, q).unwrap(), false, true);
        }
    }
}

pub proof fn lemma_str_scan(s: Seq<u8>, q: int)
    requires
        0 < q <= s.len(),
    ensures
        match str_scan(s, q) {
            Ok(e) => q < e <= s.len(),
            Err(e) => q <= e <= s.len(),
        },
    decreases s.len() - q,
{
    if q < s.len() && s[q] != 34 {
        if s[q] == 92 {
            if q + 1 < s.len() && s[q + 1] != 10 && s[q + 1] < 128 {
                lemma_str_scan(s, q + 2);
            }
        } else {
            lemma_str_scan(s, q + 1);
        }
    }
}

pub proof fn lemma_raw_scan(s: Seq<u8>, q: int, signal: Option<nat>, guard: nat)
    requires
        0 < q <= s.len(),
    ensures
        match raw_scan(s, q, signal, guard) {
            Ok(e) => q < e <= s.len(),
            Err(e) => q <= e <= s.len(),
        },
    decreases s.len() - q,
{
    if q < s.len() {
        if s[q] == 34 {
            if guard != 0 {
                lemma_raw_scan(s, q + 1, Some(0), guard);
            }
        } else if s[q] == 35 {
            match signal {
                Some(n) => if n + 1 != guard {
                    lemma_raw_scan(s, q + 1, Some(n + 1), guard);
                },
                None => lemma_raw_scan(s, q + 1, None, guard),
            }
        } else {
            lemma_raw_scan(s, q + 1, None, guard);
        }
    }
}

/// Every token that starts at a byte of the input ends after it, within the
/// input.
pub proof fn lemma_next_progress(s: Seq<u8>, pos: int)
    requires
        0 <= pos < s.len(),
    ensures
        pos < spec_next(s, pos).1 <= s.len(),
{
    let c = s[pos];
    let n1 = at(s, pos + 1);
    if c == 46 && n1 != 46 && is_digit(n1) {
        lemma_run_end(s, pos + 2, 0);
        lemma_num_scan(s, run_end(s, pos + 2, 0), true, false);
    } else if c == 34 {
        lemma_str_scan(s, pos + 1);
    } else if is_digit(c) {
        if n1 == 98 || n1 == 111 || n1 == 120 {
            lemma_run_end(s, pos + 2, 2);
            lemma_run_end(s, pos + 2, 3);
            lemma_run_end(s, pos + 2, 4);
        }
        lemma_run_end(s, pos + 1, 0);
        lemma_num_scan(s, run_end(s, pos + 1, 0), false, false);
    } else if c == 114 && (n1 == 35 || n1 == 34) {
        lemma_run_end(s, pos + 1, 6);
        let h = run_end(s, pos + 1, 6);
        if at(s, h) == 34 {
            lemma_raw_scan(s, h + 1, None, (h - (pos + 1)) as nat);
        }
        lemma_run_end(s, pos + 1, 1);
    } else {
        lemma_run_end(s, pos + 1, 1);
    }
}

} // verus!
