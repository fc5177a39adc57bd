//! Letters read alike in either case: writing a letter in upper case
//! changes no token boundary and no kind of token, so the die marker `d`
//! and the keywords can be written in either case.  (`b`, `o`, `x` after a
//! `0` and `r` before a quote mark literals in lower case only.)
use vstd::prelude::*;

use super::scan::{
    at, char_width, eq_ci, error_end, exponent_end, in_class, is_alpha, is_digit, is_skip, is_word, keyword,
    lex_from, num_scan, raw_scan, run_end, single, spec_next, str_scan, word_token,
};
use super::token::TokenV;

verus! {

/// A lower-case letter whose case the lexer ignores: any but `b`, `o`, `r`
/// and `x`.
pub open spec fn free_letter(lo: u8) -> bool {
    97 <= lo <= 122 && lo != 98 && lo != 111 && lo != 114 && lo != 120
}

/// `s1` and `s2` are one text, with the letter `lo` at `k` in `s1` and its
/// upper case there in `s2`.
pub open spec fn d_case(s1: Seq<u8>, s2: Seq<u8>, k: int, lo: u8) -> bool {
    &&& free_letter(lo)
    &&& s1.len() == s2.len()
    &&& s1.len() <= usize::MAX
    &&& 0 <= k < s1.len()
    &&& s1[k] == lo
    &&& s2[k] == lo - 32
    &&& forall|i: int| 0 <= i < s1.len() && i != k ==> s1[i] == s2[i]
}

/// Two tokens of one kind: names, whatever their spelling, or equal tokens.
pub open spec fn same_kind(a: TokenV, b: TokenV) -> bool {
    match (a, b) {
        (TokenV::Id(_), TokenV::Id(_)) => true,
        _ => a == b,
    }
}

/// A literal starts at `p`: a digit, a dot before a digit, a quote, or `r`
/// before a quote or a hash.  What such a literal holds is read by `syn`.
pub open spec fn literal_at(s: Seq<u8>, p: int) -> bool {
    ||| is_digit(at(s, p))
    ||| at(s, p) == 46 && is_digit(at(s, p + 1))
    ||| at(s, p) == 34
    ||| at(s, p) == 114 && (at(s, p + 1) == 34 || at(s, p + 1) == 35)
}

proof fn lemma_at_case(s1: Seq<u8>, s2: Seq<u8>, k: int, lo: u8)
    requires
        d_case(s1, s2, k, lo),
    ensures
        forall|i: int| i != k ==> #[trigger] at(s1, i) == at(s2, i),
        at(s1, k) == lo && at(s2, k) == lo - 32,
{
    assert forall|i: int| i != k implies #[trigger] at(s1, i) == at(s2, i) by {
        if 0 <= i < s1.len() {
            assert(s1[i] == s2[i]);
        }
    }
}

proof fn lemma_run_end_case(s1: Seq<u8>, s2: Seq<u8>, k: int, lo: u8, q: int, c: u8)
    requires
        d_case(s1, s2, k, lo),
    ensures
        run_end(s1, q, c) == run_end(s2, q, c),
    decreases s1.len() - q,
{
    lemma_at_case(s1, s2, k, lo);
    assert(in_class(c, lo) == in_class(c, (lo - 32) as u8));
    if 0 <= q < s1.len() {
        if q != k {
            assert(s1[q] == at(s1, q) && s2[q] == at(s2, q));
        }
        if in_class(c, s1[q]) {
            lemma_run_end_case(s1, s2, k, lo, q + 1, c);
        }
    }
}

proof fn lemma_exponent_case(s1: Seq<u8>, s2: Seq<u8>, k: int, lo: u8, q: int)
    requires
        d_case(s1, s2, k, lo),
    ensures
        exponent_end(s1, q) == exponent_end(s2, q),
{
    lemma_at_case(s1, s2, k, lo);
    lemma_run_end_case(s1, s2, k, lo, q + 1, 5);
    lemma_run_end_case(s1, s2, k, lo, q + 2, 5);
    let q1 = if at(s1, q + 1) == 43 || at(s1, q + 1) == 45 {
        q + 2
    } else {
        q + 1
    };
    let q2 = run_end(s1, q1, 5);
    lemma_run_end_case(s1, s2, k, lo, q2 + 1, 0);
}

proof fn lemma_num_scan_case(s1: Seq<u8>, s2: Seq<u8>, k: int, lo: u8, q: int, dot: bool, exp: bool)
    requires
        d_case(s1, s2, k, lo),
    ensures
        num_scan(s1, q, dot, exp) == num_scan(s2, q, dot, exp),
    decreases s1.len() - q,
{
    lemma_at_case(s1, s2, k, lo);
    lemma_exponent_case(s1, s2, k, lo, q);
    lemma_run_end_case(s1, s2, k, lo, q + 2, 0);
    if 0 <= q < s1.len() {
        assert(s1[q] == at(s1, q) && s2[q] == at(s2, q));
    }
    if 0 <= q < s1.len() && s1[q] == 46 && !(is_alpha(at(s1, q + 1)) || at(s1, q + 1) == 95 || at(s1, q + 1) == 46) {
        let dend = if is_digit(at(s1, q + 1)) {
            run_end(s1, q + 2, 0)
        } else {
            q + 1
        };
        if is_digit(at(s1, q + 1)) {
            super::scan::lemma_run_end(s1, q + 2, 0);
        }
        if !dot {
            lemma_num_scan_case(s1, s2, k, lo, dend, true, exp);
        }
    } else if 0 <= q < s1.len() && exponent_end(s1, q) is Some {
        if !exp {
            lemma_exponent_end_bound(s1, q);
            lemma_num_scan_case(s1, s2, k, lo, exponent_end(s1, q).unwrap(), false, true);
        }
    }
}

proof fn lemma_exponent_end_bound(s: Seq<u8>, q: int)
    requires
        0 <= q < s.len(),
    ensures
        exponent_end(s, q) matches Some(e) ==> q < e <= s.len(),
{
    super::scan::lemma_exponent_end(s, q);
}

proof fn lemma_str_scan_case(s1: Seq<u8>, s2: Seq<u8>, k: int, lo: u8, q: int)
    requires
        d_case(s1, s2, k, lo),
    ensures
        str_scan(s1, q) == str_scan(s2, q),
    decreases s1.len() - q,
{
    lemma_at_case(s1, s2, k, lo);
    if 0 <= q < s1.len() {
        assert(s1[q] == at(s1, q) && s2[q] == at(s2, q));
        if q + 1 < s1.len() {
            assert(s1[q + 1] == at(s1, q + 1) && s2[q + 1] == at(s2, q + 1));
        }
        if s1[q] != 34 {
            if s1[q] == 92 {
                if q + 1 < s1.len() && s1[q + 1] != 10 && s1[q + 1] < 128 {
                    lemma_str_scan_case(s1, s2, k, lo, q + 2);
                }
            } else {
                lemma_str_scan_case(s1, s2, k, lo, q + 1);
            }
        }
    }
}

proof fn lemma_raw_scan_case(s1: Seq<u8>, s2: Seq<u8>, k: int, lo: u8, q: int, signal: Option<nat>, guard: nat)
    requires
        d_case(s1, s2, k, lo),
    ensures
        raw_scan(s1, q, signal, guard) == raw_scan(s2, q, signal, guard),
    decreases s1.len() - q,
{
    lemma_at_case(s1, s2, k, lo);
    if 0 <= q < s1.len() {
        assert(s1[q] == at(s1, q) && s2[q] == at(s2, q));
        if s1[q] == 34 {
            if guard != 0 {
                lemma_raw_scan_case(s1, s2, k, lo, q + 1, Some(0), guard);
            }
        } else if s1[q] == 35 {
            match signal {
                Some(n) => if n + 1 != guard {
                    lemma_raw_scan_case(s1, s2, k, lo, q + 1, Some(n + 1), guard);
                },
                None => lemma_raw_scan_case(s1, s2, k, lo, q + 1, None, guard),
            }
        } else {
            lemma_raw_scan_case(s1, s2, k, lo, q + 1, None, guard);
        }
    }
}

/// A word compared with a lower-case keyword compares alike whichever case
/// its letters have.
proof fn lemma_eq_ci_case(w1: Seq<u8>, w2: Seq<u8>, kw: Seq<u8>)
    requires
        w1.len() == w2.len(),
        forall|i: int| 0 <= i < w1.len() ==> w1[i] == w2[i] || (97 <= w1[i] <= 122 && w2[i] == w1[i] - 32),
        forall|i: int| 0 <= i < kw.len() ==> kw[i] >= 97,
    ensures
        eq_ci(w1, kw) == eq_ci(w2, kw),
{
    if eq_ci(w1, kw) {
        assert forall|i: int| 0 <= i < w2.len() implies (w2[i] == kw[i] || (65 <= w2[i] <= 90 && w2[i] + 32 == kw[i])) by {
            assert(w1[i] == kw[i] || (65 <= w1[i] <= 90 && w1[i] + 32 == kw[i]));
        }
    }
    if eq_ci(w2, kw) {
        assert forall|i: int| 0 <= i < w1.len() implies (w1[i] == kw[i] || (65 <= w1[i] <= 90 && w1[i] + 32 == kw[i])) by {
            assert(w2[i] == kw[i] || (65 <= w2[i] <= 90 && w2[i] + 32 == kw[i]));
        }
    }
}

/// Keywords are read alike whichever case the word's letters have.
proof fn lemma_keyword_case(w1: Seq<u8>, w2: Seq<u8>)
    requires
        w1.len() == w2.len(),
        forall|i: int| 0 <= i < w1.len() ==> w1[i] == w2[i] || (97 <= w1[i] <= 122 && w2[i] == w1[i] - 32),
    ensures
        keyword(w1) == keyword(w2),
{
    let kws = seq![
        seq![102u8, 111, 114],
        seq![105u8, 110],
        seq![105u8, 102],
        seq![101u8, 108, 115, 101],
        seq![109u8, 97, 116, 99, 104],
        seq![119u8, 104, 105, 108, 101],
        seq![108u8, 111, 111, 112],
        seq![98u8, 114, 101, 97, 107],
        seq![111u8, 114],
        seq![97u8, 110, 100],
        seq![110u8, 111, 116],
    ];
    assert forall|j: int| 0 <= j < kws.len() implies eq_ci(w1, #[trigger] kws[j]) == eq_ci(w2, kws[j]) by {
        let kw = kws[j];
        assert forall|i: int| 0 <= i < kw.len() implies kw[i] >= 97 by {
            assert(kw[i] >= 97);
        }
        lemma_eq_ci_case(w1, w2, kw);
    }
    assert(eq_ci(w1, kws[0]) == eq_ci(w2, kws[0]));
    assert(eq_ci(w1, kws[1]) == eq_ci(w2, kws[1]));
    assert(eq_ci(w1, kws[2]) == eq_ci(w2, kws[2]));
    assert(eq_ci(w1, kws[3]) == eq_ci(w2, kws[3]));
    assert(eq_ci(w1, kws[4]) == eq_ci(w2, kws[4]));
    assert(eq_ci(w1, kws[5]) == eq_ci(w2, kws[5]));
    assert(eq_ci(w1, kws[6]) == eq_ci(w2, kws[6]));
    assert(eq_ci(w1, kws[7]) == eq_ci(w2, kws[7]));
    assert(eq_ci(w1, kws[8]) == eq_ci(w2, kws[8]));
    assert(eq_ci(w1, kws[9]) == eq_ci(w2, kws[9]));
    assert(eq_ci(w1, kws[10]) == eq_ci(w2, kws[10]));
}

proof fn lemma_word_case(s1: Seq<u8>, s2: Seq<u8>, k: int, lo: u8, pos: int)
    requires
        d_case(s1, s2, k, lo),
        0 <= pos < s1.len(),
    ensures
        word_token(s1, pos).1 == word_token(s2, pos).1,
        same_kind(word_token(s1, pos).0, word_token(s2, pos).0),
{
    lemma_run_end_case(s1, s2, k, lo, pos, 1);
    super::scan::lemma_run_end(s1, pos, 1);
    let end = run_end(s1, pos, 1);
    let w1 = s1.subrange(pos, end);
    let w2 = s2.subrange(pos, end);
    assert forall|i: int| 0 <= i < w1.len() implies w1[i] == w2[i] || (97 <= w1[i] <= 122 && w2[i] == w1[i] - 32) by {
        assert(w1[i] == s1[pos + i] && w2[i] == s2[pos + i]);
    }
    lemma_keyword_case(w1, w2);
}

/// The token at `pos` has the same end in both texts, and the same kind
/// unless a literal starts there.
proof fn lemma_next_case(s1: Seq<u8>, s2: Seq<u8>, k: int, lo: u8, pos: int)
    requires
        d_case(s1, s2, k, lo),
        0 <= pos < s1.len(),
    ensures
        spec_next(s1, pos).1 == spec_next(s2, pos).1,
        literal_at(s1, pos) || same_kind(spec_next(s1, pos).0, spec_next(s2, pos).0),
{
    lemma_at_case(s1, s2, k, lo);
    assert(s1[pos] == at(s1, pos) && s2[pos] == at(s2, pos));
    lemma_word_case(s1, s2, k, lo, pos);
    lemma_run_end_case(s1, s2, k, lo, pos + 1, 0);
    lemma_run_end_case(s1, s2, k, lo, pos + 2, 0);
    lemma_run_end_case(s1, s2, k, lo, pos + 2, 2);
    lemma_run_end_case(s1, s2, k, lo, pos + 2, 3);
    lemma_run_end_case(s1, s2, k, lo, pos + 2, 4);
    lemma_run_end_case(s1, s2, k, lo, pos + 1, 6);
    lemma_num_scan_case(s1, s2, k, lo, run_end(s1, pos + 1, 0), false, false);
    lemma_num_scan_case(s1, s2, k, lo, run_end(s1, pos + 2, 0), true, false);
    lemma_str_scan_case(s1, s2, k, lo, pos + 1);
    let h = run_end(s1, pos + 1, 6);
    lemma_raw_scan_case(s1, s2, k, lo, h + 1, None, (h - (pos + 1)) as nat);
    let up = (lo - 32) as u8;
    assert(single(lo) is None && single(up) is None);
    assert(is_alpha(lo) && is_alpha(up) && is_word(lo) && is_word(up));
    assert(char_width(lo) == char_width(up));
}

/// The tokens from `pos` on: as many in both texts, with the same spans, and
/// of the same kinds except where a literal starts.
proof fn lemma_lex_case(s1: Seq<u8>, s2: Seq<u8>, k: int, lo: u8, pos: int)
    requires
        d_case(s1, s2, k, lo),
    ensures
        lex_from(s1, pos).len() == lex_from(s2, pos).len(),
        forall|i: int|
            0 <= i < lex_from(s1, pos).len() ==> (#[trigger] lex_from(s1, pos)[i]).1 == lex_from(s2, pos)[i].1 && (
            literal_at(s1, lex_from(s1, pos)[i].1.start as int) || same_kind(lex_from(s1, pos)[i].0, lex_from(s2, pos)[i].0)),
    decreases s1.len() - pos,
{
    lemma_at_case(s1, s2, k, lo);
    if 0 <= pos < s1.len() {
        assert(s1[pos] == at(s1, pos) && s2[pos] == at(s2, pos));
        assert(!is_skip(lo) && !is_skip((lo - 32) as u8));
        if is_skip(s1[pos]) {
            lemma_lex_case(s1, s2, k, lo, pos + 1);
        } else {
            lemma_next_case(s1, s2, k, lo, pos);
            let e = spec_next(s1, pos).1;
            if pos < e <= s1.len() {
                lemma_lex_case(s1, s2, k, lo, e);
                let r1 = lex_from(s1, e);
                let r2 = lex_from(s2, e);
                let a = lex_from(s1, pos);
                let b = lex_from(s2, pos);
                assert(a.len() == b.len());
                assert forall|i: int| 0 <= i < a.len() implies (#[trigger] a[i]).1 == b[i].1 && (literal_at(
                    s1,
                    a[i].1.start as int,
                ) || same_kind(a[i].0, b[i].0)) by {
                    if i > 0 {
                        assert(a[i] == r1[i - 1]);
                        assert(b[i] == r2[i - 1]);
                    }
                }
            }
        }
    }
}

/// Writing a letter in upper case anywhere in a text changes no token
/// boundary and no token's kind (a name stays a name, a die a die, a keyword
/// the same keyword), except what a literal that holds it reads as.  This
/// holds of every letter but `b`, `o`, `r` and `x`, which mark literals in
/// lower case only.
pub proof fn law_letter_case_free(s: Seq<u8>, k: int, lo: u8)
    requires
        0 <= k < s.len(),
        s.len() <= usize::MAX,
        free_letter(lo),
    ensures
        ({
            let a = lex_from(s.update(k, lo), 0);
            let b = lex_from(s.update(k, (lo - 32) as u8), 0);
            &&& a.len() == b.len()
            &&& forall|i: int|
                0 <= i < a.len() ==> (#[trigger] a[i]).1 == b[i].1 && (literal_at(s.update(k, lo), a[i].1.start as int)
                    || same_kind(a[i].0, b[i].0))
        }),
{
    let s1 = s.update(k, lo);
    let s2 = s.update(k, (lo - 32) as u8);
    assert(d_case(s1, s2, k, lo));
    lemma_lex_case(s1, s2, k, lo, 0);
}

/// The die marker reads alike in either case: writing `d` as `D` anywhere
/// in a text changes no token boundary and no token's kind, except what a
/// literal that holds it reads as.
pub proof fn law_die_case_free(s: Seq<u8>, k: int)
    requires
        0 <= k < s.len(),
        s.len() <= usize::MAX,
    ensures
        ({
            let a = lex_from(s.update(k, 100u8), 0);
            let b = lex_from(s.update(k, 68u8), 0);
            &&& a.len() == b.len()
            &&& forall|i: int|
                0 <= i < a.len() ==> (#[trigger] a[i]).1 == b[i].1 && (literal_at(s.update(k, 100u8), a[i].1.start as int)
                    || same_kind(a[i].0, b[i].0))
        }),
{
    law_letter_case_free(s, k, 100u8);
}

} // verus!
