//! What printing keeps: printed operators read back as themselves, printed
//! integers read back as their value, and printed booleans tell true from
//! false.
use vstd::prelude::*;

use super::ast::{arith_chars, eqs_chars, show_range_op, show_token};
use super::value::show_value;
use super::{int_chars, nat_chars, text, FragV};
use crate::ast::{OpArith, OpEqs, OpRange};
use crate::hir::value::{PrimitiveV, ValueV};
use crate::lexer::lit::ascii_chars;
use crate::lexer::scan::{eq_ci, lex_from, run_end};
use crate::parser::grammar::{arith_of, eqs_of};
use crate::lexer::token::{Token, TokenV};
use crate::types::span::Span;

verus! {

/// A printed comparison operator reads back as itself: the bytes of its
/// printed text are one token, spanning them all, which the parser reads as
/// that same operator.
pub proof fn law_eqs_reads_back(o: OpEqs, bs: Seq<u8>)
    requires
        ascii_chars(bs) == eqs_chars(o),
    ensures
        lex_from(bs, 0).len() == 1,
        lex_from(bs, 0)[0].1 == (Span { start: 0, end: bs.len() as usize }),
        eqs_of(lex_from(bs, 0)[0].0) == Some(o),
{
    reveal_strlit("==");
    reveal_strlit("!=");
    reveal_strlit("<");
    reveal_strlit("<=");
    reveal_strlit(">");
    reveal_strlit(">=");
    let cs = eqs_chars(o);
    assert(bs.len() == cs.len());
    assert(bs[0] as char == cs[0]);
    if bs.len() > 1 {
        assert(bs[1] as char == cs[1]);
    }
    reveal_with_fuel(lex_from, 3);
}

/// A printed arithmetic operator reads back as itself: one token, which
/// the parser reads as that operator (`/%`, which the parser does not read,
/// is the one token `/%`).
pub proof fn law_arith_reads_back(o: OpArith, bs: Seq<u8>)
    requires
        ascii_chars(bs) == arith_chars(o),
    ensures
        lex_from(bs, 0).len() == 1,
        lex_from(bs, 0)[0].1 == (Span { start: 0, end: bs.len() as usize }),
        o != OpArith::IDIV ==> arith_of(lex_from(bs, 0)[0].0) == Some(o),
        o == OpArith::IDIV ==> lex_from(bs, 0)[0].0 == TokenV::IDIV,
{
    reveal_strlit("+");
    reveal_strlit("-");
    reveal_strlit("*");
    reveal_strlit("/");
    reveal_strlit("/%");
    reveal_strlit("%");
    reveal_strlit("^");
    let cs = arith_chars(o);
    assert(bs.len() == cs.len());
    assert(bs[0] as char == cs[0]);
    if bs.len() > 1 {
        assert(bs[1] as char == cs[1]);
    }
    reveal_with_fuel(lex_from, 3);
}

/// A printed range operator reads back as itself: one token, `..` or `..=`.
pub proof fn law_range_reads_back(o: OpRange, bs: Seq<u8>)
    requires
        text(ascii_chars(bs)) == show_range_op(o),
    ensures
        lex_from(bs, 0).len() == 1,
        lex_from(bs, 0)[0].1 == (Span { start: 0, end: bs.len() as usize }),
        lex_from(bs, 0)[0].0 == (match o {
            OpRange::RANGE => TokenV::RANGE,
            OpRange::RANGEI => TokenV::RANGEI,
        }),
{
    reveal_strlit("..");
    reveal_strlit("..=");
    let cs = ascii_chars(bs);
    assert(text(cs)[0] == show_range_op(o)[0]);
    let ds = match o {
        OpRange::RANGE => ".."@,
        OpRange::RANGEI => "..="@,
    };
    assert(cs == ds);
    assert(bs.len() == ds.len());
    assert(bs[0] as char == ds[0]);
    assert(bs[1] as char == ds[1]);
    if bs.len() > 2 {
        assert(bs[2] as char == ds[2]);
    }
    reveal_with_fuel(lex_from, 3);
}

/// The number that decimal digits stand for.
pub open spec fn digits_value(cs: Seq<char>) -> int
    decreases cs.len(),
{
    if cs.len() == 0 {
        0
    } else {
        digits_value(cs.drop_last()) * 10 + (cs.last() as int - 48)
    }
}

/// The characters are decimal digits.
pub open spec fn all_digits(cs: Seq<char>) -> bool {
    forall|i: int| 0 <= i < cs.len() ==> '0' <= #[trigger] cs[i] <= '9'
}

/// A printed natural number is its decimal digits: digits only, at least
/// one, no leading zero but in `0` itself, and they stand for the number.
pub proof fn law_nat_prints_decimal(n: nat)
    ensures
        nat_chars(n).len() >= 1,
        all_digits(nat_chars(n)),
        digits_value(nat_chars(n)) == n,
        nat_chars(n)[0] == '0' ==> n == 0,
    decreases n,
{
    if n >= 10 {
        law_nat_prints_decimal(n / 10);
        let cs = nat_chars(n);
        assert(cs.drop_last() =~= nat_chars(n / 10));
        assert(cs[0] == nat_chars(n / 10)[0]);
        assert((n / 10) * 10 + n % 10 == n);
        assert(cs.last() == (48 + n % 10) as char);
        assert(((48 + n % 10) as char) as int == 48 + n % 10);
        assert(digits_value(cs) == digits_value(nat_chars(n / 10)) * 10 + (cs.last() as int - 48));
        assert(digits_value(cs) == (n / 10) * 10 + n % 10);
    } else {
        let cs = nat_chars(n);
        assert(cs.drop_last() =~= Seq::<char>::empty());
        assert(digits_value(Seq::<char>::empty()) == 0);
        assert(cs.last() == (48 + n) as char);
        assert(((48 + n) as char) as int == 48 + n);
        assert(digits_value(cs) == digits_value(cs.drop_last()) * 10 + (cs.last() as int - 48));
    }
}

/// A printed integer reads back as itself: a minus sign before the
/// decimal digits of a negative one, the digits alone otherwise.
pub proof fn law_int_prints_decimal(x: int)
    ensures
        x < 0 ==> int_chars(x)[0] == '-' && all_digits(int_chars(x).drop_first()) && -digits_value(
            int_chars(x).drop_first(),
        ) == x,
        x >= 0 ==> all_digits(int_chars(x)) && digits_value(int_chars(x)) == x,
        int_chars(x).len() >= 1,
{
    if x < 0 {
        law_nat_prints_decimal((-x) as nat);
        assert(int_chars(x).drop_first() =~= nat_chars((-x) as nat));
    } else {
        law_nat_prints_decimal(x as nat);
    }
}

/// A token that is a fixed symbol: an operator or a bracket.
pub open spec fn symbol_token(x: Token) -> bool {
    x is DELIM || x is COMMA || x is COLON || x is ASSIGN || x is ASSIGNE || x is ARROW || x is SPREAD || x is EQ || x is NE || x is LT || x is LE || x is GT || x is GE || x is RANGE || x is RANGEI || x is ADD || x is SUB || x is MUL || x is DIV || x is IDIV || x is MOD || x is POW || x is DIE || x is DOT || x is LPAREN || x is RPAREN || x is LBRACKET || x is RBRACKET || x is LBRACE || x is RBRACE
}

/// A token that is a keyword.
pub open spec fn keyword_token(x: Token) -> bool {
    x is FOR || x is IN || x is IF || x is ELSE || x is MATCH || x is WHILE || x is LOOP || x is BREAK || x is OR || x is AND || x is NOT
}

/// The text of printed pieces that are one piece of text.
pub open spec fn one_text(f: Seq<FragV>) -> Seq<char> {
    if f.len() == 1 && f[0] is Text {
        f[0]->Text_0
    } else {
        Seq::empty()
    }
}

/// A printed symbol reads back as itself: its bytes are that one token.
pub proof fn law_symbol_reads_back(x: Token, bs: Seq<u8>)
    requires
        symbol_token(x),
        ascii_chars(bs) == one_text(show_token(x)),
    ensures
        lex_from(bs, 0) == seq![(x@, Span { start: 0, end: bs.len() as usize })],
{
    reveal_strlit("\n");
    reveal_strlit(",");
    reveal_strlit(":");
    reveal_strlit("=");
    reveal_strlit(":=");
    reveal_strlit("=>");
    reveal_strlit("...");
    reveal_strlit("==");
    reveal_strlit("!=");
    reveal_strlit("<");
    reveal_strlit("<=");
    reveal_strlit(">");
    reveal_strlit(">=");
    reveal_strlit("..");
    reveal_strlit("..=");
    reveal_strlit("+");
    reveal_strlit("-");
    reveal_strlit("*");
    reveal_strlit("/");
    reveal_strlit("/%");
    reveal_strlit("%");
    reveal_strlit("^");
    reveal_strlit("d");
    reveal_strlit(".");
    reveal_strlit("(");
    reveal_strlit(")");
    reveal_strlit("[");
    reveal_strlit("]");
    reveal_strlit("{");
    reveal_strlit("}");
    let cs = one_text(show_token(x));
    assert(bs.len() == cs.len());
    assert(bs[0] as char == cs[0]);
    if bs.len() > 1 {
        assert(bs[1] as char == cs[1]);
    }
    if bs.len() > 2 {
        assert(bs[2] as char == cs[2]);
    }
    reveal_with_fuel(lex_from, 3);
    assert(lex_from(bs, 0) =~= seq![(x@, Span { start: 0, end: bs.len() as usize })]);
}

/// A printed keyword reads back as itself: its bytes are that one token.
pub proof fn law_keyword_reads_back(x: Token, bs: Seq<u8>)
    requires
        keyword_token(x),
        ascii_chars(bs) == one_text(show_token(x)),
    ensures
        lex_from(bs, 0) == seq![(x@, Span { start: 0, end: bs.len() as usize })],
{
    reveal_strlit("for");
    reveal_strlit("in");
    reveal_strlit("if");
    reveal_strlit("else");
    reveal_strlit("match");
    reveal_strlit("while");
    reveal_strlit("loop");
    reveal_strlit("break");
    reveal_strlit("or");
    reveal_strlit("and");
    reveal_strlit("not");
    let cs = one_text(show_token(x));
    assert(bs.len() == cs.len());
    assert forall|i: int| 0 <= i < bs.len() implies bs[i] as char == #[trigger] cs[i] by {
        assert(ascii_chars(bs)[i] == bs[i] as char);
    }
    reveal_with_fuel(run_end, 7);
    reveal_with_fuel(lex_from, 3);
    assert(bs.subrange(0, bs.len() as int) =~= bs);
    match x {
            Token::FOR => {
                assert forall|i: int| 0 <= i < bs.len() implies #[trigger] bs[i] == seq![102u8, 111, 114][i] by {
                    assert(bs[i] as char == cs[i]);
                    assert((bs[i] as char) as int == bs[i]);
                }
                assert(bs =~= seq![102u8, 111, 114]);
                assert(eq_ci(bs, seq![102u8, 111, 114]));
            },
            Token::IN => {
                assert forall|i: int| 0 <= i < bs.len() implies #[trigger] bs[i] == seq![105u8, 110][i] by {
                    assert(bs[i] as char == cs[i]);
                    assert((bs[i] as char) as int == bs[i]);
                }
                assert(bs =~= seq![105u8, 110]);
                assert(eq_ci(bs, seq![105u8, 110]));
            },
            Token::IF => {
                assert forall|i: int| 0 <= i < bs.len() implies #[trigger] bs[i] == seq![105u8, 102][i] by {
                    assert(bs[i] as char == cs[i]);
                    assert((bs[i] as char) as int == bs[i]);
                }
                assert(bs =~= seq![105u8, 102]);
                assert(!eq_ci(bs, seq![105u8, 110])) by {
                    assert(bs[1] != seq![105u8, 110][1]);
                }
                assert(eq_ci(bs, seq![105u8, 102]));
            },
            Token::ELSE => {
                assert forall|i: int| 0 <= i < bs.len() implies #[trigger] bs[i] == seq![101u8, 108, 115, 101][i] by {
                    assert(bs[i] as char == cs[i]);
                    assert((bs[i] as char) as int == bs[i]);
                }
                assert(bs =~= seq![101u8, 108, 115, 101]);
                assert(eq_ci(bs, seq![101u8, 108, 115, 101]));
            },
            Token::MATCH => {
                assert forall|i: int| 0 <= i < bs.len() implies #[trigger] bs[i] == seq![109u8, 97, 116, 99, 104][i] by {
                    assert(bs[i] as char == cs[i]);
                    assert((bs[i] as char) as int == bs[i]);
                }
                assert(bs =~= seq![109u8, 97, 116, 99, 104]);
                assert(eq_ci(bs, seq![109u8, 97, 116, 99, 104]));
            },
            Token::WHILE => {
                assert forall|i: int| 0 <= i < bs.len() implies #[trigger] bs[i] == seq![119u8, 104, 105, 108, 101][i] by {
                    assert(bs[i] as char == cs[i]);
                    assert((bs[i] as char) as int == bs[i]);
                }
                assert(bs =~= seq![119u8, 104, 105, 108, 101]);
                assert(!eq_ci(bs, seq![109u8, 97, 116, 99, 104])) by {
                    assert(bs[0] != seq![109u8, 97, 116, 99, 104][0]);
                }
                assert(eq_ci(bs, seq![119u8, 104, 105, 108, 101]));
            },
            Token::LOOP => {
                assert forall|i: int| 0 <= i < bs.len() implies #[trigger] bs[i] == seq![108u8, 111, 111, 112][i] by {
                    assert(bs[i] as char == cs[i]);
                    assert((bs[i] as char) as int == bs[i]);
                }
                assert(bs =~= seq![108u8, 111, 111, 112]);
                assert(!eq_ci(bs, seq![101u8, 108, 115, 101])) by {
                    assert(bs[0] != seq![101u8, 108, 115, 101][0]);
                }
                assert(eq_ci(bs, seq![108u8, 111, 111, 112]));
            },
            Token::BREAK => {
                assert forall|i: int| 0 <= i < bs.len() implies #[trigger] bs[i] == seq![98u8, 114, 101, 97, 107][i] by {
                    assert(bs[i] as char == cs[i]);
                    assert((bs[i] as char) as int == bs[i]);
                }
                assert(bs =~= seq![98u8, 114, 101, 97, 107]);
                assert(!eq_ci(bs, seq![109u8, 97, 116, 99, 104])) by {
                    assert(bs[0] != seq![109u8, 97, 116, 99, 104][0]);
                }
                assert(!eq_ci(bs, seq![119u8, 104, 105, 108, 101])) by {
                    assert(bs[0] != seq![119u8, 104, 105, 108, 101][0]);
                }
                assert(eq_ci(bs, seq![98u8, 114, 101, 97, 107]));
            },
            Token::OR => {
                assert forall|i: int| 0 <= i < bs.len() implies #[trigger] bs[i] == seq![111u8, 114][i] by {
                    assert(bs[i] as char == cs[i]);
                    assert((bs[i] as char) as int == bs[i]);
                }
                assert(bs =~= seq![111u8, 114]);
                assert(!eq_ci(bs, seq![105u8, 110])) by {
                    assert(bs[0] != seq![105u8, 110][0]);
                }
                assert(!eq_ci(bs, seq![105u8, 102])) by {
                    assert(bs[0] != seq![105u8, 102][0]);
                }
                assert(eq_ci(bs, seq![111u8, 114]));
            },
            Token::AND => {
                assert forall|i: int| 0 <= i < bs.len() implies #[trigger] bs[i] == seq![97u8, 110, 100][i] by {
                    assert(bs[i] as char == cs[i]);
                    assert((bs[i] as char) as int == bs[i]);
                }
                assert(bs =~= seq![97u8, 110, 100]);
                assert(!eq_ci(bs, seq![102u8, 111, 114])) by {
                    assert(bs[0] != seq![102u8, 111, 114][0]);
                }
                assert(eq_ci(bs, seq![97u8, 110, 100]));
            },
            Token::NOT => {
                assert forall|i: int| 0 <= i < bs.len() implies #[trigger] bs[i] == seq![110u8, 111, 116][i] by {
                    assert(bs[i] as char == cs[i]);
                    assert((bs[i] as char) as int == bs[i]);
                }
                assert(bs =~= seq![110u8, 111, 116]);
                assert(!eq_ci(bs, seq![102u8, 111, 114])) by {
                    assert(bs[0] != seq![102u8, 111, 114][0]);
                }
                assert(!eq_ci(bs, seq![97u8, 110, 100])) by {
                    assert(bs[0] != seq![97u8, 110, 100][0]);
                }
                assert(eq_ci(bs, seq![110u8, 111, 116]));
            },
            _ => {},
    }

    assert(lex_from(bs, 0) =~= seq![(x@, Span { start: 0, end: bs.len() as usize })]);
}

/// A printed boolean is `true` exactly when it is true and `false` exactly
/// when it is false, so the two print differently.
pub proof fn law_boolean_prints(b: bool)
    ensures
        show_value(ValueV::Primitive(PrimitiveV::Boolean(b))) == text("true"@) <==> b,
        show_value(ValueV::Primitive(PrimitiveV::Boolean(b))) == text("false"@) <==> !b,
        show_value(ValueV::Primitive(PrimitiveV::Boolean(b))) != show_value(
            ValueV::Primitive(PrimitiveV::Boolean(!b)),
        ),
{
    reveal_strlit("true");
    reveal_strlit("false");
    assert("true"@ != "false"@) by {
        assert("true"@.len() != "false"@.len());
    }
    assert(text("true"@)[0] == FragV::Text("true"@));
    assert(text("false"@)[0] == FragV::Text("false"@));
    if b {
        assert(text("true"@) != text("false"@)) by {
            assert(text("true"@)[0] != text("false"@)[0]);
        }
    } else {
        assert(text("true"@) != text("false"@)) by {
            assert(text("true"@)[0] != text("false"@)[0]);
        }
    }
}

} // verus!
