use vstd::prelude::*;

use super::scan::{int_text, str_text};

verus! {

/// What `syn` reads from `text` as a Rust integer literal: `None` when
/// `syn::parse_str::<syn::LitInt>` refuses the text, `Some(None)` when it is a
/// literal whose value `LitInt::base10_parse::<i32>` cannot give, and
/// `Some(Some(v))` for its value `v`.
pub uninterp spec fn syn_int(text: Seq<u8>) -> Option<Option<i32>>;

/// The decimal digits (`LitFloat::base10_digits`) of `text` read by
/// `syn::parse_str::<syn::LitFloat>` as a Rust float literal; `None` when the
/// text is no float literal.
pub uninterp spec fn syn_float(text: Seq<u8>) -> Option<Seq<char>>;

/// The value (`LitStr::value`) of `text` read by `syn::parse_str::<syn::LitStr>`
/// as a Rust string literal, plain or raw; `None` when it is none.
pub uninterp spec fn syn_str(text: Seq<u8>) -> Option<Seq<char>>;

/// The characters that the ASCII bytes `b` stand for.
pub open spec fn ascii_chars(b: Seq<u8>) -> Seq<char> {
    Seq::new(b.len(), |i: int| b[i] as char)
}

/// Calls `syn::parse_str::<syn::LitInt>` on the text, then
/// `LitInt::base10_parse::<i32>` on the literal; the contract claims only that
/// the outcome is a function of the text (`syn_int`).  The text must start
/// with a digit: `syn` panics on some other literals that its tokenizer
/// accepts (a C string such as `c"a"`).
#[verifier::external_body]
pub(crate) fn lit_int(text: &[u8]) -> (r: Option<Option<i32>>)
    requires
        int_text(text@),
    ensures
        r == syn_int(text@),
{
    match std::str::from_utf8(text) {
        Ok(s) => match syn::parse_str::<syn::LitInt>(s) {
            Ok(n) => Some(n.base10_parse::<i32>().ok()),
            Err(_) => None,
        },
        Err(_) => None,
    }
}

/// Calls `syn::parse_str::<syn::LitFloat>` on the text and hands back
/// `LitFloat::base10_digits`; the contract claims only that the outcome is a
/// function of the text (`syn_float`).  The text must start with a digit, as
/// for `lit_int`.
#[verifier::external_body]
pub(crate) fn lit_float(text: &[u8]) -> (r: Option<String>)
    requires
        int_text(text@),
    ensures
        r matches Some(d) ==> syn_float(text@) == Some(d@),
        r is None ==> syn_float(text@) is None,
{
    match std::str::from_utf8(text) {
        Ok(s) => match syn::parse_str::<syn::LitFloat>(s) {
            Ok(n) => Some(n.base10_digits().to_string()),
            Err(_) => None,
        },
        Err(_) => None,
    }
}

/// Calls `syn::parse_str::<syn::LitStr>` on the text and hands back
/// `LitStr::value`; the contract claims only that the outcome is a function of
/// the text (`syn_str`).  The text must start as a plain or raw string
/// literal does (`str_text`), so that `syn` reads it as a string.
#[verifier::external_body]
pub(crate) fn lit_str(text: &[u8]) -> (r: Option<String>)
    requires
        str_text(text@),
    ensures
        r matches Some(d) ==> syn_str(text@) == Some(d@),
        r is None ==> syn_str(text@) is None,
{
    match std::str::from_utf8(text) {
        Ok(s) => match syn::parse_str::<syn::LitStr>(s) {
            Ok(n) => Some(n.value()),
            Err(_) => None,
        },
        Err(_) => None,
    }
}

/// `String::from_utf8` on ASCII bytes: std documents that valid UTF-8 is
/// taken as it is, and an ASCII byte is the character of the same number.
#[verifier::external_body]
pub(crate) fn ascii_string(b: &[u8]) -> (r: String)
    requires
        forall|i: int| 0 <= i < b@.len() ==> b@[i] < 128,
    ensures
        r@ == ascii_chars(b@),
{
    match String::from_utf8(b.to_vec()) {
        Ok(s) => s,
        Err(_) => String::new(),
    }
}

} // verus!
