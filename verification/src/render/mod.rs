pub mod ast;
pub mod value;
pub mod laws;

use vstd::prelude::*;

use crate::lexer::lit::{ascii_chars, ascii_string};
use crate::lexer::token::FloatLit;
use crate::ast::{CommaList, Id};
use crate::hir::value::Value;
use crate::types::node::{BaseNode, Node};
use value::{render_value, show_value};
use vstd::string::StringExecFns;

verus! {

/// A piece of rendered text.  A float is kept as the digits of its literal:
/// how a float prints is left to the caller.
#[derive(Debug, PartialEq)]
pub enum Frag {
    Text(String),
    Float(FloatLit),
}

/// The view of a piece of rendered text.
pub enum FragV {
    Text(Seq<char>),
    Float(Seq<char>),
}

impl View for Frag {
    type V = FragV;

    open spec fn view(&self) -> FragV {
        match self {
            Frag::Text(s) => FragV::Text(s@),
            Frag::Float(f) => FragV::Float(f.digits@),
        }
    }
}

/// The views of rendered pieces.
pub open spec fn frags(s: Seq<Frag>) -> Seq<FragV> {
    Seq::new(s.len(), |i: int| s[i]@)
}

/// Text alone.
pub open spec fn text(s: Seq<char>) -> Seq<FragV> {
    seq![FragV::Text(s)]
}

/// The parts with `d` between each two of them.
pub open spec fn join_parts(parts: Seq<Seq<FragV>>, d: Seq<char>) -> Seq<FragV>
    decreases parts.len(),
{
    if parts.len() == 0 {
        Seq::empty()
    } else if parts.len() == 1 {
        parts[0]
    } else {
        join_parts(parts.drop_last(), d) + text(d) + parts.last()
    }
}

/// Joining one more part.
pub proof fn lemma_join_step(parts: Seq<Seq<FragV>>, d: Seq<char>, k: int)
    requires
        0 <= k < parts.len(),
    ensures
        join_parts(parts.take(k + 1), d) == if k == 0 {
            parts[0]
        } else {
            join_parts(parts.take(k), d) + text(d) + parts[k]
        },
{
    assert(parts.take(k + 1).drop_last() =~= parts.take(k));
    if k == 0 {
        assert(parts.take(1)[0] == parts[0]);
    }
}

/// Adds text to the rendered pieces.
pub fn put(out: &mut Vec<Frag>, s: &str)
    ensures
        frags(final(out)@) == frags(old(out)@) + text(s@),
{
    let ghost o = out@;
    out.push(Frag::Text(String::from_str(s)));
    assert(frags(out@) =~= frags(o) + text(s@));
}

/// Adds owned text to the rendered pieces.
pub fn put_string(out: &mut Vec<Frag>, s: String)
    ensures
        frags(final(out)@) == frags(old(out)@) + text(s@),
{
    let ghost o = out@;
    let ghost v = s@;
    out.push(Frag::Text(s));
    assert(frags(out@) =~= frags(o) + text(v));
}

/// Adds a float to the rendered pieces.
pub fn put_float(out: &mut Vec<Frag>, f: &FloatLit)
    ensures
        frags(final(out)@) == frags(old(out)@) + seq![FragV::Float(f.digits@)],
{
    let ghost o = out@;
    out.push(Frag::Float(f.copy()));
    assert(frags(out@) =~= frags(o) + seq![FragV::Float(f.digits@)]);
}

/// The decimal digits of `n`.
pub open spec fn nat_chars(n: nat) -> Seq<char>
    decreases n,
{
    if n < 10 {
        seq![(48 + n) as char]
    } else {
        nat_chars(n / 10).push((48 + n % 10) as char)
    }
}

/// An integer as `{}` prints it: a minus sign before a negative one.
pub open spec fn int_chars(x: int) -> Seq<char> {
    if x < 0 {
        seq!['-'] + nat_chars((-x) as nat)
    } else {
        nat_chars(x as nat)
    }
}

/// The decimal digits of `n`, as bytes.
pub open spec fn nat_bytes(n: nat) -> Seq<u8>
    decreases n,
{
    if n < 10 {
        seq![(48 + n) as u8]
    } else {
        nat_bytes(n / 10).push((48 + n % 10) as u8)
    }
}

/// The digits as bytes are ASCII and stand for the digits as characters.
pub proof fn lemma_nat_bytes(n: nat)
    ensures
        ascii_chars(nat_bytes(n)) == nat_chars(n),
        forall|i: int| 0 <= i < nat_bytes(n).len() ==> 48 <= #[trigger] nat_bytes(n)[i] < 58,
        nat_bytes(n).len() >= 1,
    decreases n,
{
    if n >= 10 {
        lemma_nat_bytes(n / 10);
        assert(ascii_chars(nat_bytes(n)) =~= nat_chars(n));
    } else {
        assert(ascii_chars(nat_bytes(n)) =~= nat_chars(n));
    }
}

/// The decimal text of `n`.
pub fn nat_text(n: u64) -> (r: String)
    ensures
        r@ == nat_chars(n as nat),
{
    let mut digits: Vec<u8> = Vec::new();
    let mut m = n;
    let ghost mut done: Seq<u8> = Seq::empty();
    loop
        invariant_except_break
            nat_bytes(n as nat) == nat_bytes(m as nat) + done,
        invariant
            digits@ == done.reverse(),
        ensures
            nat_bytes(n as nat) == done,
        decreases m,
    {
        if m < 10 {
            proof {
                assert(nat_bytes(m as nat) =~= seq![(48 + m) as u8]);
            }
            digits.push((48 + m) as u8);
            proof {
                done = seq![(48 + m) as u8] + done;
                assert(digits@ =~= done.reverse());
                assert(nat_bytes(n as nat) =~= done);
            }
            break;
        }
        let d = (m % 10) as u8;
        proof {
            assert(nat_bytes(m as nat) == nat_bytes((m / 10) as nat).push((48 + m % 10) as u8));
            assert(nat_bytes((m / 10) as nat).push((48 + d) as u8) + done =~= nat_bytes((m / 10) as nat)
                + (seq![(48 + d) as u8] + done));
        }
        digits.push(48 + d);
        proof {
            done = seq![(48 + d) as u8] + done;
            assert(digits@ =~= done.reverse());
        }
        m = m / 10;
    }
    let mut bytes: Vec<u8> = Vec::new();
    let mut i: usize = digits.len();
    while i > 0
        invariant
            i <= digits@.len(),
            digits@ == done.reverse(),
            nat_bytes(n as nat) == done,
            bytes@ == done.subrange(0, digits@.len() - i),
        decreases i,
    {
        i = i - 1;
        bytes.push(digits[i]);
        proof {
            assert(bytes@ =~= done.subrange(0, digits@.len() - i));
        }
    }
    proof {
        assert(bytes@ =~= nat_bytes(n as nat));
        lemma_nat_bytes(n as nat);
    }
    ascii_string(bytes.as_slice())
}

/// The decimal text of `x`, with a minus sign when it is negative.
pub fn int_text(x: i64) -> (r: String)
    requires
        x > i64::MIN,
    ensures
        r@ == int_chars(x as int),
{
    if x < 0 {
        let digits = nat_text((-x) as u64);
        let mut s = String::from_str("-");
        s.append(digits.as_str());
        proof {
            reveal_strlit("-");
        }
        s
    } else {
        nat_text(x as u64)
    }
}

/// What can be rendered: `shown` says how it prints.
pub trait Render {
    spec fn shown(&self) -> Seq<FragV>;

    fn render_into(&self, out: &mut Vec<Frag>)
        ensures
            frags(final(out)@) == frags(old(out)@) + self.shown(),
    ;
}

/// How each of the nodes prints.
pub open spec fn shown_parts<T: Render>(nodes: Seq<Node<T>>) -> Seq<Seq<FragV>> {
    Seq::new(nodes.len(), |i: int| nodes[i].data.shown())
}

impl<N, T: Render> BaseNode<N, T> {
    /// The nodes rendered with `delim` between each two of them.
    pub fn join(nodes: &[Node<T>], delim: &str) -> (r: Vec<Frag>)
        ensures
            frags(r@) == join_parts(shown_parts(nodes@), delim@),
    {
        let ghost parts = shown_parts(nodes@);
        let mut out: Vec<Frag> = Vec::new();
        let mut k: usize = 0;
        assert(frags(out@) =~= join_parts(parts.take(0), delim@));
        while k < nodes.len()
            invariant
                k <= nodes@.len(),
                parts == shown_parts(nodes@),
                frags(out@) == join_parts(parts.take(k as int), delim@),
            decreases nodes@.len() - k,
        {
            proof {
                lemma_join_step(parts, delim@, k as int);
            }
            if k > 0 {
                put(&mut out, delim);
            }
            nodes[k].data.render_into(&mut out);
            proof {
                assert(frags(out@) =~= join_parts(parts.take(k + 1), delim@));
            }
            k = k + 1;
        }
        proof {
            assert(parts.take(nodes@.len() as int) =~= parts);
        }
        out
    }

    /// As `join`, with `delim1` after a single node.
    pub fn join1(nodes: &[Node<T>], delim: &str, delim1: &str) -> (r: Vec<Frag>)
        ensures
            frags(r@) == join_parts(shown_parts(nodes@), delim@) + text(
                if nodes@.len() == 1 {
                    delim1@
                } else {
                    ""@
                },
            ),
    {
        let mut out = Self::join(nodes, delim);
        if nodes.len() == 1 {
            put(&mut out, delim1);
        } else {
            put(&mut out, "");
        }
        out
    }
}

/// Adds rendered pieces after others.
pub fn put_all(out: &mut Vec<Frag>, more: Vec<Frag>)
    ensures
        frags(final(out)@) == frags(old(out)@) + frags(more@),
{
    let ghost o = out@;
    let ghost m = more@;
    let mut more = more;
    out.append(&mut more);
    assert(frags(out@) =~= frags(o) + frags(m));
}

impl<T: Render> Render for CommaList<T> {
    open spec fn shown(&self) -> Seq<FragV> {
        join_parts(shown_parts(self.0@), ", "@)
    }

    fn render_into(&self, out: &mut Vec<Frag>) {
        put_all(out, Node::join(self.0.as_slice(), ", "));
    }
}

impl Render for Id {
    open spec fn shown(&self) -> Seq<FragV> {
        text(self.0@)
    }

    fn render_into(&self, out: &mut Vec<Frag>) {
        put_string(out, self.0.clone());
    }
}

impl Render for Value {
    open spec fn shown(&self) -> Seq<FragV> {
        show_value(self@)
    }

    fn render_into(&self, out: &mut Vec<Frag>) {
        render_value(self, out);
    }
}

} // verus!
