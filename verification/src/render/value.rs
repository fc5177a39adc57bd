use vstd::prelude::*;

use super::{frags, int_chars, int_text, join_parts, lemma_join_step, put, put_float, put_string, text, Frag, FragV};
use crate::hir::dict::dict_entries;
use crate::hir::value::{lemma_values_view, values_view, Collection, Primitive, PrimitiveV, Value, ValueV};

verus! {

/// How a value prints.  A string prints without quotes; a one-element tuple
/// with a trailing comma; a dictionary as its entries in order.
pub open spec fn show_value(v: ValueV) -> Seq<FragV>
    decreases v,
{
    match v {
        ValueV::Primitive(p) => match p {
            PrimitiveV::Boolean(b) => text(if b { "true"@ } else { "false"@ }),
            PrimitiveV::Integer(x) => text(int_chars(x as int)),
            PrimitiveV::Float(d) => seq![FragV::Float(d)],
            PrimitiveV::String(s) => text(s),
            PrimitiveV::Null => text("null"@),
            PrimitiveV::Undefined => text("undefined"@),
        },
        ValueV::Tuple(vs) => text("("@) + join_parts(show_values(vs), ", "@) + text(
            if vs.len() == 1 {
                ","@
            } else {
                ""@
            },
        ) + text(")"@),
        ValueV::List(vs) => text("["@) + join_parts(show_values(vs), ", "@) + text("]"@),
        ValueV::Dict(es) => text("{"@) + join_parts(show_entries(es), ", "@) + text("}"@),
        ValueV::Error => text("error"@),
    }
}

/// How each of the values prints.
pub open spec fn show_values(vs: Seq<ValueV>) -> Seq<Seq<FragV>>
    decreases vs,
{
    Seq::new(vs.len(), |i: int| if 0 <= i < vs.len() { show_value(vs[i]) } else { Seq::empty() })
}

/// How each entry of a dictionary prints: `key: value`.
pub open spec fn show_entries(es: Seq<(Seq<char>, ValueV)>) -> Seq<Seq<FragV>>
    decreases es,
{
    Seq::new(
        es.len(),
        |i: int|
            if 0 <= i < es.len() {
                text(es[i].0) + text(": "@) + show_value(es[i].1)
            } else {
                Seq::empty()
            },
    )
}

/// Renders a value, as `show_value` says.
pub fn render_value(v: &Value, out: &mut Vec<Frag>)
    ensures
        frags(final(out)@) == frags(old(out)@) + show_value(v@),
    decreases v@, 1int,
{
    let ghost o = frags(out@);
    match v {
        Value::Primitive(p) => match p {
            Primitive::Boolean(b) => {
                if *b {
                    put(out, "true");
                } else {
                    put(out, "false");
                }
            },
            Primitive::Integer(x) => put_string(out, int_text(*x as i64)),
            Primitive::Float(f) => put_float(out, f),
            Primitive::String(s) => put_string(out, s.clone()),
            Primitive::Null => put(out, "null"),
            Primitive::Undefined => put(out, "undefined"),
        },
        Value::Collection(Collection::Tuple(xs)) => {
            proof {
                lemma_values_view(xs@);
            }
            put(out, "(");
            proof {
                let vv = v@;
                assert(decreases_to!(vv => vv->Tuple_0));
            }
            render_values(xs, out);
            if xs.len() == 1 {
                put(out, ",");
            } else {
                put(out, "");
            }
            put(out, ")");
            proof {
                let vs = values_view(xs@);
                let j = join_parts(show_values(vs), ", "@);
                let t = text(if vs.len() == 1 { ","@ } else { ""@ });
                assert(v@ == ValueV::Tuple(vs));
                assert(show_value(v@) == text("("@) + j + t + text(")"@));
                assert(frags(out@) == o + text("("@) + j + t + text(")"@));
                assert(frags(out@) =~= o + show_value(v@));
            }
        },
        Value::Collection(Collection::List(xs)) => {
            put(out, "[");
            proof {
                let vv = v@;
                assert(decreases_to!(vv => vv->List_0));
            }
            render_values(xs, out);
            put(out, "]");
            proof {
                let vs = values_view(xs@);
                let j = join_parts(show_values(vs), ", "@);
                assert(v@ == ValueV::List(vs));
                assert(show_value(v@) == text("["@) + j + text("]"@));
                assert(frags(out@) == o + text("["@) + j + text("]"@));
                assert(frags(out@) =~= o + show_value(v@));
            }
        },
        Value::Collection(Collection::Dict(d)) => {
            put(out, "{");
            let es = d.entries();
            let ghost src = dict_entries(*d);
            let ghost parts = show_entries(src);
            let ghost o2 = frags(out@);
            let mut k: usize = 0;
            while k < es.len()
                invariant
                    k <= es@.len(),
                    es@.len() == src.len(),
                    v@ == ValueV::Dict(src),
                    parts.len() == src.len(),
                    forall|i: int| 0 <= i < src.len() ==> #[trigger] parts[i] == text(src[i].0) + text(
                        ": "@,
                    ) + show_value(src[i].1),
                    forall|a: int|
                        0 <= a < es@.len() ==> (#[trigger] es@[a]).0.0@ == src[a].0 && es@[a].1@
                            == src[a].1,
                    frags(out@) == o2 + join_parts(parts.take(k as int), ", "@),
                decreases es@.len() - k,
            {
                proof {
                    lemma_join_step(parts, ", "@, k as int);
                }
                let ghost before = frags(out@);
                if k > 0 {
                    put(out, ", ");
                }
                let (key, val) = es[k];
                put_string(out, key.0.clone());
                put(out, ": ");
                proof {
                    let vv = v@;
                    assert(decreases_to!(vv => vv->Dict_0));
                    let e = src[k as int];
                    assert(decreases_to!(src => src[k as int]));
                    assert(decreases_to!(e => e.1));
                }
                render_value(val, out);
                proof {
                    if k == 0 {
                        assert(frags(out@) =~= o2 + join_parts(parts.take(k + 1), ", "@));
                    } else {
                        assert(frags(out@) =~= o2 + join_parts(parts.take(k + 1), ", "@));
                    }
                }
                k = k + 1;
            }
            put(out, "}");
            proof {
                assert(parts.take(src.len() as int) =~= parts);
                assert(frags(out@) =~= o + show_value(v@));
            }
        },
        Value::Error => put(out, "error"),
    }
}

/// Renders values with `, ` between them.
fn render_values(xs: &Vec<Value>, out: &mut Vec<Frag>)
    ensures
        frags(final(out)@) == frags(old(out)@) + join_parts(show_values(values_view(xs@)), ", "@),
    decreases values_view(xs@), 0int,
{
    proof {
        lemma_values_view(xs@);
    }
    let ghost vs = values_view(xs@);
    let ghost parts = show_values(vs);
    let ghost o = frags(out@);
    let mut k: usize = 0;
    while k < xs.len()
        invariant
            k <= xs@.len(),
            vs == values_view(xs@),
            vs.len() == xs@.len(),
            forall|a: int| 0 <= a < xs@.len() ==> (#[trigger] xs@[a])@ == vs[a],
            parts.len() == vs.len(),
            forall|i: int| 0 <= i < vs.len() ==> #[trigger] parts[i] == show_value(vs[i]),
            frags(out@) == o + join_parts(parts.take(k as int), ", "@),
        decreases xs@.len() - k,
    {
        proof {
            lemma_join_step(parts, ", "@, k as int);
        }
        if k > 0 {
            put(out, ", ");
        }
        proof {
            assert(decreases_to!(vs => vs[k as int]));
        }
        render_value(&xs[k], out);
        proof {
            assert(frags(out@) =~= o + join_parts(parts.take(k + 1), ", "@));
        }
        k = k + 1;
    }
    proof {
        assert(parts.take(vs.len() as int) =~= parts);
    }
}

impl Value {
    /// How the value prints, as pieces of text and floats.
    pub fn render(&self) -> (r: Vec<Frag>)
        ensures
            frags(r@) == show_value(self@),
    {
        let mut out: Vec<Frag> = Vec::new();
        render_value(self, &mut out);
        assert(frags(Seq::<Frag>::empty()) =~= Seq::<FragV>::empty());
        assert(Seq::<FragV>::empty() + show_value(self@) =~= show_value(self@));
        out
    }
}

} // verus!
