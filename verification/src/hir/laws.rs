use vstd::prelude::*;

use super::compile::{dict_known, is_known, known_value, lemma_list_known, lemma_placed_item, placed_item};
use super::dict::{
    dict_entries,
    entries_insert,
    entries_merge,
    keys_distinct,
    lemma_insert_keys,
    lemma_merge_distinct,
    lemma_merge_empty,
    Entries,
};
use super::instruction::{dict_from, exec_ins, exec_node, Action, DictItem, Error, Instruction, ListItem, Table};
use super::meaning::{agree, agree_node, compilable_expr};
use super::shape::{compiled, dicts_compiled, lists_compiled, dict_folded, known_values, lead_count, lead_entries, lead_step, lemma_lead_step, lemma_lead_stop, list_folded};
use super::value::{Collection, Value, ValueV};
use crate::ast::{Atom, Expr, Primary};
use crate::types::node::{BaseNode, Node};

verus! {

/// Folding a tuple or a list display into the constant collection of its
/// items changes nothing when it runs: on any variables, the folded
/// instruction and the display give the same value and leave the same
/// variables.
pub proof fn law_fold_list(r: Instruction, cs: Vec<Node<ListItem<Instruction>>>, tuple: bool, m: Table)
    requires
        list_folded(r, cs, tuple),
    ensures
        exec_ins(r, m) == exec_ins(
            if tuple {
                Instruction::Action(Action::Tuple(cs))
            } else {
                Instruction::Action(Action::ListDisplay(cs))
            },
            m,
        ),
{
    if forall|k: int| 0 <= k < cs@.len() ==> is_known(#[trigger] *cs@[k].data) {
        lemma_list_known(cs@, m, Seq::empty());
        assert(Seq::<ValueV>::empty() + known_values(cs@) =~= known_values(cs@));
    }
}

/// Running a display's items from the entries `acc` first takes the known
/// items that lead it, which change no variable, into the entries.
pub proof fn lemma_lead_run(g: Seq<Node<DictItem<Instruction>>>, m: Table, acc: Entries)
    requires
        keys_distinct(acc),
    ensures
        dict_from(g, m, acc) == dict_from(g.subrange(lead_count(g) as int, g.len() as int), m, lead_entries(g, acc)),
        keys_distinct(lead_entries(g, acc)),
        lead_count(g) <= g.len(),
    decreases g.len(),
{
    if g.len() > 0 && dict_known(*g[0].data) {
        lemma_lead_step(g, acc);
        let rest = g.subrange(1, g.len() as int);
        let next = lead_step(acc, *g[0].data);
        match *g[0].data {
            DictItem::KeyVal { key, val } => {
                let v = (*val.data)->Value_0;
                assert(exec_node(val, m) == Ok::<(Table, ValueV), Node<Error>>((m, v@)));
                lemma_insert_keys(acc, key.data.0@, v@);
                assert(next == entries_insert(acc, key.data.0@, v@));
            },
            DictItem::Spread(x) => {
                let d = (*x.data)->Value_0->Collection_0->Dict_0;
                assert(exec_node(x, m) == Ok::<(Table, ValueV), Node<Error>>((m, ValueV::Dict(dict_entries(d)))));
                lemma_merge_distinct(acc, dict_entries(d));
                assert(next == entries_merge(acc, dict_entries(d)));
            },
            _ => {},
        }
        assert(dict_from(g, m, acc) == dict_from(rest, m, next));
        lemma_lead_run(rest, m, next);
        assert(rest.subrange(lead_count(rest) as int, rest.len() as int) =~= g.subrange(
            lead_count(g) as int,
            g.len() as int,
        ));
    } else {
        lemma_lead_stop(g, acc);
        assert(g.subrange(0, g.len() as int) =~= g);
    }
}

/// Folding the known items that lead a dictionary display into a constant
/// dictionary changes nothing when it runs: on any variables, the folded
/// instruction and the display both fail, or both give the same value and
/// leave the same variables.
pub proof fn law_fold_dict(r: Instruction, cs: Vec<Node<DictItem<Instruction>>>, m: Table)
    requires
        dict_folded(r, cs),
    ensures
        agree(exec_ins(r, m), exec_ins(Instruction::Action(Action::DictDisplay(cs)), m)),
{
    let g = cs@;
    let p = lead_count(g) as int;
    let es = lead_entries(g, Seq::empty());
    lemma_lead_run(g, m, Seq::empty());
    if p == g.len() {
        assert(g.subrange(p, g.len() as int) =~= Seq::<Node<DictItem<Instruction>>>::empty());
    } else {
        let out = (r)->Action_0->DictDisplay_0;
        let o = out@;
        let rest = g.subrange(p + 1, g.len() as int);
        let span = g[p].span;
        let tail = seq![BaseNode { span, data: Box::new(placed_item(*g[p].data, span)) }] + rest;
        assert(o.subrange(1, o.len() as int) =~= tail);
        let x = (*o[0].data)->Spread_0;
        let d = (*x.data)->Value_0->Collection_0->Dict_0;
        assert(exec_node(x, m) == Ok::<(Table, ValueV), Node<Error>>((m, ValueV::Dict(es))));
        lemma_merge_empty(es);
        assert(dict_from(o, m, Seq::empty()) == dict_from(tail, m, es));
        lemma_placed_item(g[p], span, rest, m, es);
        assert(g.subrange(p, g.len() as int) =~= seq![g[p]] + rest);
    }
}

/// Parentheses are transparent to the compiler: the instructions that a
/// parenthesized expression compiles to are exactly those of the expression
/// inside, and the compiler handles the one exactly when it handles the
/// other.
pub proof fn law_paren_transparent(r: Instruction, x: Node<Expr>)
    ensures
        compiled(r, Expr::Primary(Primary::Atom(Atom::Paren(x)))) <==> compiled(r, *x.data),
        compilable_expr(Expr::Primary(Primary::Atom(Atom::Paren(x)))) <==> compilable_expr(*x.data),
{
}


/// What the compiler builds for a tuple, list or dictionary display runs as
/// the display of its compiled items would: for a tuple or list the same
/// value and variables on any variables; for a dictionary both fail, or both
/// give the same value and variables.
pub proof fn law_compiled_display(r: Instruction, a: Atom, m: Table)
    requires
        compiled(r, Expr::Primary(Primary::Atom(a))),
    ensures
        a matches Atom::Tuple(items) ==> exists|cs: Vec<Node<ListItem<Instruction>>>|
            lists_compiled(cs@, items@) && #[trigger] exec_ins(r, m) == exec_ins(Instruction::Action(Action::Tuple(cs)), m),
        a matches Atom::ListDisplay(items) ==> exists|cs: Vec<Node<ListItem<Instruction>>>|
            lists_compiled(cs@, items@) && #[trigger] exec_ins(r, m) == exec_ins(Instruction::Action(Action::ListDisplay(cs)), m),
        a matches Atom::DictDisplay(items) ==> exists|cs: Vec<Node<DictItem<Instruction>>>|
            dicts_compiled(cs@, items@) && agree(
                exec_ins(r, m),
                #[trigger] exec_ins(Instruction::Action(Action::DictDisplay(cs)), m),
            ),
{
    match a {
        Atom::Tuple(items) => {
            let cs = choose|cs: Vec<Node<ListItem<Instruction>>>| lists_compiled(cs@, items@) && #[trigger] list_folded(r, cs, true);
            law_fold_list(r, cs, true, m);
        },
        Atom::ListDisplay(items) => {
            let cs = choose|cs: Vec<Node<ListItem<Instruction>>>| lists_compiled(cs@, items@) && #[trigger] list_folded(r, cs, false);
            law_fold_list(r, cs, false, m);
        },
        Atom::DictDisplay(items) => {
            let cs = choose|cs: Vec<Node<DictItem<Instruction>>>| dicts_compiled(cs@, items@) && #[trigger] dict_folded(r, cs);
            law_fold_dict(r, cs, m);
        },
        _ => {},
    }
}

} // verus!
