use vstd::prelude::*;

use super::dict::{dict_entries, entries_merge, Dict, Entries};
use super::instruction::{
    args_from, block_from, dict_from, exec_ins, exec_node, list_from, wrap, Action, Args, Block,
    DictItem, Error, Instruction, ListItem, Outcome, Table,
};
use super::symbol::SymbolTable;
use super::value::{lemma_values_view, undefined, values_view, Collection, Primitive, Value, ValueV};
use crate::ast::Id;
use crate::types::node::Node;

verus! {

/// The views of `a` followed by `b` are those of `a` followed by those of `b`.
pub proof fn lemma_values_view_append(a: Seq<Value>, b: Seq<Value>)
    ensures
        values_view(a + b) == values_view(a) + values_view(b),
{
    lemma_values_view(a);
    lemma_values_view(b);
    lemma_values_view(a + b);
    assert(values_view(a + b) =~= values_view(a) + values_view(b));
}

/// Pushing a value adds its view.
pub proof fn lemma_values_view_push(a: Seq<Value>, v: Value)
    ensures
        values_view(a.push(v)) == values_view(a).push(v@),
{
    assert(a.push(v).subrange(0, a.len() as int) =~= a);
}

/// Whether a run's result is the outcome `o`: on success, the variables and
/// the value by their views.
pub open spec fn yields(r: Result<(SymbolTable, Value), Error>, o: Outcome) -> bool {
    match r {
        Ok((t, v)) => o == Outcome::Ok((t.view(), v@)),
        Err(e) => o == Outcome::Err(e),
    }
}

/// Runs an instruction.
pub fn exec_instruction(ins: &Instruction, i: SymbolTable) -> (r: Result<(SymbolTable, Value), Error>)
    ensures
        yields(r, exec_ins(*ins, i.view())),
    decreases ins,
{
    match ins {
        Instruction::Value(x) => Ok((i, x.copy())),
        Instruction::Variable(key) => {
            let mut t = i;
            let v = t.get(key.copy());
            Ok((t, v))
        },
        Instruction::Action(a) => exec_action(a, i),
        Instruction::Block(b) => run_block(&b.0, i),
        Instruction::Assign(key, val) => match exec_node_fn(val, i) {
            Ok((t, v)) => {
                let mut t = t;
                t.set(key.copy(), v.copy());
                Ok((t, v))
            },
            Err(x) => Err(Error::Node(x)),
        },
        Instruction::Symbol(x) => Ok((i, x.copy())),
    }
}

/// Runs an action.
pub fn exec_action(a: &Action, i: SymbolTable) -> (r: Result<(SymbolTable, Value), Error>)
    ensures
        yields(r, exec_ins(Instruction::Action(*a), i.view())),
    decreases a,
{
    match a {
        Action::Tuple(items) => match run_list(items, i) {
            Ok((t, vs)) => Ok((t, Value::Collection(Collection::Tuple(vs)))),
            Err(e) => Err(e),
        },
        Action::ListDisplay(items) => match run_list(items, i) {
            Ok((t, vs)) => Ok((t, Value::Collection(Collection::List(vs)))),
            Err(e) => Err(e),
        },
        Action::DictDisplay(items) => match run_dict(items, i) {
            Ok((t, d)) => Ok((t, Value::Collection(Collection::Dict(d)))),
            Err(e) => Err(e),
        },
    }
}

/// Runs a node; an error gets the node's place unless it has one.
pub fn exec_node_fn(n: &Node<Instruction>, i: SymbolTable) -> (r: Result<
    (SymbolTable, Value),
    Node<Error>,
>)
    ensures
        match r {
            Ok((t, v)) => exec_node(*n, i.view()) == Ok::<(Table, ValueV), Node<Error>>((t.view(), v@)),
            Err(e) => exec_node(*n, i.view()) == Err::<(Table, ValueV), Node<Error>>(e),
        },
    decreases n,
{
    match exec_instruction(&n.data, i) {
        Ok(x) => Ok(x),
        Err(Error::Node(x)) => Err(x),
        Err(e) => Err(Node::new(n.span, e)),
    }
}

/// Runs the nodes in order: the last value, undefined for none.
pub fn run_block(s: &Vec<Node<Instruction>>, i: SymbolTable) -> (r: Result<(SymbolTable, Value), Error>)
    ensures
        yields(r, block_from(s@, i.view(), undefined())),
    decreases s@,
{
    let ghost m0 = i.view();
    assert(s@.subrange(0, s@.len() as int) =~= s@);
    let mut t = i;
    let mut v = Value::Primitive(Primitive::Undefined);
    let mut k: usize = 0;
    while k < s.len()
        invariant
            k <= s@.len(),
            m0 == i.view(),
            block_from(s@, m0, undefined()) == block_from(
                s@.subrange(k as int, s@.len() as int),
                t.view(),
                v@,
            ),
        decreases s@.len() - k,
    {
        let ghost rest = s@.subrange(k as int, s@.len() as int);
        assert(rest[0] == s@[k as int]);
        assert(rest.subrange(1, rest.len() as int) =~= s@.subrange(k + 1, s@.len() as int));
        match exec_node_fn(&s[k], t) {
            Ok((t2, v2)) => {
                t = t2;
                v = v2;
            },
            Err(x) => {
                return Err(Error::Node(x));
            },
        }
        k = k + 1;
    }
    Ok((t, v))
}

/// The values of tuple or list items, in order.
pub fn run_list(s: &Vec<Node<ListItem<Instruction>>>, i: SymbolTable) -> (r: Result<
    (SymbolTable, Vec<Value>),
    Error,
>)
    ensures
        match r {
            Ok((t, vs)) => list_from(s@, i.view(), Seq::empty()) == Ok::<(Table, Seq<ValueV>), Error>(
                (t.view(), values_view(vs@)),
            ),
            Err(e) => list_from(s@, i.view(), Seq::empty()) == Err::<(Table, Seq<ValueV>), Error>(e),
        },
    decreases s@,
{
    let ghost m0 = i.view();
    assert(s@.subrange(0, s@.len() as int) =~= s@);
    let mut t = i;
    let mut out: Vec<Value> = Vec::new();
    let mut k: usize = 0;
    while k < s.len()
        invariant
            k <= s@.len(),
            m0 == i.view(),
            list_from(s@, m0, Seq::empty()) == list_from(
                s@.subrange(k as int, s@.len() as int),
                t.view(),
                values_view(out@),
            ),
        decreases s@.len() - k,
    {
        let ghost rest = s@.subrange(k as int, s@.len() as int);
        assert(rest[0] == s@[k as int]);
        assert(rest.subrange(1, rest.len() as int) =~= s@.subrange(k + 1, s@.len() as int));
        match &*s[k].data {
            ListItem::Expr(x) => match exec_instruction(x, t) {
                Ok((t2, v)) => {
                    proof {
                        lemma_values_view_push(out@, v);
                    }
                    out.push(v);
                    t = t2;
                },
                Err(e) => {
                    return Err(e);
                },
            },
            ListItem::Spread(x) => match exec_instruction(x, t) {
                Ok((t2, Value::Collection(Collection::List(vs)))) => {
                    let mut vs = vs;
                    proof {
                        lemma_values_view_append(out@, vs@);
                    }
                    out.append(&mut vs);
                    t = t2;
                },
                Ok((t2, Value::Collection(Collection::Tuple(vs)))) => {
                    let mut vs = vs;
                    proof {
                        lemma_values_view_append(out@, vs@);
                    }
                    out.append(&mut vs);
                    t = t2;
                },
                Ok(_) => {
                    return Err(Error::TypeMismatch);
                },
                Err(e) => {
                    return Err(e);
                },
            },
        }
        k = k + 1;
    }
    Ok((t, out))
}

/// Inserts the entries of `src`, in order, into `acc`.
pub fn merge_into(acc: &mut Dict, src: Dict)
    ensures
        dict_entries(*final(acc)) == entries_merge(dict_entries(*old(acc)), dict_entries(src)),
{
    let ghost es = dict_entries(src);
    let ghost a0 = dict_entries(*acc);
    let items = src.into_entries();
    let mut items = items;
    let mut j: usize = 0;
    let n = items.len();
    let mut rev: Vec<(Id, Value)> = Vec::new();
    while items.len() > 0
        invariant
            items@.len() + rev@.len() == n,
            n == es.len(),
            forall|a: int|
                0 <= a < items@.len() ==> (#[trigger] items@[a]).0.0@ == es[a].0 && items@[a].1@
                    == es[a].1,
            forall|a: int|
                0 <= a < rev@.len() ==> (#[trigger] rev@[a]).0.0@ == es[n - 1 - a].0 && rev@[a].1@
                    == es[n - 1 - a].1,
        decreases items@.len(),
    {
        let x = items.pop().unwrap();
        rev.push(x);
    }
    while j < n
        invariant
            j <= n,
            n == es.len(),
            rev@.len() == n - j,
            forall|a: int|
                0 <= a < rev@.len() ==> (#[trigger] rev@[a]).0.0@ == es[n - 1 - a].0 && rev@[a].1@
                    == es[n - 1 - a].1,
            dict_entries(*acc) == entries_merge(a0, es.take(j as int)),
        decreases n - j,
    {
        let (k, v) = rev.pop().unwrap();
        proof {
            assert(es.take(j + 1).drop_last() =~= es.take(j as int));
            assert(es.take(j + 1).last() == es[j as int]);
        }
        acc.insert(k, v);
        j = j + 1;
    }
    proof {
        assert(es.take(n as int) =~= es);
    }
}

/// The entries of dictionary items, in order.
pub fn run_dict(s: &Vec<Node<DictItem<Instruction>>>, i: SymbolTable) -> (r: Result<
    (SymbolTable, Dict),
    Error,
>)
    ensures
        match r {
            Ok((t, d)) => dict_from(s@, i.view(), Seq::empty()) == Ok::<(Table, Entries), Error>(
                (t.view(), dict_entries(d)),
            ),
            Err(e) => dict_from(s@, i.view(), Seq::empty()) == Err::<(Table, Entries), Error>(e),
        },
    decreases s@,
{
    let ghost m0 = i.view();
    assert(s@.subrange(0, s@.len() as int) =~= s@);
    let mut t = i;
    let mut acc = Dict::new();
    let mut k: usize = 0;
    while k < s.len()
        invariant
            k <= s@.len(),
            m0 == i.view(),
            dict_from(s@, m0, Seq::empty()) == dict_from(
                s@.subrange(k as int, s@.len() as int),
                t.view(),
                dict_entries(acc),
            ),
        decreases s@.len() - k,
    {
        let ghost rest = s@.subrange(k as int, s@.len() as int);
        assert(rest[0] == s@[k as int]);
        assert(rest.subrange(1, rest.len() as int) =~= s@.subrange(k + 1, s@.len() as int));
        match &*s[k].data {
            DictItem::KeyVal { key, val } => match exec_node_fn(val, t) {
                Ok((t2, v)) => {
                    acc.insert(key.data.copy(), v);
                    t = t2;
                },
                Err(x) => {
                    return Err(Error::Node(x));
                },
            },
            DictItem::DynKeyVal { key, val } => match exec_node_fn(key, t) {
                Ok((t2, Value::Primitive(Primitive::String(name)))) => match exec_node_fn(val, t2) {
                    Ok((t3, v)) => {
                        acc.insert(Id(name), v);
                        t = t3;
                    },
                    Err(x) => {
                        return Err(Error::Node(x));
                    },
                },
                Ok(_) => {
                    return Err(Error::TypeMismatch);
                },
                Err(x) => {
                    return Err(Error::Node(x));
                },
            },
            DictItem::Shorthand(x) => {
                let v = t.get(x.copy());
                acc.insert(x.copy(), v);
            },
            DictItem::Spread(x) => match exec_node_fn(x, t) {
                Ok((t2, Value::Collection(Collection::Dict(d)))) => {
                    merge_into(&mut acc, d);
                    t = t2;
                },
                Ok(_) => {
                    return Err(Error::TypeMismatch);
                },
                Err(x) => {
                    return Err(Error::Node(x));
                },
            },
        }
        k = k + 1;
    }
    Ok((t, acc))
}

/// The values of the argument nodes, in order.
pub fn run_args(s: &Vec<Node<Instruction>>, i: SymbolTable) -> (r: Result<(SymbolTable, Vec<Value>), Error>)
    ensures
        match r {
            Ok((t, vs)) => args_from(s@, i.view(), Seq::empty()) == Ok::<(Table, Seq<ValueV>), Error>(
                (t.view(), values_view(vs@)),
            ),
            Err(e) => args_from(s@, i.view(), Seq::empty()) == Err::<(Table, Seq<ValueV>), Error>(e),
        },
{
    let ghost m0 = i.view();
    assert(s@.subrange(0, s@.len() as int) =~= s@);
    let mut t = i;
    let mut out: Vec<Value> = Vec::new();
    let mut k: usize = 0;
    while k < s.len()
        invariant
            k <= s@.len(),
            m0 == i.view(),
            args_from(s@, m0, Seq::empty()) == args_from(
                s@.subrange(k as int, s@.len() as int),
                t.view(),
                values_view(out@),
            ),
        decreases s@.len() - k,
    {
        let ghost rest = s@.subrange(k as int, s@.len() as int);
        assert(rest[0] == s@[k as int]);
        assert(rest.subrange(1, rest.len() as int) =~= s@.subrange(k + 1, s@.len() as int));
        match exec_node_fn(&s[k], t) {
            Ok((t2, v)) => {
                proof {
                    lemma_values_view_push(out@, v);
                }
                out.push(v);
                t = t2;
            },
            Err(x) => {
                return Err(Error::Node(x));
            },
        }
        k = k + 1;
    }
    Ok((t, out))
}

/// Running something compiled against an input.
pub trait Exec<U, V, E> {
    fn exec(&self, i: U) -> Result<V, E>;
}

impl Exec<SymbolTable, (SymbolTable, Value), Error> for Instruction {
    fn exec(&self, i: SymbolTable) -> (r: Result<(SymbolTable, Value), Error>)
        ensures
            yields(r, exec_ins(*self, i.view())),
    {
        exec_instruction(self, i)
    }
}

impl Exec<SymbolTable, (SymbolTable, Value), Error> for Action {
    fn exec(&self, i: SymbolTable) -> (r: Result<(SymbolTable, Value), Error>)
        ensures
            yields(r, exec_ins(Instruction::Action(*self), i.view())),
    {
        exec_action(self, i)
    }
}

impl Exec<SymbolTable, (SymbolTable, Value), Error> for Block {
    fn exec(&self, i: SymbolTable) -> (r: Result<(SymbolTable, Value), Error>)
        ensures
            yields(r, block_from(self.0@, i.view(), undefined())),
    {
        run_block(&self.0, i)
    }
}

impl Exec<SymbolTable, (SymbolTable, Vec<Value>), Error> for Args {
    fn exec(&self, i: SymbolTable) -> (r: Result<(SymbolTable, Vec<Value>), Error>)
        ensures
            match r {
                Ok((t, vs)) => args_from(self.0@, i.view(), Seq::empty()) == Ok::<
                    (Table, Seq<ValueV>),
                    Error,
                >((t.view(), values_view(vs@))),
                Err(e) => args_from(self.0@, i.view(), Seq::empty()) == Err::<
                    (Table, Seq<ValueV>),
                    Error,
                >(e),
            },
    {
        run_args(&self.0, i)
    }
}

impl Exec<SymbolTable, (SymbolTable, Value), Node<Error>> for Node<Instruction> {
    fn exec(&self, i: SymbolTable) -> (r: Result<(SymbolTable, Value), Node<Error>>)
        ensures
            match r {
                Ok((t, v)) => exec_node(*self, i.view()) == Ok::<(Table, ValueV), Node<Error>>(
                    (t.view(), v@),
                ),
                Err(e) => exec_node(*self, i.view()) == Err::<(Table, ValueV), Node<Error>>(e),
            },
    {
        exec_node_fn(self, i)
    }
}

impl Exec<SymbolTable, (SymbolTable, Value), Node<Error>> for Node<Block> {
    fn exec(&self, i: SymbolTable) -> (r: Result<(SymbolTable, Value), Node<Error>>)
        ensures
            match r {
                Ok((t, v)) => block_from(self.data.0@, i.view(), undefined()) == Outcome::Ok(
                    (t.view(), v@),
                ),
                Err(e) => block_from(self.data.0@, i.view(), undefined()) matches Outcome::Err(x)
                    && e == wrap(self.span, x),
            },
    {
        match run_block(&self.data.0, i) {
            Ok(x) => Ok(x),
            Err(Error::Node(x)) => Err(x),
            Err(e) => Err(Node::new(self.span, e)),
        }
    }
}

} // verus!
