use vstd::prelude::*;

use super::dict::{entries_insert, entries_merge, Dict, Entries};
use super::symbol::table_get;
use super::value::{undefined, Primitive, PrimitiveV, Value, ValueV};
use crate::ast;
use crate::ast::Id;
use crate::types::node::{BaseNode, Node};
use crate::types::span::Span;

verus! {

/// An item of a tuple or list display: a value, or a spread collection.
#[derive(Debug, PartialEq)]
pub enum ListItem<T> {
    Expr(T),
    Spread(T),
}

/// An item of a dictionary display.
#[derive(Debug, PartialEq)]
pub enum DictItem<T> {
    KeyVal { key: Node<Id>, val: Node<T> },
    DynKeyVal { key: Node<T>, val: Node<T> },
    Shorthand(Id),
    Spread(Node<T>),
}

/// The item of a dictionary comprehension.
#[derive(Debug, PartialEq)]
pub enum DictItemComp<T> {
    DynKeyVal { key: Node<T>, val: Node<T> },
    Spread(Node<T>),
}

/// Building a collection from items.
#[derive(Debug, PartialEq)]
pub enum Action {
    Tuple(Vec<Node<ListItem<Instruction>>>),
    ListDisplay(Vec<Node<ListItem<Instruction>>>),
    DictDisplay(Vec<Node<DictItem<Instruction>>>),
}

/// The arguments of a call.
#[derive(Debug, PartialEq)]
pub struct Args(pub Vec<Node<Instruction>>);

/// Instructions run one after the other; the last one's value is the block's.
#[derive(Debug, PartialEq)]
pub struct Block(pub Vec<Node<Instruction>>);

/// What a program is compiled to.
#[derive(Debug, PartialEq)]
pub enum Instruction {
    Value(Value),
    Variable(Id),
    Action(Action),
    Block(Block),
    Assign(Id, Node<Instruction>),
    Symbol(Value),
}

/// What can go wrong while compiling or running a program.
#[derive(Debug, PartialEq)]
pub enum Error {
    Never,
    Node(Node<Error>),
    Ast(ast::Error),
    TypeMismatch,
}

/// Variables, by their names' characters.
pub type Table = Map<Seq<char>, ValueV>;

/// The outcome of running an instruction: the variables after it and its value.
pub type Outcome = Result<(Table, ValueV), Error>;

/// An error as a node reports it: one that already has a place keeps it,
/// any other gets the node's place.
pub open spec fn wrap(span: Span, e: Error) -> Node<Error> {
    match e {
        Error::Node(x) => x,
        _ => BaseNode { span, data: Box::new(e) },
    }
}

/// Running an instruction on the variables `m`.
pub open spec fn exec_ins(ins: Instruction, m: Table) -> Outcome
    decreases ins,
{
    match ins {
        Instruction::Value(v) => Ok((m, v@)),
        Instruction::Variable(k) => Ok(table_get(m, k.0@)),
        Instruction::Action(a) => match a {
            Action::Tuple(items) => match list_from(items@, m, Seq::empty()) {
                Ok((m2, vs)) => Ok((m2, ValueV::Tuple(vs))),
                Err(e) => Err(e),
            },
            Action::ListDisplay(items) => match list_from(items@, m, Seq::empty()) {
                Ok((m2, vs)) => Ok((m2, ValueV::List(vs))),
                Err(e) => Err(e),
            },
            Action::DictDisplay(items) => match dict_from(items@, m, Seq::empty()) {
                Ok((m2, es)) => Ok((m2, ValueV::Dict(es))),
                Err(e) => Err(e),
            },
        },
        Instruction::Block(b) => block_from(b.0@, m, undefined()),
        Instruction::Assign(k, n) => match exec_node(n, m) {
            Ok((m2, v)) => Ok((m2.insert(k.0@, v), v)),
            Err(x) => Err(Error::Node(x)),
        },
        Instruction::Symbol(v) => Ok((m, v@)),
    }
}

/// Running a node: an error gets the node's place unless it has one.
pub open spec fn exec_node(n: Node<Instruction>, m: Table) -> Result<(Table, ValueV), Node<Error>>
    decreases n,
{
    match exec_ins(*n.data, m) {
        Ok(x) => Ok(x),
        Err(e) => Err(wrap(n.span, e)),
    }
}

/// Running the nodes `s` in order after a value `v`: the last value.
pub open spec fn block_from(s: Seq<Node<Instruction>>, m: Table, v: ValueV) -> Outcome
    decreases s,
{
    if s.len() == 0 {
        Ok((m, v))
    } else {
        match exec_node(s[0], m) {
            Ok((m2, v2)) => block_from(s.subrange(1, s.len() as int), m2, v2),
            Err(x) => Err(Error::Node(x)),
        }
    }
}

/// The values of tuple or list items, after those in `acc`.
pub open spec fn list_from(s: Seq<Node<ListItem<Instruction>>>, m: Table, acc: Seq<ValueV>) -> Result<
    (Table, Seq<ValueV>),
    Error,
>
    decreases s,
{
    if s.len() == 0 {
        Ok((m, acc))
    } else {
        match *s[0].data {
            ListItem::Expr(x) => match exec_ins(x, m) {
                Ok((m2, v)) => list_from(s.subrange(1, s.len() as int), m2, acc.push(v)),
                Err(e) => Err(e),
            },
            ListItem::Spread(x) => match exec_ins(x, m) {
                Ok((m2, ValueV::List(vs))) => list_from(s.subrange(1, s.len() as int), m2, acc + vs),
                Ok((m2, ValueV::Tuple(vs))) => list_from(s.subrange(1, s.len() as int), m2, acc + vs),
                Ok(_) => Err(Error::TypeMismatch),
                Err(e) => Err(e),
            },
        }
    }
}

/// The entries of dictionary items, inserted into `acc`.
pub open spec fn dict_from(s: Seq<Node<DictItem<Instruction>>>, m: Table, acc: Entries) -> Result<
    (Table, Entries),
    Error,
>
    decreases s,
{
    if s.len() == 0 {
        Ok((m, acc))
    } else {
        let rest = s.subrange(1, s.len() as int);
        match *s[0].data {
            DictItem::KeyVal { key, val } => match exec_node(val, m) {
                Ok((m2, v)) => dict_from(rest, m2, entries_insert(acc, key.data.0@, v)),
                Err(x) => Err(Error::Node(x)),
            },
            DictItem::DynKeyVal { key, val } => match exec_node(key, m) {
                Ok((m2, ValueV::Primitive(PrimitiveV::String(k)))) => match exec_node(val, m2) {
                    Ok((m3, v)) => dict_from(rest, m3, entries_insert(acc, k, v)),
                    Err(x) => Err(Error::Node(x)),
                },
                Ok(_) => Err(Error::TypeMismatch),
                Err(x) => Err(Error::Node(x)),
            },
            DictItem::Shorthand(k) => {
                let (m2, v) = table_get(m, k.0@);
                dict_from(rest, m2, entries_insert(acc, k.0@, v))
            },
            DictItem::Spread(x) => match exec_node(x, m) {
                Ok((m2, ValueV::Dict(es))) => dict_from(rest, m2, entries_merge(acc, es)),
                Ok(_) => Err(Error::TypeMismatch),
                Err(x) => Err(Error::Node(x)),
            },
        }
    }
}

/// The values of the nodes `s`, after those in `acc`.
pub open spec fn args_from(s: Seq<Node<Instruction>>, m: Table, acc: Seq<ValueV>) -> Result<
    (Table, Seq<ValueV>),
    Error,
>
    decreases s.len(),
{
    if s.len() == 0 {
        Ok((m, acc))
    } else {
        match exec_node(s[0], m) {
            Ok((m2, v)) => args_from(s.subrange(1, s.len() as int), m2, acc.push(v)),
            Err(x) => Err(Error::Node(x)),
        }
    }
}


/// Running a block with no instructions changes nothing and keeps the value.
pub proof fn law_block_empty(m: Table, v: ValueV)
    ensures
        block_from(Seq::empty(), m, v) == Outcome::Ok((m, v)),
{
}

/// A block runs its instructions in order, each on the variables the one
/// before left, and gives the value of the last: running two parts one after
/// the other is running them together, and a failure stops the rest.
pub proof fn law_block_concat(s1: Seq<Node<Instruction>>, s2: Seq<Node<Instruction>>, m: Table, v: ValueV)
    ensures
        block_from(s1 + s2, m, v) == match block_from(s1, m, v) {
            Outcome::Ok((m2, v2)) => block_from(s2, m2, v2),
            Outcome::Err(e) => Outcome::Err(e),
        },
    decreases s1.len(),
{
    if s1.len() == 0 {
        assert(s1 + s2 =~= s2);
    } else {
        let c = s1 + s2;
        assert(c[0] == s1[0]);
        assert(c.subrange(1, c.len() as int) =~= s1.subrange(1, s1.len() as int) + s2);
        match exec_node(s1[0], m) {
            Ok((m2, v2)) => {
                law_block_concat(s1.subrange(1, s1.len() as int), s2, m2, v2);
            },
            Err(_) => {},
        }
    }
}

} // verus!
