use vstd::prelude::*;

pub mod convert;

use crate::lexer::token::FloatLit;
use crate::types::node::Node;

verus! {

/// An identifier.
#[derive(Clone, Debug, PartialEq, Eq, Hash)]
pub struct Id(pub String);

impl Id {
    /// A copy of the identifier.
    pub fn copy(&self) -> (r: Id)
        ensures
            r.0@ == self.0@,
    {
        Id(self.0.clone())
    }
}

/// A comma separated list of nodes.
#[derive(Debug)]
pub struct CommaList<T>(pub Vec<Node<T>>);

/// The smallest expressions: names, literals and enclosures.
#[derive(Debug)]
pub enum Atom {
    Id(String),
    Integer(i32),
    Float(FloatLit),
    String(String),
    Paren(Node<Expr>),
    Tuple(Vec<Node<ListItem>>),
    ListDisplay(Vec<Node<ListItem>>),
    DictDisplay(Vec<Node<DictItem>>),
    Generator { val: Node<ListItem>, iter: Vec<Node<CompIter>> },
    ListComprehension { val: Node<ListItem>, iter: Vec<Node<CompIter>> },
    DictComprehension { val: Node<DictItemComp>, iter: Vec<Node<CompIter>> },
    Block(Vec<Node<Expr>>),
}

/// The arguments of a call.
#[derive(Debug)]
pub struct Args(pub Vec<Node<Expr>>);

/// A whole program: expressions separated by line breaks.
#[derive(Debug)]
pub struct ExprTop(pub Vec<Node<Expr>>);

/// A braced block of expressions.
#[derive(Debug)]
pub struct ExprEnclosure(pub Vec<Node<Expr>>);

/// Conditional expressions.
#[derive(Debug)]
pub enum Branch {
    If { val: Node<Expr>, t_block: Node<ExprEnclosure>, f_block: Node<ExprEnclosure> },
    Match { val: Node<Expr>, arms: Vec<Node<MatchArm>> },
}

/// A loop, with an optional label.
#[derive(Debug)]
pub struct Loop {
    pub id: Option<Node<Id>>,
    pub data: LoopKind,
}

#[derive(Debug)]
pub enum LoopKind {
    For { tar: Node<Target>, val: Node<Expr>, block: Node<ExprEnclosure> },
    While { val: Node<Expr>, block: Node<ExprEnclosure> },
    Loop { block: Node<ExprEnclosure> },
}

/// One arm of a `match`.
#[derive(Debug)]
pub struct MatchArm {
    pub tar: Node<Match>,
    pub block: Node<ExprEnclosure>,
}

/// A clause of a comprehension.
#[derive(Debug)]
pub enum CompIter {
    For { target: Node<Target>, val: Node<Expr> },
    If(Node<Expr>),
}

/// An item of a dictionary display.
#[derive(Debug)]
pub enum DictItem {
    KeyVal { key: Node<Id>, val: Node<Expr> },
    DynKeyVal { key: Node<Expr>, val: Node<Expr> },
    Shorthand(Id),
    Spread(Node<Expr>),
}

/// The item of a dictionary comprehension.
#[derive(Debug)]
pub enum DictItemComp {
    DynKeyVal { key: Node<Expr>, val: Node<Expr> },
    Spread(Node<Expr>),
}

/// Expressions.
#[derive(Debug)]
pub enum Expr {
    Assign(Node<Target>, Node<Expr>),
    Function { args: Node<CommaList<TargetListItem<TargetExpr>>>, block: Node<ExprEnclosure> },
    Branch(Branch),
    Loop(Loop),
    Op(Op),
    Primary(Primary),
    Stmt(Stmt),
}

/// An item of a keyed record.
#[derive(Debug)]
pub enum KeyDatum {
    KeyDatum { key: Node<String>, val: Node<Expr> },
    Shorthand(String),
    Spread(Node<Expr>),
}

/// An item of a list or tuple display.
#[derive(Debug)]
pub enum ListItem {
    Expr(Expr),
    Spread(Node<Expr>),
}

/// Operators.
#[derive(Debug)]
pub enum Op {
    And(Node<Expr>, Node<Expr>),
    Or(Node<Expr>, Node<Expr>),
    Not(Node<Expr>),
    CompareBound {
        l_val: Node<Expr>,
        l_op: Node<OpEqs>,
        val: Node<Expr>,
        r_op: Node<OpEqs>,
        r_val: Node<Expr>,
    },
    Compare(Node<Expr>, Node<OpEqs>, Node<Expr>),
    Range(Range),
    Arith(Node<Expr>, Node<OpArith>, Node<Expr>),
    Unary(Node<OpArith>, Node<Expr>),
    Coefficient(Node<Atom>, Node<Expr>),
    Die(Node<Atom>),
}

#[derive(Copy, Clone, Debug, PartialEq, Eq, Structural)]
pub enum OpEqs {
    EQ,
    NE,
    LT,
    LE,
    GT,
    GE,
}

#[derive(Copy, Clone, Debug, PartialEq, Eq, Structural)]
pub enum OpRange {
    RANGE,
    RANGEI,
}

#[derive(Copy, Clone, Debug, PartialEq, Eq, Structural)]
pub enum OpArith {
    ADD,
    SUB,
    MUL,
    DIV,
    IDIV,
    MOD,
    POW,
}

/// The space that goes around an arithmetic operator when it prints: none
/// around `^`, `*` and `%`.
pub open spec fn space_chars(o: OpArith) -> Seq<char> {
    match o {
        OpArith::POW | OpArith::MUL | OpArith::MOD => ""@,
        _ => " "@,
    }
}

impl OpArith {
    /// The space that goes around the operator when it prints.
    pub fn space(&self) -> (r: &'static str)
        ensures
            r@ == space_chars(*self),
    {
        match self {
            OpArith::POW | OpArith::MUL | OpArith::MOD => "",
            _ => " ",
        }
    }
}

/// Primaries: atoms with attribute access, indexing, subscription and calls.
#[derive(Debug)]
pub enum Primary {
    Attribute(Node<Primary>, Node<Id>),
    Index(Node<Primary>, Node<usize>),
    Subscription(Node<Primary>, Vec<Node<Expr>>),
    Call(Node<Primary>, Node<Args>),
    Atom(Atom),
}

/// Range expressions.
#[derive(Debug)]
pub enum Range {
    Range { start: Node<Expr>, end: Node<Expr> },
    RangeFrom { start: Node<Expr> },
    RangeTo { end: Node<Expr> },
    RangeFull,
    RangeI { start: Node<Expr>, end: Node<Expr> },
    RangeToI { end: Node<Expr> },
}

/// An item that may be spread.
#[derive(Debug)]
pub enum SpreadItem {
    Expr(Expr),
    Spread(Node<Expr>),
}

/// Statements.
#[derive(Debug)]
pub enum Stmt {
    Assign { tar: Node<Target>, val: Node<Expr> },
    Break { id: Option<Node<Id>>, val: Node<Expr> },
    Return(Node<Expr>),
}

/// An assignment target: a name, or a tuple, list or dictionary of targets.
#[derive(Debug)]
pub enum Target {
    Id(String),
    TargetTuple(Vec<Node<TargetListItem<Target>>>),
    TargetList(Vec<Node<TargetListItem<Target>>>),
    TargetDict(Vec<Node<TargetDictItem<Target>>>),
}

/// A target with optional default values (the parameters of a function).
#[derive(Debug)]
pub enum TargetExpr {
    Id(String),
    TargetTuple(Vec<Node<TargetListItem<TargetExpr>>>),
    TargetList(Vec<Node<TargetListItem<TargetExpr>>>),
    TargetDict(Vec<Node<TargetDictItem<TargetExpr>>>),
    /// A target with a default value.
    TargetExpr(Node<TargetExpr>, Node<Expr>),
}

/// A pattern of a `match` arm: a target, or a literal.
#[derive(Debug)]
pub enum Match {
    Id(String),
    TargetTuple(Vec<Node<TargetListItem<Match>>>),
    TargetList(Vec<Node<TargetListItem<Match>>>),
    TargetDict(Vec<Node<TargetDictItem<Match>>>),
    Literal(Atom),
}

/// The shapes of targets, over the kind of their nested targets.
#[derive(Debug)]
pub enum TargetKind<T> {
    Id(String),
    TargetTuple(Vec<Node<TargetListItem<T>>>),
    TargetList(Vec<Node<TargetListItem<T>>>),
    TargetDict(Vec<Node<TargetDictItem<T>>>),
}

#[derive(Debug)]
pub enum TargetListItem<T> {
    Spread(Node<T>),
    Target(T),
}

#[derive(Debug)]
pub enum TargetDictItem<T> {
    Pair { key: Node<Id>, val: Node<T> },
    Spread(Node<T>),
    Target(T),
}

/// Errors of the conversion from syntax to instructions.
#[derive(Debug, PartialEq)]
pub enum Error {
    Never,
    Node(Node<Error>),
    Vec(Vec<Node<Error>>),
    TypeMismatch,
    InvalidOp,
}

} // verus!
