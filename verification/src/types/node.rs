use vstd::prelude::*;

use super::span::{Span, spec_reduce};

use crate::parser::error::{Error, ErrorKind, PErr};

verus! {

/// A value of type `T` tagged with the source location `span` it came from.
#[derive(Clone, Debug, PartialEq, Eq)]
pub struct BaseNode<N, T> {
    pub span: N,
    pub data: Box<T>,
}

/// A node with a known location.
pub type Node<T> = BaseNode<Span, T>;

/// A node whose location may be unknown.
pub type ONode<T> = BaseNode<Option<Span>, T>;

/// The spans of a sequence of nodes, in order.
pub open spec fn node_spans<T>(nodes: Seq<Node<T>>) -> Seq<Span> {
    Seq::new(nodes.len(), |i: int| nodes[i].span)
}

impl<S, T> BaseNode<S, T> {
    /// Tags `val` with `span`.
    pub fn new(span: S, val: T) -> (r: BaseNode<S, T>)
        ensures
            r.span == span,
            *r.data == val,
    {
        BaseNode { span, data: Box::new(val) }
    }

    /// The tagged value, without its location.
    pub fn data(self) -> (r: T)
        ensures
            r == *self.data,
    {
        *self.data
    }

    /// Maps the value of a node, keeping its location.
    pub fn convert<U, F: Fn(U) -> T>(fun: F, val: BaseNode<S, U>) -> (r: Self)
        requires
            call_requires(fun, (*val.data,)),
        ensures
            r.span == val.span,
            call_ensures(fun, (*val.data,), *r.data),
    {
        let span = val.span;
        let d = fun(*val.data);
        BaseNode::new(span, d)
    }

    /// Converts the value of a node with `From`, keeping its location.
    pub fn convert_from<U>(val: BaseNode<S, U>) -> (r: Self)
        where
            T: From<U>,
        ensures
            r.span == val.span,
            call_ensures(T::from, (*val.data,), *r.data),
    {
        let span = val.span;
        let d = T::from(*val.data);
        BaseNode::new(span, d)
    }

    /// Maps the value of a node with a fallible function, keeping its location;
    /// the error of the function is returned as it is.
    pub fn try_convert<U, E, F: Fn(U) -> Result<T, E>>(fun: F, val: BaseNode<S, U>) -> (r: Result<
        Self,
        E,
    >)
        requires
            call_requires(fun, (*val.data,)),
        ensures
            exists|res: Result<T, E>|
                {
                    &&& call_ensures(fun, (*val.data,), res)
                    &&& match res {
                        Ok(t) => r matches Ok(n) && n.span == val.span && *n.data == t,
                        Err(e) => r == Err::<Self, E>(e),
                    }
                },
    {
        let span = val.span;
        let res = fun(*val.data);
        match res {
            Ok(t) => Ok(BaseNode::new(span, t)),
            Err(e) => Err(e),
        }
    }

    /// Converts the value of a node with `TryFrom`, keeping its location.
    pub fn try_convert_from<U, E>(val: BaseNode<S, U>) -> (r: Result<Self, E>)
        where
            T: TryFrom<U, Error = E>,
        ensures
            exists|res: Result<T, E>|
                {
                    &&& call_ensures(T::try_from, (*val.data,), res)
                    &&& match res {
                        Ok(t) => r matches Ok(n) && n.span == val.span && *n.data == t,
                        Err(e) => r == Err::<Self, E>(e),
                    }
                },
    {
        let span = val.span;
        let res = T::try_from(*val.data);
        match res {
            Ok(t) => Ok(BaseNode::new(span, t)),
            Err(e) => Err(e),
        }
    }
}

impl Span {
    /// The span of the first node, if there is one.
    pub fn get0<T>(input: &[Node<T>]) -> (r: Option<Span>)
        ensures
            r == (if input@.len() > 0 {
                Some(input@[0].span)
            } else {
                None
            }),
    {
        if input.len() > 0 {
            Some(input[0].span)
        } else {
            None
        }
    }

    /// The span of an optional node.
    pub fn option<T>(val: &Option<Node<T>>) -> (r: Option<Span>)
        ensures
            r == (match val {
                Some(n) => Some(n.span),
                None => None,
            }),
    {
        match val {
            Some(n) => Some(n.span),
            None => None,
        }
    }

    /// The span of an optional borrowed node.
    pub fn option_ref<T>(val: &Option<&Node<T>>) -> (r: Option<Span>)
        ensures
            r == (match val {
                Some(n) => Some(n.span),
                None => None,
            }),
    {
        match val {
            Some(n) => Some(n.span),
            None => None,
        }
    }

    /// The union of the spans of all nodes (`None` when there is none).
    pub fn reduce<T>(nodes: &[Node<T>]) -> (r: Option<Span>)
        ensures
            r == spec_reduce(node_spans(nodes@)),
    {
        let mut acc: Option<Span> = None;
        let mut i: usize = 0;
        while i < nodes.len()
            invariant
                i <= nodes@.len(),
                acc == spec_reduce(node_spans(nodes@.subrange(0, i as int))),
            decreases nodes@.len() - i,
        {
            proof {
                assert(node_spans(nodes@.subrange(0, i + 1)).drop_last() =~= node_spans(
                    nodes@.subrange(0, i as int),
                ));
            }
            acc = Span::add_option(acc, Some(nodes[i].span));
            i = i + 1;
        }
        proof {
            assert(nodes@.subrange(0, nodes@.len() as int) =~= nodes@);
        }
        acc
    }

    /// The union of the spans of borrowed nodes (`None` when there is none).
    pub fn reduce_ref<T>(nodes: &[&Node<T>]) -> (r: Option<Span>)
        ensures
            r == spec_reduce(Seq::new(nodes@.len(), |i: int| nodes@[i].span)),
    {
        let ghost sp = Seq::new(nodes@.len(), |i: int| nodes@[i].span);
        let mut acc: Option<Span> = None;
        let mut i: usize = 0;
        while i < nodes.len()
            invariant
                i <= nodes@.len(),
                sp == Seq::new(nodes@.len(), |i: int| nodes@[i].span),
                acc == spec_reduce(sp.subrange(0, i as int)),
            decreases nodes@.len() - i,
        {
            proof {
                assert(sp.subrange(0, i + 1).drop_last() =~= sp.subrange(0, i as int));
            }
            acc = Span::add_option(acc, Some(nodes[i].span));
            i = i + 1;
        }
        proof {
            assert(sp.subrange(0, sp.len() as int) =~= sp);
        }
        acc
    }
}

impl Span {
    /// The union of the spans of all nodes; no node is a runtime failure.
    pub fn reduce_ok<T>(nodes: &[Node<T>]) -> (r: Result<Span, PErr>)
        ensures
            match spec_reduce(node_spans(nodes@)) {
                Some(s) => r == Ok::<Span, PErr>(s),
                None => r matches Err(PErr::Failure(e)) && e.span is None && *e.data == Error::Error(
                    ErrorKind::Runtime,
                ),
            },
    {
        match Span::reduce(nodes) {
            Some(s) => Ok(s),
            None => Err(PErr::Failure(ONode::new(None, Error::Error(ErrorKind::Runtime)))),
        }
    }

    /// The union of the spans of borrowed nodes; no node is a runtime failure.
    pub fn reduce_ref_ok<T>(nodes: &[&Node<T>]) -> (r: Result<Span, PErr>)
        ensures
            match spec_reduce(Seq::new(nodes@.len(), |i: int| nodes@[i].span)) {
                Some(s) => r == Ok::<Span, PErr>(s),
                None => r matches Err(PErr::Failure(e)) && e.span is None && *e.data == Error::Error(
                    ErrorKind::Runtime,
                ),
            },
    {
        match Span::reduce_ref(nodes) {
            Some(s) => Ok(s),
            None => Err(PErr::Failure(ONode::new(None, Error::Error(ErrorKind::Runtime)))),
        }
    }
}


/// Converting a node with a function that hands back its argument gives the
/// node back: the same place and the same value.
pub proof fn law_convert_identity<S, T, F: Fn(T) -> T>(fun: F, val: BaseNode<S, T>, r: BaseNode<S, T>)
    requires
        forall|x: T, y: T| call_ensures(fun, (x,), y) ==> y == x,
        r.span == val.span,
        call_ensures(fun, (*val.data,), *r.data),
    ensures
        r == val,
{
}

/// Converting a node with `f` and then with `g` is converting it once with a
/// function that does `f` then `g`: the node keeps its place, and its value is
/// what `g` gives for what `f` gave.
pub proof fn law_convert_compose<S, U, V, T, F: Fn(U) -> V, G: Fn(V) -> T, H: Fn(U) -> T>(
    f: F,
    g: G,
    h: H,
    val: BaseNode<S, U>,
    mid: BaseNode<S, V>,
    r: BaseNode<S, T>,
    once: BaseNode<S, T>,
)
    requires
        forall|x: U, y: V| call_ensures(f, (x,), y) ==> forall|z: T| call_ensures(g, (y,), z) ==> call_ensures(h, (x,), z),
        forall|x: U, z1: T, z2: T| call_ensures(h, (x,), z1) && call_ensures(h, (x,), z2) ==> z1 == z2,
        mid.span == val.span,
        call_ensures(f, (*val.data,), *mid.data),
        r.span == mid.span,
        call_ensures(g, (*mid.data,), *r.data),
        once.span == val.span,
        call_ensures(h, (*val.data,), *once.data),
    ensures
        r == once,
{
}


/// Reducing the spans of nodes reached through references is reducing the
/// spans of the nodes themselves.
pub proof fn law_reduce_ref_same<T>(nodes: Seq<Node<T>>, refs: Seq<&Node<T>>)
    requires
        refs.len() == nodes.len(),
        forall|k: int| 0 <= k < nodes.len() ==> *refs[k] == nodes[k],
    ensures
        spec_reduce(Seq::new(refs.len(), |k: int| refs[k].span)) == spec_reduce(node_spans(nodes)),
{
    assert(Seq::new(refs.len(), |k: int| refs[k].span) =~= node_spans(nodes));
}

} // verus!
