use vstd::prelude::*;

verus! {

/// A half-open range of byte offsets into the source text.
#[derive(Clone, Copy, Debug, PartialEq, Eq, Structural)]
pub struct Span {
    pub start: usize,
    pub end: usize,
}

/// The smallest span that covers both arguments.
pub open spec fn span_union(a: Span, b: Span) -> Span {
    Span {
        start: if a.start <= b.start { a.start } else { b.start },
        end: if a.end >= b.end { a.end } else { b.end },
    }
}

/// Union of an optional span with another optional span; `None` is neutral.
pub open spec fn span_union_option(a: Option<Span>, b: Option<Span>) -> Option<Span> {
    match (a, b) {
        (Some(l), Some(r)) => Some(span_union(l, r)),
        (Some(l), None) => Some(l),
        (None, Some(r)) => Some(r),
        (None, None) => None,
    }
}

/// Left fold of `span_union` over a sequence of spans (`None` when empty).
pub open spec fn spec_reduce(s: Seq<Span>) -> Option<Span>
    decreases s.len(),
{
    if s.len() == 0 {
        None
    } else {
        span_union_option(spec_reduce(s.drop_last()), Some(s.last()))
    }
}

impl Span {
    /// Builds a span from a range of offsets.
    pub fn new(range: std::ops::Range<usize>) -> (r: Span)
        ensures
            r.start == range.start,
            r.end == range.end,
    {
        Span { start: range.start, end: range.end }
    }

    /// The span covering `0..len`, as for a whole input of `len` bytes.
    pub fn whole(len: usize) -> (r: Span)
        ensures
            r == (Span { start: 0, end: len }),
    {
        Span { start: 0, end: len }
    }

    /// Union of two spans: from the smaller start to the larger end.
    pub fn add(self, rhs: Span) -> (r: Span)
        ensures
            r == span_union(self, rhs),
    {
        Span {
            start: if self.start <= rhs.start { self.start } else { rhs.start },
            end: if self.end >= rhs.end { self.end } else { rhs.end },
        }
    }

    /// Adds an optional span; `None` leaves `self` unchanged.
    pub fn add_opt(self, rhs: Option<Span>) -> (r: Span)
        ensures
            r == (match rhs {
                Some(s) => span_union(self, s),
                None => self,
            }),
    {
        match rhs {
            Some(s) => self.add(s),
            None => self,
        }
    }

    /// Union of two optional spans.
    pub fn add_option(lhs: Option<Span>, rhs: Option<Span>) -> (r: Option<Span>)
        ensures
            r == span_union_option(lhs, rhs),
    {
        match (lhs, rhs) {
            (Some(l), Some(r)) => Some(l.add(r)),
            (Some(l), None) => Some(l),
            (None, Some(r)) => Some(r),
            (None, None) => None,
        }
    }

    /// Union of two optional borrowed spans.
    pub fn add_option_ref(lhs: Option<&Span>, rhs: Option<&Span>) -> (r: Option<Span>)
        ensures
            r == span_union_option(
                match lhs {
                    Some(l) => Some(*l),
                    None => None,
                },
                match rhs {
                    Some(x) => Some(*x),
                    None => None,
                },
            ),
    {
        match (lhs, rhs) {
            (Some(l), Some(r)) => Some(l.add(*r)),
            (Some(l), None) => Some(*l),
            (None, Some(r)) => Some(*r),
            (None, None) => None,
        }
    }

    /// Folds the union over a sequence of spans.
    pub fn reduce_spans(spans: &[Span]) -> (r: Option<Span>)
        ensures
            r == spec_reduce(spans@),
    {
        let mut acc: Option<Span> = None;
        let mut i: usize = 0;
        while i < spans.len()
            invariant
                i <= spans@.len(),
                acc == spec_reduce(spans@.subrange(0, i as int)),
            decreases spans@.len() - i,
        {
            proof {
                assert(spans@.subrange(0, i + 1).drop_last() =~= spans@.subrange(0, i as int));
            }
            acc = Span::add_option(acc, Some(spans[i]));
            i = i + 1;
        }
        proof {
            assert(spans@.subrange(0, spans@.len() as int) =~= spans@);
        }
        acc
    }

    /// The part of `self` from the relative offset `start` to its end
    /// (the `start..` slice).
    pub fn slice_from(&self, start: usize) -> (r: Span)
        requires
            self.start + start <= usize::MAX,
        ensures
            r == (Span { start: (self.start + start) as usize, end: self.end }),
    {
        Span::new(self.start + start..self.end)
    }

    /// The part of `self` from its start to the relative offset `end`
    /// (the `..end` slice).
    pub fn slice_to(&self, end: usize) -> (r: Span)
        requires
            self.start + end <= usize::MAX,
        ensures
            r == (Span { start: self.start, end: (self.start + end) as usize }),
    {
        Span::new(self.start..self.start + end)
    }

    /// A sub-span, with offsets relative to the start of `self`.
    pub fn slice<T: SliceSpan>(&self, range: T) -> (r: Span)
        requires
            range.slice_ok(*self),
        ensures
            r == range.spec_slice_span(*self),
    {
        range.slice_span(self)
    }
}

/// Offsets, or ranges of offsets, that select a part of a span.
pub trait SliceSpan {
    spec fn slice_ok(&self, span: Span) -> bool;

    spec fn spec_slice_span(&self, span: Span) -> Span;

    fn slice_span(&self, span: &Span) -> (r: Span)
        requires
            self.slice_ok(*span),
        ensures
            r == self.spec_slice_span(*span),
    ;
}

impl SliceSpan for usize {
    open spec fn slice_ok(&self, span: Span) -> bool {
        span.start + *self <= usize::MAX
    }

    open spec fn spec_slice_span(&self, span: Span) -> Span {
        Span { start: (span.start + *self) as usize, end: (span.start + *self) as usize }
    }

    fn slice_span(&self, span: &Span) -> (r: Span) {
        Span::new(span.start + *self..span.start + *self)
    }
}

impl SliceSpan for std::ops::Range<usize> {
    open spec fn slice_ok(&self, span: Span) -> bool {
        span.start + self.start <= usize::MAX && span.start + self.end <= usize::MAX
    }

    open spec fn spec_slice_span(&self, span: Span) -> Span {
        Span {
            start: (span.start + self.start) as usize,
            end: (span.start + self.end) as usize,
        }
    }

    fn slice_span(&self, span: &Span) -> (r: Span) {
        Span::new(span.start + self.start..span.start + self.end)
    }
}

/// The union of spans is commutative.
pub proof fn lemma_union_commutative(a: Span, b: Span)
    ensures
        span_union(a, b) == span_union(b, a),
{
}

/// The union of spans is associative.
pub proof fn lemma_union_associative(a: Span, b: Span, c: Span)
    ensures
        span_union(span_union(a, b), c) == span_union(a, span_union(b, c)),
{
}

/// A span united with itself is unchanged.
pub proof fn lemma_union_idempotent(a: Span)
    ensures
        span_union(a, a) == a,
{
}

/// The union covers both of its arguments.
pub proof fn lemma_union_covers(a: Span, b: Span)
    ensures
        span_union(a, b).start <= a.start,
        span_union(a, b).start <= b.start,
        span_union(a, b).end >= a.end,
        span_union(a, b).end >= b.end,
{
}


/// Uniting optional spans is associative.
pub proof fn lemma_union_option_associative(a: Option<Span>, b: Option<Span>, c: Option<Span>)
    ensures
        span_union_option(span_union_option(a, b), c) == span_union_option(a, span_union_option(b, c)),
{
}

/// Reducing a sequence made of two parts unites the reductions of the parts.
pub proof fn law_reduce_concat(s1: Seq<Span>, s2: Seq<Span>)
    ensures
        spec_reduce(s1 + s2) == span_union_option(spec_reduce(s1), spec_reduce(s2)),
    decreases s2.len(),
{
    if s2.len() == 0 {
        assert(s1 + s2 =~= s1);
    } else {
        let s2p = s2.drop_last();
        law_reduce_concat(s1, s2p);
        assert((s1 + s2).drop_last() =~= s1 + s2p);
        assert((s1 + s2).last() == s2.last());
        lemma_union_option_associative(spec_reduce(s1), spec_reduce(s2p), Some(s2.last()));
    }
}

/// The order of spans does not matter to their reduction: swapping two parts
/// of the sequence gives the same span.
pub proof fn law_reduce_swap(s1: Seq<Span>, s2: Seq<Span>)
    ensures
        spec_reduce(s1 + s2) == spec_reduce(s2 + s1),
{
    law_reduce_concat(s1, s2);
    law_reduce_concat(s2, s1);
}


/// The reduction of spans is their hull: it starts where the earliest of them
/// starts and ends where the latest ends, and it covers each of them.
pub proof fn law_reduce_hull(s: Seq<Span>)
    requires
        s.len() > 0,
    ensures
        spec_reduce(s) is Some,
        forall|k: int| 0 <= k < s.len() ==> spec_reduce(s)->Some_0.start <= (#[trigger] s[k]).start
            && spec_reduce(s)->Some_0.end >= s[k].end,
        exists|k: int| 0 <= k < s.len() && spec_reduce(s)->Some_0.start == (#[trigger] s[k]).start,
        exists|k: int| 0 <= k < s.len() && spec_reduce(s)->Some_0.end == (#[trigger] s[k]).end,
    decreases s.len(),
{
    let t = s.drop_last();
    if t.len() == 0 {
        assert(spec_reduce(t) is None);
        assert(spec_reduce(s) == Some(s[0]));
        assert(s.last() == s[0]);
    } else {
        law_reduce_hull(t);
        let a = spec_reduce(t)->Some_0;
        let ka = choose|k: int| 0 <= k < t.len() && a.start == (#[trigger] t[k]).start;
        let kb = choose|k: int| 0 <= k < t.len() && a.end == (#[trigger] t[k]).end;
        assert(t[ka] == s[ka] && t[kb] == s[kb]);
        assert forall|k: int| 0 <= k < s.len() implies spec_reduce(s)->Some_0.start <= (#[trigger] s[k]).start
            && spec_reduce(s)->Some_0.end >= s[k].end by {
            if k < t.len() {
                assert(t[k] == s[k]);
            }
        }
        let last = s.len() - 1;
        assert(s.last() == s[last]);
    }
}


/// The reduction does not depend on the order of the spans: any two
/// sequences that hold the same spans, each as often, reduce alike.
pub proof fn law_reduce_permutation(s1: Seq<Span>, s2: Seq<Span>)
    requires
        s1.to_multiset() =~= s2.to_multiset(),
    ensures
        spec_reduce(s1) == spec_reduce(s2),
{
    s1.to_multiset_ensures();
    s2.to_multiset_ensures();
    if s1.len() == 0 {
        assert(s2.len() == 0);
    } else {
        assert(s2.len() > 0);
        law_reduce_hull(s1);
        law_reduce_hull(s2);
        let a = spec_reduce(s1)->Some_0;
        let b = spec_reduce(s2)->Some_0;
        let ka = choose|k: int| 0 <= k < s1.len() && a.start == (#[trigger] s1[k]).start;
        let kb = choose|k: int| 0 <= k < s2.len() && b.start == (#[trigger] s2[k]).start;
        let ea = choose|k: int| 0 <= k < s1.len() && a.end == (#[trigger] s1[k]).end;
        let eb = choose|k: int| 0 <= k < s2.len() && b.end == (#[trigger] s2[k]).end;
        assert(s1.contains(s1[ka]) && s1.contains(s1[ea]));
        assert(s2.contains(s2[kb]) && s2.contains(s2[eb]));
        assert(s1.to_multiset().count(s2[kb]) > 0 && s1.to_multiset().count(s2[eb]) > 0);
        assert(s2.to_multiset().count(s1[ka]) > 0 && s2.to_multiset().count(s1[ea]) > 0);
        let x1 = choose|k: int| 0 <= k < s2.len() && s2[k] == s1[ka];
        let x2 = choose|k: int| 0 <= k < s1.len() && s1[k] == s2[kb];
        let x3 = choose|k: int| 0 <= k < s2.len() && s2[k] == s1[ea];
        let x4 = choose|k: int| 0 <= k < s1.len() && s1[k] == s2[eb];
        assert(b.start <= s2[x1].start && a.start <= s1[x2].start);
        assert(b.end >= s2[x3].end && a.end >= s1[x4].end);
    }
}

} // verus!
