use vstd::prelude::*;

use super::value::{undefined, Primitive, Value, ValueV};
use crate::ast::Id;

verus! {

/// The map that a list of bindings stands for: later bindings of a key win.
pub open spec fn bindings_map(es: Seq<(Id, Value)>) -> Map<Seq<char>, ValueV>
    decreases es.len(),
{
    if es.len() == 0 {
        Map::empty()
    } else {
        bindings_map(es.drop_last()).insert(es.last().0.0@, es.last().1@)
    }
}

/// No name is bound twice.
pub open spec fn bindings_distinct(es: Seq<(Id, Value)>) -> bool {
    forall|a: int, b: int| 0 <= a < b < es.len() ==> es[a].0.0@ != es[b].0.0@
}

/// With distinct names, the map binds exactly the listed names, each to its
/// listed value.
pub proof fn lemma_bindings_map(es: Seq<(Id, Value)>)
    requires
        bindings_distinct(es),
    ensures
        forall|k: Seq<char>|
            #[trigger] bindings_map(es).contains_key(k) <==> exists|a: int|
                0 <= a < es.len() && es[a].0.0@ == k,
        forall|a: int| 0 <= a < es.len() ==> bindings_map(es)[#[trigger] es[a].0.0@] == es[a].1@,
    decreases es.len(),
{
    if es.len() > 0 {
        let t = es.drop_last();
        assert(bindings_distinct(t)) by {
            assert forall|a: int, b: int| 0 <= a < b < t.len() implies t[a].0.0@ != t[b].0.0@ by {
                assert(t[a] == es[a] && t[b] == es[b]);
            }
        }
        lemma_bindings_map(t);
        assert forall|k: Seq<char>|
            #[trigger] bindings_map(es).contains_key(k) <==> exists|a: int|
                0 <= a < es.len() && es[a].0.0@ == k by {
            if bindings_map(es).contains_key(k) {
                if k == es.last().0.0@ {
                    assert(es[es.len() - 1].0.0@ == k);
                } else {
                    assert(bindings_map(t).contains_key(k));
                    let a = choose|a: int| 0 <= a < t.len() && t[a].0.0@ == k;
                    assert(es[a] == t[a]);
                }
            }
            if exists|a: int| 0 <= a < es.len() && es[a].0.0@ == k {
                let a = choose|a: int| 0 <= a < es.len() && es[a].0.0@ == k;
                if a < es.len() - 1 {
                    assert(t[a] == es[a]);
                }
            }
        }
        assert forall|a: int| 0 <= a < es.len() implies bindings_map(es)[#[trigger] es[a].0.0@]
            == es[a].1@ by {
            if a < es.len() - 1 {
                assert(t[a] == es[a]);
            }
        }
    }
}

/// Rebinding a listed name in its place gives the map with the new value.
pub proof fn lemma_bindings_update(es: Seq<(Id, Value)>, a: int, k: Id, v: Value)
    requires
        bindings_distinct(es),
        0 <= a < es.len(),
        es[a].0.0@ == k.0@,
    ensures
        bindings_distinct(es.update(a, (k, v))),
        bindings_map(es.update(a, (k, v))) == bindings_map(es).insert(k.0@, v@),
{
    let u = es.update(a, (k, v));
    assert(bindings_distinct(u));
    lemma_bindings_map(es);
    lemma_bindings_map(u);
    assert forall|x: Seq<char>| #[trigger] bindings_map(u).contains_key(x) <==> bindings_map(
        es,
    ).insert(k.0@, v@).contains_key(x) by {
        if bindings_map(u).contains_key(x) {
            let b = choose|b: int| 0 <= b < u.len() && u[b].0.0@ == x;
            assert(es[b].0.0@ == x);
        }
        if bindings_map(es).contains_key(x) {
            let b = choose|b: int| 0 <= b < es.len() && es[b].0.0@ == x;
            assert(u[b].0.0@ == x);
        }
        if x == k.0@ {
            assert(u[a].0.0@ == x);
        }
    }
    assert forall|x: Seq<char>| #[trigger] bindings_map(u).contains_key(x) implies bindings_map(u)[x]
        == bindings_map(es).insert(k.0@, v@)[x] by {
        let b = choose|b: int| 0 <= b < u.len() && u[b].0.0@ == x;
        assert(bindings_map(u)[u[b].0.0@] == u[b].1@);
        if b != a {
            assert(bindings_map(es)[es[b].0.0@] == es[b].1@);
        }
    }
    assert(bindings_map(u) =~= bindings_map(es).insert(k.0@, v@));
}

/// Where the name `k` is bound: the first place, if any.
pub fn find_binding(es: &Vec<(Id, Value)>, k: &Id) -> (r: Option<usize>)
    ensures
        r matches Some(a) ==> a < es@.len() && es@[a as int].0.0@ == k.0@,
        r is None ==> forall|a: int| 0 <= a < es@.len() ==> es@[a].0.0@ != k.0@,
{
    let mut i: usize = 0;
    while i < es.len()
        invariant
            i <= es@.len(),
            forall|a: int| 0 <= a < i ==> es@[a].0.0@ != k.0@,
        decreases es@.len() - i,
    {
        if es[i].0.0 == k.0 {
            return Some(i);
        }
        i = i + 1;
    }
    None
}

/// Reading the variable `k` of the variables `m`: its value, or, for a
/// variable never set, undefined, which it then holds.
pub open spec fn table_get(m: Map<Seq<char>, ValueV>, k: Seq<char>) -> (Map<Seq<char>, ValueV>, ValueV) {
    if m.contains_key(k) {
        (m, m[k])
    } else {
        (m.insert(k, undefined()), undefined())
    }
}

/// Reading a variable gives back what was last written to it, and leaves the
/// variables as they were.
pub proof fn law_get_after_set(m: Map<Seq<char>, ValueV>, k: Seq<char>, v: ValueV)
    ensures
        table_get(m.insert(k, v), k) == (m.insert(k, v), v),
{
}

/// Reading a variable twice gives the same value, and the second read changes
/// nothing.
pub proof fn law_get_twice(m: Map<Seq<char>, ValueV>, k: Seq<char>)
    ensures
        table_get(table_get(m, k).0, k) == table_get(m, k),
{
    if !m.contains_key(k) {
        assert(m.insert(k, undefined()).contains_key(k));
    }
}

/// Writing one variable leaves what another reads as it was.
pub proof fn law_set_other(m: Map<Seq<char>, ValueV>, k: Seq<char>, j: Seq<char>, v: ValueV)
    requires
        k != j,
    ensures
        table_get(m.insert(k, v), j).1 == table_get(m, j).1,
{
}

/// Bindings with the same names and values, in the same places, bind alike.
pub proof fn lemma_bindings_same(a: Seq<(Id, Value)>, b: Seq<(Id, Value)>)
    requires
        a.len() == b.len(),
        forall|k: int| 0 <= k < a.len() ==> (#[trigger] a[k]).0.0@ == b[k].0.0@ && a[k].1@ == b[k].1@,
    ensures
        bindings_map(a) == bindings_map(b),
        bindings_distinct(a) == bindings_distinct(b),
    decreases a.len(),
{
    if a.len() > 0 {
        lemma_bindings_same(a.drop_last(), b.drop_last());
        assert(a.last() == a[a.len() - 1]);
    }
    if bindings_distinct(a) {
        assert forall|i: int, j: int| 0 <= i < j < b.len() implies b[i].0.0@ != b[j].0.0@ by {
            assert(a[i].0.0@ == b[i].0.0@ && a[j].0.0@ == b[j].0.0@);
        }
    }
    if bindings_distinct(b) {
        assert forall|i: int, j: int| 0 <= i < j < a.len() implies a[i].0.0@ != a[j].0.0@ by {
            assert(a[i].0.0@ == b[i].0.0@ && a[j].0.0@ == b[j].0.0@);
        }
    }
}

/// The variables of a program and their values.
#[derive(Debug, PartialEq)]
pub struct SymbolTable {
    entries: Vec<(Id, Value)>,
}

/// Binding a name that is not bound keeps the names distinct and adds it to
/// the map.
proof fn lemma_bindings_push(es: Seq<(Id, Value)>, k: Id, v: Value)
    requires
        bindings_distinct(es),
        forall|a: int| 0 <= a < es.len() ==> es[a].0.0@ != k.0@,
    ensures
        bindings_distinct(es.push((k, v))),
        bindings_map(es.push((k, v))) == bindings_map(es).insert(k.0@, v@),
{
    let u = es.push((k, v));
    assert(u.drop_last() =~= es);
    assert forall|a: int, b: int| 0 <= a < b < u.len() implies u[a].0.0@ != u[b].0.0@ by {
        if b == u.len() - 1 {
            assert(u[a] == es[a]);
        } else {
            assert(u[a] == es[a] && u[b] == es[b]);
        }
    }
}

impl Clone for SymbolTable {
    fn clone(&self) -> (r: SymbolTable)
        ensures
            r.view() == self.view(),
    {
        self.copy()
    }
}

impl Default for SymbolTable {
    fn default() -> (r: SymbolTable)
        ensures
            r.view() == Map::<Seq<char>, ValueV>::empty(),
    {
        SymbolTable::new()
    }
}

impl SymbolTable {
    /// No name is bound twice.
    #[verifier::type_invariant]
    spec fn inv(&self) -> bool {
        bindings_distinct(self.entries@)
    }

    /// The variables and their values.
    pub closed spec fn view(&self) -> Map<Seq<char>, ValueV> {
        bindings_map(self.entries@)
    }

    /// A table with no variables.
    pub fn new() -> (r: SymbolTable)
        ensures
            r.view() == Map::<Seq<char>, ValueV>::empty(),
    {
        SymbolTable { entries: Vec::new() }
    }

    /// A copy of the table: the same variables with the same values.
    pub fn copy(&self) -> (r: SymbolTable)
        ensures
            r.view() == self.view(),
    {
        proof {
            use_type_invariant(self);
        }
        let mut es: Vec<(Id, Value)> = Vec::new();
        let mut k: usize = 0;
        while k < self.entries.len()
            invariant
                k <= self.entries@.len(),
                es@.len() == k,
                forall|a: int| 0 <= a < k ==> (#[trigger] es@[a]).0.0@ == self.entries@[a].0.0@
                    && es@[a].1@ == self.entries@[a].1@,
            decreases self.entries@.len() - k,
        {
            let (key, val) = &self.entries[k];
            es.push((key.copy(), val.copy()));
            k = k + 1;
        }
        proof {
            lemma_bindings_same(es@, self.entries@);
        }
        SymbolTable { entries: es }
    }

    /// The value of `key`; a variable that was never set is created as
    /// undefined.
    pub fn get(&mut self, key: Id) -> (r: Value)
        ensures
            (final(self).view(), r@) == table_get(old(self).view(), key.0@),
    {
        proof {
            use_type_invariant(&*self);
            lemma_bindings_map(self.entries@);
        }
        match find_binding(&self.entries, &key) {
            Some(a) => self.entries[a].1.copy(),
            None => {
                let u = Value::Primitive(Primitive::Undefined);
                proof {
                    lemma_bindings_push(self.entries@, key, u);
                }
                let mut es: Vec<(Id, Value)> = Vec::new();
                std::mem::swap(&mut es, &mut self.entries);
                es.push((key, u));
                self.entries = es;
                Value::Primitive(Primitive::Undefined)
            },
        }
    }

    /// Sets `key` to `val`: the old value, if the variable was set.
    pub fn set(&mut self, key: Id, val: Value) -> (r: Option<Value>)
        ensures
            final(self).view() == old(self).view().insert(key.0@, val@),
            r is Some <==> old(self).view().contains_key(key.0@),
            r matches Some(o) ==> o@ == old(self).view()[key.0@],
    {
        proof {
            use_type_invariant(&*self);
            lemma_bindings_map(self.entries@);
        }
        match find_binding(&self.entries, &key) {
            Some(a) => {
                let old_val = self.entries[a].1.copy();
                proof {
                    lemma_bindings_update(self.entries@, a as int, key, val);
                }
                let mut es: Vec<(Id, Value)> = Vec::new();
                std::mem::swap(&mut es, &mut self.entries);
                es.set(a, (key, val));
                self.entries = es;
                Some(old_val)
            },
            None => {
                proof {
                    lemma_bindings_push(self.entries@, key, val);
                }
                let mut es: Vec<(Id, Value)> = Vec::new();
                std::mem::swap(&mut es, &mut self.entries);
                es.push((key, val));
                self.entries = es;
                None
            },
        }
    }
}

/// No name occurs twice.
pub open spec fn names_distinct(ks: Seq<Seq<char>>) -> bool {
    forall|a: int, b: int| 0 <= a < b < ks.len() ==> ks[a] != ks[b]
}

/// The names of `ks`, by their characters.
pub open spec fn names_view(ks: Seq<Id>) -> Seq<Seq<char>> {
    Seq::new(ks.len(), |a: int| ks[a].0@)
}

/// Looking `k` up in the numbered names `ks`: its number, the place where it
/// was first seen; a new name is numbered after all others and added.
pub open spec fn number_name(ks: Seq<Seq<char>>, k: Seq<char>) -> (Seq<Seq<char>>, int) {
    match ks.index_of_first(k) {
        Some(a) => (ks, a),
        None => (ks.push(k), ks.len() as int),
    }
}

/// The first place of `k` in `ks` is `a` when `k` is at `a` and not before.
pub proof fn lemma_first_place(ks: Seq<Seq<char>>, k: Seq<char>, a: int)
    requires
        0 <= a < ks.len(),
        ks[a] == k,
        forall|j: int| 0 <= j < a ==> ks[j] != k,
    ensures
        ks.index_of_first(k) == Some(a),
{
    assert(ks.contains(k));
    ks.index_of_first_ensures(k);
}

/// A name that is nowhere in `ks` has no first place.
pub proof fn lemma_no_place(ks: Seq<Seq<char>>, k: Seq<char>)
    requires
        forall|j: int| 0 <= j < ks.len() ==> ks[j] != k,
    ensures
        ks.index_of_first(k) is None,
{
    ks.index_of_first_ensures(k);
}

/// Where the name `k` is in `ks`, if it is there.
fn find_name(ks: &Vec<Id>, k: &Id) -> (r: Option<usize>)
    ensures
        r matches Some(a) ==> a < ks@.len() && ks@[a as int].0@ == k.0@ && forall|j: int|
            0 <= j < a ==> ks@[j].0@ != k.0@,
        r is None ==> forall|a: int| 0 <= a < ks@.len() ==> ks@[a].0@ != k.0@,
{
    let mut i: usize = 0;
    while i < ks.len()
        invariant
            i <= ks@.len(),
            forall|a: int| 0 <= a < i ==> ks@[a].0@ != k.0@,
        decreases ks@.len() - i,
    {
        if ks[i].0 == k.0 {
            return Some(i);
        }
        i = i + 1;
    }
    None
}

/// Numbers names from 0 in the order in which they are first seen.
#[derive(Debug, PartialEq)]
pub struct SymbolIdx {
    map: Vec<Id>,
    len: usize,
}

impl SymbolIdx {
    /// The names seen so far, in order.
    pub closed spec fn view(&self) -> Seq<Seq<char>> {
        names_view(self.map@)
    }

    /// No name is held twice.
    pub closed spec fn wf(&self) -> bool {
        names_distinct(self.view())
    }

    /// A numbering with no names.
    pub fn new() -> (r: SymbolIdx)
        ensures
            r.wf(),
            r.view() == Seq::<Seq<char>>::empty(),
    {
        SymbolIdx { map: Vec::new(), len: 0 }
    }

    /// The number of `key`: the one it was given when first seen, else the
    /// next free number, which it is given from now on.
    pub fn get(&mut self, key: Id) -> (r: usize)
        requires
            old(self).wf(),
        ensures
            final(self).wf(),
            (final(self).view(), r as int) == number_name(old(self).view(), key.0@),
    {
        let ghost ks = self.view();
        match find_name(&self.map, &key) {
            Some(a) => {
                proof {
                    lemma_first_place(ks, key.0@, a as int);
                }
                a
            },
            None => {
                let n = self.map.len();
                self.map.push(key);
                proof {
                    lemma_no_place(ks, key.0@);
                    assert(self.view() =~= ks.push(key.0@));
                }
                n
            },
        }
    }
}

/// Gives names numbers from 1 in the order in which they are first seen.
#[derive(Debug, PartialEq)]
pub struct Symbol {
    map: Vec<Id>,
    len: usize,
}

impl Symbol {
    /// The names seen so far, in order.
    pub closed spec fn view(&self) -> Seq<Seq<char>> {
        names_view(self.map@)
    }

    /// No name is held twice, and `len` counts them.
    pub closed spec fn wf(&self) -> bool {
        names_distinct(self.view()) && self.len == self.map@.len()
    }

    /// A numbering with no names.
    pub fn new() -> (r: Symbol)
        ensures
            r.wf(),
            r.view() == Seq::<Seq<char>>::empty(),
    {
        Symbol { map: Vec::new(), len: 0 }
    }

    /// The number of `key`: the one it was given when first seen, else one
    /// more than the count of names so far, which it is given from now on.
    pub fn get(&mut self, key: Id) -> (r: usize)
        requires
            old(self).wf(),
            old(self).view().len() < usize::MAX,
        ensures
            final(self).wf(),
            (final(self).view(), r - 1) == number_name(old(self).view(), key.0@),
    {
        let ghost ks = self.view();
        match find_name(&self.map, &key) {
            Some(a) => {
                proof {
                    lemma_first_place(ks, key.0@, a as int);
                }
                a + 1
            },
            None => {
                self.map.push(key);
                self.len = self.len + 1;
                proof {
                    lemma_no_place(ks, key.0@);
                    assert(self.view() =~= ks.push(key.0@));
                }
                self.len
            },
        }
    }
}

/// Numbering a name twice gives the same number, and changes nothing the
/// second time.
pub proof fn law_number_name_stable(ks: Seq<Seq<char>>, k: Seq<char>)
    ensures
        number_name(number_name(ks, k).0, k) == number_name(ks, k),
{
    ks.index_of_first_ensures(k);
    let (ks2, n) = number_name(ks, k);
    if ks.index_of_first(k) is None {
        lemma_first_place(ks2, k, ks.len() as int);
    }
}

/// Different names get different numbers, and numbering another name keeps
/// the number of the first.
pub proof fn law_number_name_distinct(ks: Seq<Seq<char>>, k1: Seq<char>, k2: Seq<char>)
    requires
        k1 != k2,
    ensures
        ({
            let (ks1, n1) = number_name(ks, k1);
            let (ks2, n2) = number_name(ks1, k2);
            n1 != n2 && number_name(ks2, k1).1 == n1
        }),
{
    let (ks1, n1) = number_name(ks, k1);
    ks.index_of_first_ensures(k1);
    if ks.index_of_first(k1) is None {
        lemma_first_place(ks1, k1, ks.len() as int);
    }
    law_number_name_stable(ks, k1);
    ks1.index_of_first_ensures(k1);
    ks1.index_of_first_ensures(k2);
    let (ks2, n2) = number_name(ks1, k2);
    assert(ks2[n2] == k2);
    assert(ks2[n1] == k1);
    assert forall|j: int| 0 <= j < n1 implies ks2[j] != k1 by {
        assert(ks2[j] == ks1[j]);
    }
    lemma_first_place(ks2, k1, n1);
}

/// Numbering the names `names` one after the other, starting from the
/// numbered names `ks`: the names numbered afterwards, and the number of each.
pub open spec fn number_names(ks: Seq<Seq<char>>, names: Seq<Seq<char>>) -> (Seq<Seq<char>>, Seq<int>)
    decreases names.len(),
{
    if names.len() == 0 {
        (ks, Seq::empty())
    } else {
        let (ks1, ns) = number_names(ks, names.drop_last());
        let (ks2, n) = number_name(ks1, names.last());
        (ks2, ns.push(n))
    }
}

/// Numbering one name keeps the names distinct and in their places, and the
/// number given is the place of the name.
pub proof fn lemma_number_name_place(ks: Seq<Seq<char>>, k: Seq<char>)
    requires
        names_distinct(ks),
    ensures
        ({
            let (ks1, n) = number_name(ks, k);
            &&& names_distinct(ks1)
            &&& ks.len() <= ks1.len()
            &&& forall|j: int| 0 <= j < ks.len() ==> ks1[j] == ks[j]
            &&& 0 <= n < ks1.len()
            &&& ks1[n] == k
        }),
{
    ks.index_of_first_ensures(k);
    if ks.index_of_first(k) is None {
        let ks1 = ks.push(k);
        assert forall|a: int, b: int| 0 <= a < b < ks1.len() implies ks1[a] != ks1[b] by {
            if b == ks.len() {
                assert(ks[a] != k);
            }
        }
    }
}

/// Numbering a sequence of names keeps the names distinct and in their
/// places, and each number given is the place of its name.
pub proof fn lemma_number_names_places(ks: Seq<Seq<char>>, names: Seq<Seq<char>>)
    requires
        names_distinct(ks),
    ensures
        ({
            let (ks2, ns) = number_names(ks, names);
            &&& names_distinct(ks2)
            &&& ks.len() <= ks2.len()
            &&& forall|j: int| 0 <= j < ks.len() ==> ks2[j] == ks[j]
            &&& ns.len() == names.len()
            &&& forall|q: int| 0 <= q < ns.len() ==> 0 <= #[trigger] ns[q] < ks2.len() && ks2[ns[q]] == names[q]
        }),
    decreases names.len(),
{
    if names.len() > 0 {
        let init = names.drop_last();
        lemma_number_names_places(ks, init);
        let (ks1, ns) = number_names(ks, init);
        lemma_number_name_place(ks1, names.last());
        let (ks2, n) = number_name(ks1, names.last());
        let ns2 = ns.push(n);
        assert forall|q: int| 0 <= q < ns2.len() implies 0 <= #[trigger] ns2[q] < ks2.len() && ks2[ns2[q]]
            == names[q] by {
            if q < ns.len() {
                assert(ns2[q] == ns[q]);
                assert(ks1[ns[q]] == init[q]);
            }
        }
    }
}

/// Over any sequence of lookups, two lookups give the same number exactly
/// when they look up the same name.
pub proof fn law_number_names_consistent(ks: Seq<Seq<char>>, names: Seq<Seq<char>>, p: int, q: int)
    requires
        names_distinct(ks),
        0 <= p < names.len(),
        0 <= q < names.len(),
    ensures
        number_names(ks, names).1.len() == names.len(),
        number_names(ks, names).1[p] == number_names(ks, names).1[q] <==> names[p] == names[q],
{
    lemma_number_names_places(ks, names);
    let (ks2, ns) = number_names(ks, names);
    assert(0 <= ns[p] < ks2.len() && ks2[ns[p]] == names[p]);
    assert(0 <= ns[q] < ks2.len() && ks2[ns[q]] == names[q]);
    if names[p] == names[q] && ns[p] != ns[q] {
        if ns[p] < ns[q] {
            assert(ks2[ns[p]] != ks2[ns[q]]);
        } else {
            assert(ks2[ns[q]] != ks2[ns[p]]);
        }
    }
}

/// Closing the frame just opened gives back where it started and the frames
/// as they were.
pub proof fn law_push_then_pop(frames: Seq<usize>, start: usize)
    ensures
        frames.push(start).drop_last() == frames,
        frames.push(start).last() == start,
{
    assert(frames.push(start).drop_last() =~= frames);
}

/// A stack of values divided into frames; the visible part is the top frame.
#[derive(Debug, PartialEq)]
pub struct Stack {
    val: Vec<Value>,
    pos: Vec<usize>,
}

impl Stack {
    /// Every frame starts within the values.
    pub closed spec fn wf(&self) -> bool {
        forall|a: int| 0 <= a < self.pos@.len() ==> self.pos@[a] <= self.val@.len()
    }

    /// The start of each frame, innermost last.
    pub closed spec fn frames(&self) -> Seq<usize> {
        self.pos@
    }

    /// The values, bottom first.
    pub closed spec fn values(&self) -> Seq<ValueV> {
        Seq::new(self.val@.len(), |a: int| self.val@[a]@)
    }

    /// Where the top frame starts: 0 with no frame.
    pub open spec fn spec_pos(&self) -> int {
        if self.frames().len() == 0 {
            0
        } else {
            self.frames().last() as int
        }
    }

    /// An empty stack with no frame.
    pub fn new() -> (r: Stack)
        ensures
            r.wf(),
            r.frames() == Seq::<usize>::empty(),
            r.values() == Seq::<ValueV>::empty(),
    {
        Stack { val: Vec::new(), pos: Vec::new() }
    }

    /// Where the top frame starts.
    pub fn pos(&self) -> (r: usize)
        ensures
            r == self.spec_pos(),
    {
        if self.pos.len() == 0 {
            0
        } else {
            self.pos[self.pos.len() - 1]
        }
    }

    /// Opens a frame at the top of the values.
    pub fn push_frame(&mut self)
        requires
            old(self).wf(),
        ensures
            final(self).wf(),
            final(self).frames() == old(self).frames().push(old(self).values().len() as usize),
            final(self).values() == old(self).values(),
    {
        let n = self.val.len();
        self.pos.push(n);
    }

    /// Closes the top frame: where it started, if there was one.
    pub fn pop_frame(&mut self) -> (r: Option<usize>)
        requires
            old(self).wf(),
        ensures
            final(self).wf(),
            final(self).values() == old(self).values(),
            old(self).frames().len() == 0 ==> r is None && final(self).frames() == old(self).frames(),
            old(self).frames().len() > 0 ==> r == Some(old(self).frames().last())
                && final(self).frames() == old(self).frames().drop_last(),
    {
        self.pos.pop()
    }

    /// The values of the top frame.
    pub fn frame(&self) -> (r: &[Value])
        requires
            self.wf(),
        ensures
            r@.len() == self.values().len() - self.spec_pos(),
            forall|a: int| 0 <= a < r@.len() ==> (#[trigger] r@[a])@ == self.values()[self.spec_pos() + a],
    {
        let p = self.pos();
        proof {
            if self.pos@.len() > 0 {
                assert(self.pos@[self.pos@.len() - 1] <= self.val@.len());
            }
        }
        vstd::slice::slice_subrange(self.val.as_slice(), p, self.val.len())
    }
}


/// Numbering the first `p` names of a sequence is the start of numbering
/// them all: the numbers given so far never change.
pub proof fn law_number_names_prefix(ks: Seq<Seq<char>>, names: Seq<Seq<char>>, p: int)
    requires
        0 <= p <= names.len(),
    ensures
        number_names(ks, names.take(p)).1 == number_names(ks, names).1.take(p),
        number_names(ks, names).1.len() == names.len(),
    decreases names.len(),
{
    if names.len() > 0 {
        let init = names.drop_last();
        law_number_names_prefix(ks, init, if p < names.len() { p } else { init.len() as int });
        if p < names.len() {
            assert(init.take(p) =~= names.take(p));
        } else {
            assert(names.take(p) =~= names);
        }
    } else {
        assert(names.take(p) =~= names);
    }
}

/// The names numbered after a sequence of lookups are those numbered before
/// and those looked up.
pub proof fn lemma_number_names_from(ks: Seq<Seq<char>>, names: Seq<Seq<char>>)
    ensures
        forall|x: Seq<char>| #[trigger] number_names(ks, names).0.contains(x) ==> ks.contains(x) || names.contains(x),
    decreases names.len(),
{
    if names.len() > 0 {
        let init = names.drop_last();
        lemma_number_names_from(ks, init);
        let ks1 = number_names(ks, init).0;
        ks1.index_of_first_ensures(names.last());
        assert forall|x: Seq<char>| #[trigger] number_names(ks, names).0.contains(x) implies ks.contains(x)
            || names.contains(x) by {
            if ks1.contains(x) {
                if init.contains(x) {
                    let j = choose|j: int| 0 <= j < init.len() && init[j] == x;
                    assert(names[j] == x);
                }
            } else {
                assert(names[names.len() - 1] == x);
            }
        }
    }
}

/// From no names, a name looked up for the first time gets the number of
/// names seen before it: names are numbered 0, 1, 2, ... in the order in
/// which they are first looked up.
pub proof fn law_number_names_first(names: Seq<Seq<char>>, q: int)
    requires
        0 <= q < names.len(),
        !names.take(q).contains(names[q]),
    ensures
        number_names(Seq::empty(), names).1[q] == number_names(Seq::empty(), names.take(q)).0.len(),
{
    let e = Seq::<Seq<char>>::empty();
    law_number_names_prefix(e, names, q + 1);
    let t = names.take(q + 1);
    assert(t.drop_last() =~= names.take(q));
    assert(t.last() == names[q]);
    lemma_number_names_from(e, names.take(q));
    law_number_names_prefix(e, names.take(q), 0);
    let ks1 = number_names(e, names.take(q)).0;
    ks1.index_of_first_ensures(names[q]);
    if ks1.contains(names[q]) {
        assert(!e.contains(names[q]));
    }
    assert(ks1.index_of_first(names[q]) is None);
    assert(number_name(ks1, names[q]).1 == ks1.len());
    assert(number_names(e, t).1 == number_names(e, names.take(q)).1.push(ks1.len() as int));
    assert(number_names(e, t).1[q] == number_names(e, names).1[q]);
}

} // verus!
