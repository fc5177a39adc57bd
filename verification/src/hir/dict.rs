use vstd::prelude::*;

use super::value::{Value, ValueV};
use crate::ast::Id;

verus! {

/// The entries of a dictionary, in order: each key's characters and the
/// view of its value.
pub type Entries = Seq<(Seq<char>, ValueV)>;

/// No key occurs twice.
pub open spec fn keys_distinct(es: Entries) -> bool {
    forall|a: int, b: int| 0 <= a < b < es.len() ==> es[a].0 != es[b].0
}

/// Whether some entry has the key `k`.
pub open spec fn entries_has(es: Entries, k: Seq<char>) -> bool {
    exists|a: int| 0 <= a < es.len() && es[a].0 == k
}

/// The value of the first entry with key `k`.
pub open spec fn entries_get(es: Entries, k: Seq<char>) -> Option<ValueV>
    decreases es.len(),
{
    if es.len() == 0 {
        None
    } else if es[0].0 == k {
        Some(es[0].1)
    } else {
        entries_get(es.drop_first(), k)
    }
}

/// Inserting `k` with `v`: an entry with that key keeps its place and takes
/// the new value; a new key goes last.
pub open spec fn entries_insert(es: Entries, k: Seq<char>, v: ValueV) -> Entries
    decreases es.len(),
{
    if es.len() == 0 {
        seq![(k, v)]
    } else if es[0].0 == k {
        es.update(0, (k, v))
    } else {
        seq![es[0]] + entries_insert(es.drop_first(), k, v)
    }
}

/// Inserting every entry of `src`, in order, into `acc`.
pub open spec fn entries_merge(acc: Entries, src: Entries) -> Entries
    decreases src.len(),
{
    if src.len() == 0 {
        acc
    } else {
        let m = entries_merge(acc, src.drop_last());
        entries_insert(m, src.last().0, src.last().1)
    }
}

/// Inserting a key that is not there appends its entry.
pub proof fn lemma_insert_new(es: Entries, k: Seq<char>, v: ValueV)
    requires
        !entries_has(es, k),
    ensures
        entries_insert(es, k, v) == es.push((k, v)),
    decreases es.len(),
{
    if es.len() > 0 {
        assert(es[0].0 != k);
        assert forall|a: int| 0 <= a < es.drop_first().len() implies es.drop_first()[a].0 != k by {
            assert(es.drop_first()[a] == es[a + 1]);
        }
        lemma_insert_new(es.drop_first(), k, v);
        assert(seq![es[0]] + es.drop_first().push((k, v)) =~= es.push((k, v)));
    }
}

/// Inserting keeps keys distinct, and the keys after it are those before it
/// and the inserted one.
pub proof fn lemma_insert_keys(es: Entries, k: Seq<char>, v: ValueV)
    ensures
        forall|x: Seq<char>|
            #[trigger] entries_has(entries_insert(es, k, v), x) <==> (entries_has(es, x) || x == k),
        keys_distinct(es) ==> keys_distinct(entries_insert(es, k, v)),
    decreases es.len(),
{
    let r = entries_insert(es, k, v);
    if es.len() == 0 {
        assert forall|x: Seq<char>| #[trigger] entries_has(r, x) <==> (entries_has(es, x) || x == k) by {
            if x == k {
                assert(r[0].0 == k);
            }
        }
    } else if es[0].0 == k {
        assert forall|x: Seq<char>| #[trigger] entries_has(r, x) <==> (entries_has(es, x) || x == k) by {
            if entries_has(es, x) {
                let a = choose|a: int| 0 <= a < es.len() && es[a].0 == x;
                assert(r[a].0 == x);
            }
            if entries_has(r, x) {
                let a = choose|a: int| 0 <= a < r.len() && r[a].0 == x;
                assert(es[a].0 == x);
            }
            if x == k {
                assert(r[0].0 == x);
            }
        }
    } else {
        let t = es.drop_first();
        lemma_insert_keys(t, k, v);
        let rt = entries_insert(t, k, v);
        assert(r == seq![es[0]] + rt);
        assert forall|x: Seq<char>| #[trigger] entries_has(r, x) <==> (entries_has(es, x) || x == k) by {
            if entries_has(es, x) {
                let a = choose|a: int| 0 <= a < es.len() && es[a].0 == x;
                if a == 0 {
                    assert(r[0].0 == x);
                } else {
                    assert(t[a - 1].0 == x);
                    assert(entries_has(rt, x));
                    let b = choose|b: int| 0 <= b < rt.len() && rt[b].0 == x;
                    assert(r[b + 1].0 == x);
                }
            }
            if x == k {
                assert(entries_has(rt, x));
                let b = choose|b: int| 0 <= b < rt.len() && rt[b].0 == x;
                assert(r[b + 1].0 == x);
            }
            if entries_has(r, x) {
                let a = choose|a: int| 0 <= a < r.len() && r[a].0 == x;
                if a == 0 {
                    assert(es[0].0 == x);
                } else {
                    assert(rt[a - 1].0 == x);
                    assert(entries_has(rt, x));
                    if x != k {
                        assert(entries_has(t, x));
                        let b = choose|b: int| 0 <= b < t.len() && t[b].0 == x;
                        assert(es[b + 1].0 == x);
                    }
                }
            }
        }
        if keys_distinct(es) {
            assert(keys_distinct(t)) by {
                assert forall|a: int, b: int| 0 <= a < b < t.len() implies t[a].0 != t[b].0 by {
                    assert(t[a] == es[a + 1] && t[b] == es[b + 1]);
                }
            }
            assert(!entries_has(t, es[0].0)) by {
                if entries_has(t, es[0].0) {
                    let b = choose|b: int| 0 <= b < t.len() && t[b].0 == es[0].0;
                    assert(es[b + 1].0 == es[0].0);
                }
            }
            assert(!entries_has(rt, es[0].0));
            assert forall|a: int, b: int| 0 <= a < b < r.len() implies r[a].0 != r[b].0 by {
                if a == 0 {
                    assert(r[b] == rt[b - 1]);
                    if r[b].0 == r[0].0 {
                        assert(entries_has(rt, es[0].0));
                    }
                } else {
                    assert(r[a] == rt[a - 1] && r[b] == rt[b - 1]);
                }
            }
        }
    }
}

/// Merging keeps keys distinct.
pub proof fn lemma_merge_distinct(acc: Entries, src: Entries)
    requires
        keys_distinct(acc),
    ensures
        keys_distinct(entries_merge(acc, src)),
    decreases src.len(),
{
    if src.len() > 0 {
        lemma_merge_distinct(acc, src.drop_last());
        lemma_insert_keys(entries_merge(acc, src.drop_last()), src.last().0, src.last().1);
    }
}

/// Merging entries with distinct keys into nothing gives those entries.
pub proof fn lemma_merge_empty(es: Entries)
    requires
        keys_distinct(es),
    ensures
        entries_merge(Seq::empty(), es) == es,
    decreases es.len(),
{
    if es.len() > 0 {
        let t = es.drop_last();
        assert(keys_distinct(t)) by {
            assert forall|a: int, b: int| 0 <= a < b < t.len() implies t[a].0 != t[b].0 by {
                assert(t[a] == es[a] && t[b] == es[b]);
            }
        }
        lemma_merge_empty(t);
        assert(!entries_has(t, es.last().0)) by {
            if entries_has(t, es.last().0) {
                let b = choose|b: int| 0 <= b < t.len() && t[b].0 == es.last().0;
                assert(es[b].0 == es[es.len() - 1].0);
            }
        }
        lemma_insert_new(t, es.last().0, es.last().1);
        assert(t.push(es.last()) =~= es);
    }
}

/// Looking a key up after inserting it gives the inserted value.
pub proof fn law_insert_get(es: Entries, k: Seq<char>, v: ValueV)
    ensures
        entries_get(entries_insert(es, k, v), k) == Some(v),
    decreases es.len(),
{
    if es.len() > 0 && es[0].0 != k {
        law_insert_get(es.drop_first(), k, v);
        let r = entries_insert(es, k, v);
        assert(r.drop_first() =~= entries_insert(es.drop_first(), k, v));
    }
}

/// Inserting one key leaves what another key looks up as it was.
pub proof fn law_insert_other(es: Entries, k: Seq<char>, v: ValueV, j: Seq<char>)
    requires
        j != k,
    ensures
        entries_get(entries_insert(es, k, v), j) == entries_get(es, j),
    decreases es.len(),
{
    let r = entries_insert(es, k, v);
    if es.len() == 0 {
        assert(r[0] == (k, v));
        assert(r.drop_first() =~= Seq::<(Seq<char>, ValueV)>::empty());
        assert(entries_get(r.drop_first(), j) == None::<ValueV>);
    } else if es[0].0 == k {
        assert(r[0] == (k, v));
        assert(r.drop_first() =~= es.drop_first());
    } else {
        law_insert_other(es.drop_first(), k, v, j);
        assert(r[0] == es[0]);
        assert(r.drop_first() =~= entries_insert(es.drop_first(), k, v));
    }
}

/// A dictionary from names to values that remembers insertion order, held in
/// an `indexmap::IndexMap`.
#[verifier::external_body]
#[derive(Debug, PartialEq)]
pub struct Dict {
    map: indexmap::IndexMap<Id, Value>,
}

/// The entries of the map inside `d`, in the map's order.
pub uninterp spec fn dict_entries(d: Dict) -> Entries;

impl Dict {
    /// `IndexMap::new`: a map with no entries.
    #[verifier::external_body]
    pub fn new() -> (r: Dict)
        ensures
            dict_entries(r) == Seq::<(Seq<char>, ValueV)>::empty(),
    {
        Dict { map: indexmap::IndexMap::new() }
    }

    /// `IndexMap::insert`: as its documentation says, an existing key keeps
    /// its place and takes the new value, whose old value is returned; a new
    /// key goes last.  No key is ever held twice.
    #[verifier::external_body]
    pub fn insert(&mut self, key: Id, val: Value) -> (r: Option<Value>)
        ensures
            dict_entries(*final(self)) == entries_insert(dict_entries(*old(self)), key.0@, val@),
            r is Some <==> entries_has(dict_entries(*old(self)), key.0@),
            r matches Some(o) ==> entries_get(dict_entries(*old(self)), key.0@) == Some(o@),
    {
        self.map.insert(key, val)
    }

    /// `IndexMap::clone`: the same entries in the same order (a value is
    /// cloned field by field).
    #[verifier::external_body]
    pub fn copy(&self) -> (r: Dict)
        ensures
            dict_entries(r) == dict_entries(*self),
    {
        Dict { map: self.map.clone() }
    }

    /// `IndexMap::iter`, collected: the entries by reference, in order.  An
    /// `IndexMap` holds no key twice.
    #[verifier::external_body]
    pub fn entries(&self) -> (r: Vec<(&Id, &Value)>)
        ensures
            forall|a: int, b: int| 0 <= a < b < r@.len() ==> r@[a].0.0@ != r@[b].0.0@,
            r@.len() == dict_entries(*self).len(),
            forall|a: int|
                0 <= a < r@.len() ==> (#[trigger] r@[a]).0.0@ == dict_entries(*self)[a].0
                    && r@[a].1@ == dict_entries(*self)[a].1,
    {
        self.map.iter().collect()
    }

    /// `IndexMap::into_iter`, collected: the entries, in order.  An
    /// `IndexMap` holds no key twice.
    #[verifier::external_body]
    pub fn into_entries(self) -> (r: Vec<(Id, Value)>)
        ensures
            forall|a: int, b: int| 0 <= a < b < r@.len() ==> r@[a].0.0@ != r@[b].0.0@,
            r@.len() == dict_entries(self).len(),
            forall|a: int|
                0 <= a < r@.len() ==> (#[trigger] r@[a]).0.0@ == dict_entries(self)[a].0
                    && r@[a].1@ == dict_entries(self)[a].1,
    {
        self.map.into_iter().collect()
    }
}

impl Clone for Dict {
    fn clone(&self) -> (r: Dict)
        ensures
            dict_entries(r) == dict_entries(*self),
    {
        self.copy()
    }
}

} // verus!
