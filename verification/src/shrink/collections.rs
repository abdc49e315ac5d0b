//! Shrinking of sets and maps.

use vstd::prelude::*;
use std::collections::{BTreeMap, BTreeSet, HashMap, HashSet};
use vstd::std_specs::btree::{spec_btree_keys_iter, spec_btree_map_iter};
use vstd::std_specs::hash::{spec_hash_keys_iter, spec_hash_map_iter};
use vstd::std_specs::iter::IteratorSpec;
use crate::primitives::collections::{
    CollectionKey, btree_set_views, clone_hash_set, hash_set_views, key_laws,
    lemma_btree_set_views_push, lemma_hash_set_views_push, lemma_pair_keys, pair_keys,
};
use crate::shrink::{Shrinkable, models};

verus! {

/// The sets made from `s` by replacing `e` with each of `cs` that `s` does not hold, in
/// order.
pub open spec fn set_replaced<T>(s: Set<T>, e: T, cs: Seq<T>) -> Seq<Set<T>>
    decreases cs.len(),
{
    if cs.len() == 0 {
        seq![]
    } else {
        set_replaced(s, e, cs.drop_last()) + if !s.contains(cs.last()) {
            seq![s.remove(e).insert(cs.last())]
        } else {
            seq![]
        }
    }
}

/// The replacement candidates of the elements `order[0..ecs.len()]`, element by element.
pub open spec fn set_replacements<T>(s: Set<T>, order: Seq<T>, ecs: Seq<Seq<T>>) -> Seq<Set<T>>
    decreases ecs.len(),
{
    if ecs.len() == 0 {
        seq![]
    } else {
        set_replacements(s, order, ecs.drop_last()) + set_replaced(s, order[ecs.len() - 1], ecs.last())
    }
}

/// The candidates of shrinking the set `s`, whose elements are listed once each in
/// `order`, where `ecs[i]` are the candidates of `order[i]`: the empty set when `s` has an
/// element; the set without each element; element by element, the set with the element
/// replaced by each of its candidates that `s` does not hold; then, when it has more than
/// two elements, the first half and the second half of its elements.
pub open spec fn set_shrink_candidates<T>(s: Set<T>, order: Seq<T>, ecs: Seq<Seq<T>>) -> Seq<Set<T>> {
    (if order.len() > 0 {
        seq![Set::<T>::empty()]
    } else {
        seq![]
    }) + Seq::new(order.len(), |i: int| s.remove(order[i])) + set_replacements(s, order, ecs) + (
    if order.len() > 2 {
        seq![
            order.take(order.len() as int / 2).to_set(),
            order.skip(order.len() as int / 2).to_set(),
        ]
    } else {
        seq![]
    })
}

/// Each of `ecs` is a list of candidates of the element at the same place in `order`.
pub open spec fn each_element_shrinks<T: Shrinkable>(order: Seq<T>, ecs: Seq<Seq<T>>) -> bool {
    &&& ecs.len() == order.len()
    &&& forall|i: int|
        0 <= i < ecs.len() ==> T::shrinks_to(order[i].model(), models(#[trigger] ecs[i]))
}

/// Growing a listing by one element grows its set by that element.
proof fn lemma_take_to_set<T>(order: Seq<T>, c: int)
    requires
        0 <= c < order.len(),
    ensures
        order.take(c + 1).to_set() == order.take(c).to_set().insert(order[c]),
{
    assert(order.take(c + 1) =~= order.take(c).push(order[c]));
    order.take(c).lemma_push_to_set_commute(order[c]);
}

/// Growing a slice of a listing by one element grows its set by that element.
proof fn lemma_subrange_to_set<T>(order: Seq<T>, lo: int, c: int)
    requires
        0 <= lo <= c < order.len(),
    ensures
        order.subrange(lo, c + 1).to_set() == order.subrange(lo, c).to_set().insert(order[c]),
{
    assert(order.subrange(lo, c + 1) =~= order.subrange(lo, c).push(order[c]));
    order.subrange(lo, c).lemma_push_to_set_commute(order[c]);
}

/// Each replacement brings in an element that `s` does not hold, so differs from `s`.
proof fn lemma_set_replaced_differ<T>(s: Set<T>, e: T, cs: Seq<T>)
    ensures
        forall|i: int|
            0 <= i < set_replaced(s, e, cs).len() ==> #[trigger] set_replaced(s, e, cs)[i] != s,
    decreases cs.len(),
{
    if cs.len() > 0 {
        lemma_set_replaced_differ(s, e, cs.drop_last());
        let prev = set_replaced(s, e, cs.drop_last());
        let r = set_replaced(s, e, cs);
        assert forall|i: int| 0 <= i < r.len() implies #[trigger] r[i] != s by {
            if i < prev.len() {
                assert(r[i] == prev[i]);
            } else {
                assert(r[i].contains(cs.last()));
            }
        }
    }
}

proof fn lemma_set_replacements_differ<T>(s: Set<T>, order: Seq<T>, ecs: Seq<Seq<T>>)
    requires
        ecs.len() <= order.len(),
    ensures
        forall|i: int|
            0 <= i < set_replacements(s, order, ecs).len() ==> #[trigger] set_replacements(
                s,
                order,
                ecs,
            )[i] != s,
    decreases ecs.len(),
{
    if ecs.len() > 0 {
        lemma_set_replacements_differ(s, order, ecs.drop_last());
        let k = ecs.len() - 1;
        lemma_set_replaced_differ(s, order[k], ecs.last());
        let prev = set_replacements(s, order, ecs.drop_last());
        let last = set_replaced(s, order[k], ecs.last());
        let r = set_replacements(s, order, ecs);
        assert forall|i: int| 0 <= i < r.len() implies #[trigger] r[i] != s by {
            if i < prev.len() {
                assert(r[i] == prev[i]);
            } else {
                assert(r[i] == last[i - prev.len()]);
            }
        }
    }
}

/// Shrinking a set never proposes the set itself: every candidate differs from the set,
/// whose elements are listed once each in `order`.
pub proof fn lemma_set_shrink_candidates_differ<T>(s: Set<T>, order: Seq<T>, ecs: Seq<Seq<T>>)
    requires
        order.to_set() == s,
        order.no_duplicates(),
        ecs.len() == order.len(),
    ensures
        forall|i: int|
            0 <= i < set_shrink_candidates(s, order, ecs).len() ==> #[trigger] set_shrink_candidates(
                s,
                order,
                ecs,
            )[i] != s,
{
    lemma_set_replacements_differ(s, order, ecs);
    let n = order.len();
    let c = set_shrink_candidates(s, order, ecs);
    let a: Seq<Set<T>> = if n > 0 {
        seq![Set::<T>::empty()]
    } else {
        seq![]
    };
    let b = Seq::new(n, |i: int| s.remove(order[i]));
    let r = set_replacements(s, order, ecs);
    assert forall|i: int| 0 <= i < c.len() implies #[trigger] c[i] != s by {
        if i < a.len() {
            assert(order.to_set().contains(order[0]));
            assert(!c[i].contains(order[0]));
        } else if i < a.len() + b.len() {
            let j = i - a.len();
            assert(c[i] == s.remove(order[j]));
            assert(order.to_set().contains(order[j]));
            assert(!c[i].contains(order[j]));
        } else if i < a.len() + b.len() + r.len() {
            assert(c[i] == r[i - a.len() - b.len()]);
        } else {
            let mid = n as int / 2;
            assert(order.to_set().contains(order[n - 1]));
            assert(order.to_set().contains(order[0]));
            if i == a.len() + b.len() + r.len() {
                assert(c[i] == order.take(mid).to_set());
                assert(!order.take(mid).contains(order[n - 1]));
                assert(!c[i].contains(order[n - 1]));
            } else {
                assert(c[i] == order.skip(mid).to_set());
                assert(!order.skip(mid).contains(order[0]));
                assert(!c[i].contains(order[0]));
            }
        }
    }
}

/// The candidates of set shrinking, given the elements of `s` in iteration order: the
/// empty set, `s` without each element in turn, and, for more than two elements, the
/// first and the second half.
pub open spec fn set_removal_candidates<T>(s: Set<T>, order: Seq<T>) -> Seq<Set<T>> {
    seq![Set::<T>::empty()] + Seq::new(order.len(), |i: int| s.remove(order[i])) + if order.len()
        > 2 {
        seq![order.take(order.len() as int / 2).to_set(), order.skip(order.len() as int / 2).to_set()]
    } else {
        seq![]
    }
}

/// Set shrinking by removal: the empty set, the set without each element (in ascending
/// order), and, for more than two elements, its lower and its upper half.
pub fn set_shrink<T: CollectionKey>(set: &BTreeSet<T>) -> (r: Vec<BTreeSet<T>>)
    ensures
        exists|order: Seq<T>|
            {
                &&& order.to_set() == set@
                &&& order.no_duplicates()
                &&& btree_set_views(r@) == #[trigger] set_removal_candidates(set@, order)
            },
{
    proof {
        T::lemma_key_laws();
    }
    let ghost s = set@;
    let ghost order = spec_btree_keys_iter(set).remaining().unref();
    let mut shrinks: Vec<BTreeSet<T>> = Vec::new();
    let n = set.len();
    shrinks.push(BTreeSet::new());
    let ghost base1 = btree_set_views(shrinks@);
    assert(base1 =~= seq![Set::<T>::empty()]);
    for item in it: set.iter()
        invariant
            key_laws::<T>(),
            s == set@,
            it.seq().unref() == order,
            btree_set_views(shrinks@) == base1 + Seq::new(it.index() as nat, |i: int| s.remove(order[i])),
    {
        let ghost c: int = it.index();
        assert(*item == order[c]);
        let mut smaller = set.clone();
        smaller.remove(item);
        assert(smaller@ == s.remove(order[c]));
        let ghost prev = shrinks@;
        shrinks.push(smaller);
        proof {
            lemma_btree_set_views_push(prev, smaller);
        }
        assert(btree_set_views(shrinks@) =~= base1 + Seq::new((c + 1) as nat, |i: int| s.remove(order[i])));
    }
    if n > 2 {
        let mid = n / 2;
        let mut first: BTreeSet<T> = BTreeSet::new();
        let mut second: BTreeSet<T> = BTreeSet::new();
        let mut count: usize = 0;
        for item in it: set.iter()
            invariant
                key_laws::<T>(),
                s == set@,
                n == order.len(),
                mid == n / 2,
                it.seq().unref() == order,
                count == it.index(),
                first@ == order.take(if count <= mid { count as int } else { mid as int }).to_set(),
                second@ == order.subrange(mid as int, if count <= mid { mid as int } else { count as int }).to_set(),
        {
            assert(*item == order[count as int]);
            let copy = item.clone();
            assert(cloned(*item, copy));
            if count < mid {
                first.insert(copy);
                proof {
                    lemma_take_to_set(order, count as int);
                }
            } else {
                second.insert(copy);
                proof {
                    lemma_subrange_to_set(order, mid as int, count as int);
                }
            }
            count = count + 1;
        }
        assert(order.take(mid as int) =~= order.take(order.len() as int / 2));
        assert(order.subrange(mid as int, n as int) =~= order.skip(order.len() as int / 2));
        let ghost prev = shrinks@;
        shrinks.push(first);
        shrinks.push(second);
        assert(btree_set_views(shrinks@) =~= btree_set_views(prev).push(first@).push(second@));
    }
    assert(order.no_duplicates());
    assert(btree_set_views(shrinks@) =~= set_removal_candidates(s, order));
    shrinks
}

impl<T: Shrinkable + CollectionKey> Shrinkable for BTreeSet<T> {
    type Model = Set<T>;

    open spec fn model(&self) -> Set<T> {
        self@
    }

    open spec fn shrinks_to(m: Set<T>, candidates: Seq<Set<T>>) -> bool {
        exists|order: Seq<T>, ecs: Seq<Seq<T>>|
            {
                &&& order.to_set() == m
                &&& order.no_duplicates()
                &&& each_element_shrinks(order, ecs)
                &&& candidates == #[trigger] set_shrink_candidates(m, order, ecs)
            }
    }

    fn shrink(&self) -> (r: Vec<BTreeSet<T>>) {
        proof {
            T::lemma_key_laws();
        }
        let ghost s = self@;
        let ghost order = spec_btree_keys_iter(self).remaining().unref();
        let mut shrinks: Vec<BTreeSet<T>> = Vec::new();
        let n = self.len();
        if n > 0 {
            shrinks.push(BTreeSet::new());
        }
        let ghost base1 = btree_set_views(shrinks@);
        for item in it: self.iter()
            invariant
                key_laws::<T>(),
                s == self@,
                it.seq().unref() == order,
                btree_set_views(shrinks@) == base1 + Seq::new(
                    it.index() as nat,
                    |i: int| s.remove(order[i]),
                ),
        {
            let ghost c: int = it.index();
            assert(*item == order[c]);
            let mut smaller = self.clone();
            smaller.remove(item);
            assert(smaller@ == s.remove(order[c]));
            let ghost prev = shrinks@;
            shrinks.push(smaller);
            proof {
                lemma_btree_set_views_push(prev, smaller);
            }
            assert(btree_set_views(shrinks@) =~= base1 + Seq::new(
                (c + 1) as nat,
                |i: int| s.remove(order[i]),
            ));
        }
        let ghost base2 = btree_set_views(shrinks@);
        let ghost mut ecs: Seq<Seq<T>> = seq![];
        for item in it: self.iter()
            invariant
                key_laws::<T>(),
                s == self@,
                it.seq().unref() == order,
                order.to_set() == s,
                ecs.len() == it.index(),
                forall|i: int|
                    0 <= i < ecs.len() ==> T::shrinks_to(order[i].model(), models(#[trigger] ecs[i])),
                btree_set_views(shrinks@) == base2 + set_replacements(s, order, ecs),
        {
            let ghost k: int = ecs.len() as int;
            assert(*item == order[k]);
            let cands = item.shrink();
            let ghost cs = cands@;
            assert(cs.map_values(|x: T| x.model()) =~= models(cs));
            let ghost before = btree_set_views(shrinks@);
            let ghost mut done: Seq<T> = seq![];
            for c in jt: cands.into_iter()
                invariant
                    key_laws::<T>(),
                    s == self@,
                        jt.seq() == cs,
                    done == cs.take(jt.index()),
                    btree_set_views(shrinks@) == before + set_replaced(s, *item, done),
            {
                let ghost prev = shrinks@;
                let ghost j: int = jt.index();
                if !self.contains(&c) {
                    let mut shrunk = self.clone();
                    shrunk.remove(item);
                    shrunk.insert(c);
                    shrinks.push(shrunk);
                    assert(btree_set_views(shrinks@) =~= btree_set_views(prev).push(shrunk@));
                }
                proof {
                    let d2 = cs.take(j + 1);
                    assert(d2.drop_last() =~= done);
                    done = d2;
                }
            }
            proof {
                assert(done =~= cs);
                let e2 = ecs.push(cs);
                assert(e2.drop_last() =~= ecs);
                ecs = e2;
            }
        }
        if n > 2 {
            let mid = n / 2;
            let mut first: BTreeSet<T> = BTreeSet::new();
            let mut second: BTreeSet<T> = BTreeSet::new();
            let mut count: usize = 0;
            for item in it: self.iter()
                invariant
                    key_laws::<T>(),
                    s == self@,
                    n == order.len(),
                    mid == n / 2,
                    it.seq().unref() == order,
                    count == it.index(),
                    first@ == order.take(if count <= mid { count as int } else { mid as int }).to_set(),
                    second@ == order.subrange(
                        mid as int,
                        if count <= mid { mid as int } else { count as int },
                    ).to_set(),
            {
                assert(*item == order[count as int]);
                let copy = item.clone();
                assert(cloned(*item, copy));
                if count < mid {
                    first.insert(copy);
                    proof {
                        lemma_take_to_set(order, count as int);
                    }
                } else {
                    second.insert(copy);
                    proof {
                        lemma_subrange_to_set(order, mid as int, count as int);
                    }
                }
                count = count + 1;
            }
            assert(order.take(mid as int) =~= order.take(order.len() as int / 2));
            assert(order.subrange(mid as int, n as int) =~= order.skip(order.len() as int / 2));
            let ghost prev = shrinks@;
            shrinks.push(first);
            shrinks.push(second);
            assert(btree_set_views(shrinks@) =~= btree_set_views(prev).push(first@).push(second@));
        }
        assert(order.no_duplicates());
        assert(btree_set_views(shrinks@) =~= set_shrink_candidates(s, order, ecs));
        assert(shrinks@.map_values(|x: BTreeSet<T>| x.model()) =~= btree_set_views(shrinks@));
        shrinks
    }

    fn duplicate(&self) -> (r: BTreeSet<T>) {
        self.clone()
    }
}

impl<T: Shrinkable + CollectionKey> Shrinkable for HashSet<T> {
    type Model = Set<T>;

    open spec fn model(&self) -> Set<T> {
        self@
    }

    open spec fn shrinks_to(m: Set<T>, candidates: Seq<Set<T>>) -> bool {
        exists|order: Seq<T>, ecs: Seq<Seq<T>>|
            {
                &&& order.to_set() == m
                &&& order.no_duplicates()
                &&& each_element_shrinks(order, ecs)
                &&& candidates == #[trigger] set_shrink_candidates(m, order, ecs)
            }
    }

    fn shrink(&self) -> (r: Vec<HashSet<T>>) {
        proof {
            T::lemma_key_laws();
        }
        let ghost s = self@;
        let ghost order = spec_hash_keys_iter(self).remaining().unref();
        let mut shrinks: Vec<HashSet<T>> = Vec::new();
        let n = self.len();
        if n > 0 {
            shrinks.push(HashSet::new());
        }
        let ghost base1 = hash_set_views(shrinks@);
        for item in it: self.iter()
            invariant
                key_laws::<T>(),
                s == self@,
                it.seq().unref() == order,
                hash_set_views(shrinks@) == base1 + Seq::new(
                    it.index() as nat,
                    |i: int| s.remove(order[i]),
                ),
        {
            let ghost c: int = it.index();
            assert(*item == order[c]);
            let mut smaller = clone_hash_set(self);
            smaller.remove(item);
            assert(smaller@ == s.remove(order[c]));
            let ghost prev = shrinks@;
            shrinks.push(smaller);
            proof {
                lemma_hash_set_views_push(prev, smaller);
            }
            assert(hash_set_views(shrinks@) =~= base1 + Seq::new(
                (c + 1) as nat,
                |i: int| s.remove(order[i]),
            ));
        }
        let ghost base2 = hash_set_views(shrinks@);
        let ghost mut ecs: Seq<Seq<T>> = seq![];
        for item in it: self.iter()
            invariant
                key_laws::<T>(),
                s == self@,
                it.seq().unref() == order,
                order.to_set() == s,
                ecs.len() == it.index(),
                forall|i: int|
                    0 <= i < ecs.len() ==> T::shrinks_to(order[i].model(), models(#[trigger] ecs[i])),
                hash_set_views(shrinks@) == base2 + set_replacements(s, order, ecs),
        {
            let ghost k: int = ecs.len() as int;
            assert(*item == order[k]);
            let cands = item.shrink();
            let ghost cs = cands@;
            assert(cs.map_values(|x: T| x.model()) =~= models(cs));
            let ghost before = hash_set_views(shrinks@);
            let ghost mut done: Seq<T> = seq![];
            for c in jt: cands.into_iter()
                invariant
                    key_laws::<T>(),
                    s == self@,
                        jt.seq() == cs,
                    done == cs.take(jt.index()),
                    hash_set_views(shrinks@) == before + set_replaced(s, *item, done),
            {
                let ghost prev = shrinks@;
                let ghost j: int = jt.index();
                if !self.contains(&c) {
                    let mut shrunk = clone_hash_set(self);
                    shrunk.remove(item);
                    shrunk.insert(c);
                    shrinks.push(shrunk);
                    assert(hash_set_views(shrinks@) =~= hash_set_views(prev).push(shrunk@));
                }
                proof {
                    let d2 = cs.take(j + 1);
                    assert(d2.drop_last() =~= done);
                    done = d2;
                }
            }
            proof {
                assert(done =~= cs);
                let e2 = ecs.push(cs);
                assert(e2.drop_last() =~= ecs);
                ecs = e2;
            }
        }
        if n > 2 {
            let mid = n / 2;
            let mut first: HashSet<T> = HashSet::new();
            let mut second: HashSet<T> = HashSet::new();
            let mut count: usize = 0;
            for item in it: self.iter()
                invariant
                    key_laws::<T>(),
                    s == self@,
                    n == order.len(),
                    mid == n / 2,
                    it.seq().unref() == order,
                    count == it.index(),
                    first@ == order.take(if count <= mid { count as int } else { mid as int }).to_set(),
                    second@ == order.subrange(
                        mid as int,
                        if count <= mid { mid as int } else { count as int },
                    ).to_set(),
            {
                assert(*item == order[count as int]);
                let copy = item.clone();
                assert(cloned(*item, copy));
                if count < mid {
                    first.insert(copy);
                    proof {
                        lemma_take_to_set(order, count as int);
                    }
                } else {
                    second.insert(copy);
                    proof {
                        lemma_subrange_to_set(order, mid as int, count as int);
                    }
                }
                count = count + 1;
            }
            assert(order.take(mid as int) =~= order.take(order.len() as int / 2));
            assert(order.subrange(mid as int, n as int) =~= order.skip(order.len() as int / 2));
            let ghost prev = shrinks@;
            shrinks.push(first);
            shrinks.push(second);
            assert(hash_set_views(shrinks@) =~= hash_set_views(prev).push(first@).push(second@));
        }
        assert(order.no_duplicates());
        assert(hash_set_views(shrinks@) =~= set_shrink_candidates(s, order, ecs));
        assert(shrinks@.map_values(|x: HashSet<T>| x.model()) =~= hash_set_views(shrinks@));
        shrinks
    }

    fn duplicate(&self) -> (r: HashSet<T>) {
        clone_hash_set(self)
    }
}

/// The map with each value replaced by its model.
pub open spec fn model_map<K, V: Shrinkable>(m: Map<K, V>) -> Map<K, V::Model> {
    m.map_values(|v: V| v.model())
}

/// The models of a sequence of ordered maps.
pub open spec fn btree_map_models<K, V: Shrinkable>(s: Seq<BTreeMap<K, V>>) -> Seq<Map<K, V::Model>> {
    s.map_values(|x: BTreeMap<K, V>| model_map(x@))
}

/// Appending a map appends its model.
proof fn lemma_btree_map_models_push<K, V: Shrinkable>(s: Seq<BTreeMap<K, V>>, x: BTreeMap<K, V>)
    ensures
        btree_map_models(s.push(x)) == btree_map_models(s).push(model_map(x@)),
{
    assert(btree_map_models(s.push(x)) =~= btree_map_models(s).push(model_map(x@)));
}

/// The models of a sequence of hash maps.
pub open spec fn hash_map_models<K, V: Shrinkable>(s: Seq<HashMap<K, V>>) -> Seq<Map<K, V::Model>> {
    s.map_values(|x: HashMap<K, V>| model_map(x@))
}

/// Appending a map appends its model.
proof fn lemma_hash_map_models_push<K, V: Shrinkable>(s: Seq<HashMap<K, V>>, x: HashMap<K, V>)
    ensures
        hash_map_models(s.push(x)) == hash_map_models(s).push(model_map(x@)),
{
    assert(hash_map_models(s.push(x)) =~= hash_map_models(s).push(model_map(x@)));
}

/// Inserting an entry inserts its model.
proof fn lemma_model_map_insert<K, V: Shrinkable>(m: Map<K, V>, k: K, v: V)
    ensures
        model_map(m.insert(k, v)) == model_map(m).insert(k, v.model()),
{
    assert(model_map(m.insert(k, v)) =~= model_map(m).insert(k, v.model()));
}

/// Removing a key removes it from the model.
proof fn lemma_model_map_remove<K, V: Shrinkable>(m: Map<K, V>, k: K)
    ensures
        model_map(m.remove(k)) == model_map(m).remove(k),
{
    assert(model_map(m.remove(k)) =~= model_map(m).remove(k));
}

/// The maps made from `m` by moving the entry of `k` to each of `kcs` that is not a key of
/// `m`, in order.
pub open spec fn map_rekeyed<K, W>(m: Map<K, W>, k: K, kcs: Seq<K>) -> Seq<Map<K, W>>
    decreases kcs.len(),
{
    if kcs.len() == 0 {
        seq![]
    } else {
        map_rekeyed(m, k, kcs.drop_last()) + if !m.contains_key(kcs.last()) {
            seq![m.remove(k).insert(kcs.last(), m[k])]
        } else {
            seq![]
        }
    }
}

/// The maps made from `m` by giving `k` each of the values `ws`, in order.
pub open spec fn map_revalued<K, W>(m: Map<K, W>, k: K, ws: Seq<W>) -> Seq<Map<K, W>> {
    ws.map_values(|w: W| m.insert(k, w))
}

/// The candidates of the entries of the keys `order[0..kcs.len()]`, entry by entry: the
/// entry moved to each of its key's candidates `kcs[i]` that is not a key yet, then its
/// value replaced by each of the value's candidates `wcs[i]`.
pub open spec fn entry_variants<K, W>(
    m: Map<K, W>,
    order: Seq<K>,
    kcs: Seq<Seq<K>>,
    wcs: Seq<Seq<W>>,
) -> Seq<Map<K, W>>
    decreases kcs.len(),
{
    if kcs.len() == 0 {
        seq![]
    } else {
        entry_variants(m, order, kcs.drop_last(), wcs.drop_last()) + map_rekeyed(
            m,
            order[kcs.len() - 1],
            kcs.last(),
        ) + map_revalued(m, order[kcs.len() - 1], wcs[kcs.len() - 1])
    }
}

/// The candidates of shrinking the map `m`, whose keys are listed once each in `order`:
/// the empty map when `m` has an entry; the map without each key; entry by entry, the
/// entry moved to the key's candidates and given the value's candidates; then, when it has
/// more than two entries, the entries of the first half and of the second half of the keys.
pub open spec fn map_shrink_candidates<K, W>(
    m: Map<K, W>,
    order: Seq<K>,
    kcs: Seq<Seq<K>>,
    wcs: Seq<Seq<W>>,
) -> Seq<Map<K, W>> {
    (if order.len() > 0 {
        seq![Map::<K, W>::empty()]
    } else {
        seq![]
    }) + Seq::new(order.len(), |i: int| m.remove(order[i])) + entry_variants(m, order, kcs, wcs) + (
    if order.len() > 2 {
        seq![
            m.restrict(order.take(order.len() as int / 2).to_set()),
            m.restrict(order.skip(order.len() as int / 2).to_set()),
        ]
    } else {
        seq![]
    })
}

/// Each of `kcs` lists candidates of the key at the same place in `order`, and each of
/// `wcs` candidates of the model of its value in `m`.
pub open spec fn each_entry_shrinks<K: Shrinkable, V: Shrinkable>(
    m: Map<K, V::Model>,
    order: Seq<K>,
    kcs: Seq<Seq<K>>,
    wcs: Seq<Seq<V::Model>>,
) -> bool {
    &&& kcs.len() == order.len()
    &&& wcs.len() == order.len()
    &&& forall|i: int|
        0 <= i < kcs.len() ==> K::shrinks_to(order[i].model(), models(#[trigger] kcs[i]))
    &&& forall|i: int| 0 <= i < wcs.len() ==> V::shrinks_to(m[order[i]], #[trigger] wcs[i])
}

/// The candidates of map shrinking, given the keys of `m` in iteration order: the empty
/// map, `m` without each entry in turn, and, for more than two entries, the first and the
/// second half of its entries.
pub open spec fn map_removal_candidates<K, W>(m: Map<K, W>, order: Seq<K>) -> Seq<Map<K, W>> {
    seq![Map::<K, W>::empty()] + Seq::new(order.len(), |i: int| m.remove(order[i])) + if order.len()
        > 2 {
        seq![
            m.restrict(order.take(order.len() as int / 2).to_set()),
            m.restrict(order.skip(order.len() as int / 2).to_set()),
        ]
    } else {
        seq![]
    }
}

/// Map shrinking by removal: the empty map, the map without each entry (in ascending key
/// order), and, for more than two entries, its lower and its upper half. Values are
/// copied with the same model.
pub fn map_shrink<K: CollectionKey, V: Shrinkable + Clone>(map: &BTreeMap<K, V>) -> (r: Vec<
    BTreeMap<K, V>,
>)
    ensures
        exists|order: Seq<K>|
            {
                &&& order.to_set() == map@.dom()
                &&& order.no_duplicates()
                &&& btree_map_models(r@) == #[trigger] map_removal_candidates(model_map(map@), order)
            },
{
    proof {
        K::lemma_key_laws();
    }
    let ghost raw = map@;
    let ghost m = model_map(map@);
    let ghost pairs = spec_btree_map_iter(map).remaining();
    let ghost order = pair_keys(pairs);
    let mut shrinks: Vec<BTreeMap<K, V>> = Vec::new();
    let n = map.len();
    shrinks.push(BTreeMap::new());
    assert(model_map(shrinks@[0]@) =~= Map::<K, V::Model>::empty());
    assert(btree_map_models(shrinks@) =~= seq![Map::<K, V::Model>::empty()]);
    let entries = map.iter();
    proof {
        lemma_pair_keys(raw, pairs);
        assert(order.to_set() == m.dom());
    }
    let ghost base1 = btree_map_models(shrinks@);
    for entry in it: entries
        invariant
            key_laws::<K>(),
            raw == map@,
            m == model_map(raw),
            it.seq() == pairs,
            order == pair_keys(pairs),
            btree_map_models(shrinks@) == base1 + Seq::new(it.index() as nat, |i: int| m.remove(order[i])),
    {
        let (key, _) = entry;
        let ghost c: int = it.index();
        assert(*key == order[c]);
        let mut smaller = map.clone();
        smaller.remove(key);
        proof {
            lemma_model_map_remove(raw, *key);
        }
        let ghost prev = shrinks@;
        shrinks.push(smaller);
        proof {
            lemma_btree_map_models_push(prev, smaller);
        }
        assert(btree_map_models(shrinks@) =~= base1 + Seq::new((c + 1) as nat, |i: int| m.remove(order[i])));
    }
    proof {
        lemma_pair_keys(raw, pairs);
    }
    if n > 2 {
        let mid = n / 2;
        let mut first: BTreeMap<K, V> = BTreeMap::new();
        let mut second: BTreeMap<K, V> = BTreeMap::new();
        let mut count: usize = 0;
        assert(model_map(first@) =~= m.restrict(order.take(0).to_set()));
        assert(model_map(second@) =~= m.restrict(order.subrange(mid as int, mid as int).to_set()));
        for entry in it: map.iter()
            invariant
                key_laws::<K>(),
                raw == map@,
                m == model_map(raw),
                n == order.len(),
                mid == n / 2,
                it.seq() == pairs,
                order == pair_keys(pairs),
                order.len() == pairs.len(),
                forall|i: int| 0 <= i < pairs.len() ==> #[trigger] raw[order[i]] == *pairs[i].1,
                order.to_set() == raw.dom(),
                count == it.index(),
                model_map(first@) == m.restrict(
                    order.take(if count <= mid { count as int } else { mid as int }).to_set(),
                ),
                model_map(second@) == m.restrict(
                    order.subrange(mid as int, if count <= mid { mid as int } else { count as int }).to_set(),
                ),
        {
            let (key, value) = entry;
            assert(*key == order[count as int]);
            assert(*value == raw[order[count as int]]);
            assert(raw.contains_key(*key));
            let kcopy = key.clone();
            assert(cloned(*key, kcopy));
            let vcopy = value.duplicate();
            if count < mid {
                proof {
                    lemma_model_map_insert(first@, kcopy, vcopy);
                    lemma_take_to_set(order, count as int);
                    assert(m.restrict(order.take(count + 1).to_set()) =~= m.restrict(
                        order.take(count as int).to_set(),
                    ).insert(*key, m[*key]));
                }
                first.insert(kcopy, vcopy);
            } else {
                proof {
                    lemma_model_map_insert(second@, kcopy, vcopy);
                    lemma_subrange_to_set(order, mid as int, count as int);
                    assert(m.restrict(order.subrange(mid as int, count + 1).to_set()) =~= m.restrict(
                        order.subrange(mid as int, count as int).to_set(),
                    ).insert(*key, m[*key]));
                }
                second.insert(kcopy, vcopy);
            }
            count = count + 1;
        }
        assert(order.take(mid as int) =~= order.take(order.len() as int / 2));
        assert(order.subrange(mid as int, n as int) =~= order.skip(order.len() as int / 2));
        let ghost prev = shrinks@;
        shrinks.push(first);
        shrinks.push(second);
        assert(btree_map_models(shrinks@) =~= btree_map_models(prev).push(model_map(first@)).push(
            model_map(second@),
        ));
    }
    assert(btree_map_models(shrinks@) =~= map_removal_candidates(m, order));
    shrinks
}

impl<K: Shrinkable + CollectionKey, V: Shrinkable + Clone> Shrinkable for BTreeMap<K, V> {
    type Model = Map<K, V::Model>;

    open spec fn model(&self) -> Map<K, V::Model> {
        model_map(self@)
    }

    open spec fn shrinks_to(m: Map<K, V::Model>, candidates: Seq<Map<K, V::Model>>) -> bool {
        exists|order: Seq<K>, kcs: Seq<Seq<K>>, wcs: Seq<Seq<V::Model>>|
            {
                &&& order.to_set() == m.dom()
                &&& order.no_duplicates()
                &&& each_entry_shrinks::<K, V>(m, order, kcs, wcs)
                &&& candidates == #[trigger] map_shrink_candidates(m, order, kcs, wcs)
            }
    }

    fn shrink(&self) -> (r: Vec<BTreeMap<K, V>>) {
        proof {
            K::lemma_key_laws();
        }
        let ghost raw = self@;
        let ghost m = model_map(self@);
        let ghost pairs = spec_btree_map_iter(self).remaining();
        let ghost order = pair_keys(pairs);
        let mut shrinks: Vec<BTreeMap<K, V>> = Vec::new();
        let n = self.len();
        if n > 0 {
            shrinks.push(BTreeMap::new());
            assert(model_map(shrinks@[0]@) =~= Map::<K, V::Model>::empty());
            assert(btree_map_models(shrinks@) =~= seq![Map::<K, V::Model>::empty()]);
        }
        let entries = self.iter();
        proof {
            lemma_pair_keys(raw, pairs);
            assert(order.to_set() == m.dom());
        }
        let ghost base1 = btree_map_models(shrinks@);
        for entry in it: entries
            invariant
                key_laws::<K>(),
                raw == self@,
                m == model_map(raw),
                it.seq() == pairs,
                order == pair_keys(pairs),
                btree_map_models(shrinks@) == base1 + Seq::new(
                    it.index() as nat,
                    |i: int| m.remove(order[i]),
                ),
        {
            let (key, _) = entry;
            let ghost c: int = it.index();
            assert(*key == order[c]);
            let mut smaller = self.clone();
            smaller.remove(key);
            proof {
                lemma_model_map_remove(raw, *key);
            }
            let ghost prev = shrinks@;
            shrinks.push(smaller);
            proof {
                lemma_btree_map_models_push(prev, smaller);
            }
            assert(btree_map_models(shrinks@) =~= base1 + Seq::new(
                (c + 1) as nat,
                |i: int| m.remove(order[i]),
            ));
        }
        let ghost base2 = btree_map_models(shrinks@);
        let ghost mut kcs: Seq<Seq<K>> = seq![];
        let ghost mut wcs: Seq<Seq<V::Model>> = seq![];
        for entry in it: self.iter()
            invariant
                key_laws::<K>(),
                raw == self@,
                m == model_map(raw),
                it.seq() == pairs,
                order == pair_keys(pairs),
                order.len() == pairs.len(),
                forall|i: int| 0 <= i < pairs.len() ==> #[trigger] raw[order[i]] == *pairs[i].1,
                order.to_set() == raw.dom(),
                kcs.len() == it.index(),
                wcs.len() == it.index(),
                forall|i: int|
                    0 <= i < kcs.len() ==> K::shrinks_to(order[i].model(), models(#[trigger] kcs[i])),
                forall|i: int| 0 <= i < wcs.len() ==> V::shrinks_to(m[order[i]], #[trigger] wcs[i]),
                btree_map_models(shrinks@) == base2 + entry_variants(m, order, kcs, wcs),
        {
            let (key, value) = entry;
            let ghost k: int = kcs.len() as int;
            assert(*key == order[k]);
            assert(*value == raw[order[k]]);
            assert(raw.contains_key(*key));
            let key_cands = key.shrink();
            let ghost kc = key_cands@;
            assert(kc.map_values(|x: K| x.model()) =~= models(kc));
            let ghost before = btree_map_models(shrinks@);
            let ghost mut done: Seq<K> = seq![];
            for sk in jt: key_cands.into_iter()
                invariant
                    key_laws::<K>(),
                    raw == self@,
                    m == model_map(raw),
                    raw.contains_key(*key),
                    *value == raw[*key],
                    jt.seq() == kc,
                    done == kc.take(jt.index()),
                    btree_map_models(shrinks@) == before + map_rekeyed(m, *key, done),
            {
                let ghost prev = shrinks@;
                let ghost j: int = jt.index();
                if !self.contains_key(&sk) {
                    let mut shrunk = self.clone();
                    shrunk.remove(key);
                    let copy = value.duplicate();
                    proof {
                        lemma_model_map_remove(raw, *key);
                        lemma_model_map_insert(raw.remove(*key), sk, copy);
                    }
                    shrunk.insert(sk, copy);
                    shrinks.push(shrunk);
                    proof {
                        lemma_btree_map_models_push(prev, shrunk);
                    }
                }
                proof {
                    let d2 = kc.take(j + 1);
                    assert(d2.drop_last() =~= done);
                    done = d2;
                }
            }
            let value_cands = value.shrink();
            let ghost vc = value_cands@;
            let ghost wc = models(vc);
            assert(vc.map_values(|x: V| x.model()) =~= wc);
            let ghost middle = btree_map_models(shrinks@);
            for sv in jt: value_cands.into_iter()
                invariant
                    key_laws::<K>(),
                    raw == self@,
                    m == model_map(raw),
                    raw.contains_key(*key),
                    jt.seq() == vc,
                    wc == models(vc),
                    btree_map_models(shrinks@) == middle + map_revalued(m, *key, wc.take(jt.index())),
            {
                let ghost count: int = jt.index();
                let ghost prev = shrinks@;
                let mut shrunk = self.clone();
                let kcopy = key.clone();
                assert(cloned(*key, kcopy));
                proof {
                    lemma_model_map_insert(raw, *key, sv);
                }
                shrunk.insert(kcopy, sv);
                shrinks.push(shrunk);
                proof {
                    lemma_btree_map_models_push(prev, shrunk);
                }
                assert(map_revalued(m, *key, wc.take(count + 1)) =~= map_revalued(
                    m,
                    *key,
                    wc.take(count),
                ).push(m.insert(*key, wc[count])));
            }
            proof {
                assert(done =~= kc);
                assert(wc.take(wc.len() as int) =~= wc);
                let k2 = kcs.push(kc);
                let w2 = wcs.push(wc);
                assert(k2.drop_last() =~= kcs);
                assert(w2.drop_last() =~= wcs);
                kcs = k2;
                wcs = w2;
            }
        }
        if n > 2 {
            let mid = n / 2;
            let mut first: BTreeMap<K, V> = BTreeMap::new();
            let mut second: BTreeMap<K, V> = BTreeMap::new();
            let mut count: usize = 0;
            for entry in it: self.iter()
                invariant
                    key_laws::<K>(),
                    raw == self@,
                    m == model_map(raw),
                    n == order.len(),
                    mid == n / 2,
                    it.seq() == pairs,
                    order == pair_keys(pairs),
                    order.len() == pairs.len(),
                    forall|i: int| 0 <= i < pairs.len() ==> #[trigger] raw[order[i]] == *pairs[i].1,
                    order.to_set() == raw.dom(),
                    count == it.index(),
                    model_map(first@) == m.restrict(
                        order.take(if count <= mid { count as int } else { mid as int }).to_set(),
                    ),
                    model_map(second@) == m.restrict(
                        order.subrange(
                            mid as int,
                            if count <= mid { mid as int } else { count as int },
                        ).to_set(),
                    ),
            {
                let (key, value) = entry;
                assert(*key == order[count as int]);
                assert(*value == raw[order[count as int]]);
                assert(raw.contains_key(*key));
                let kcopy = key.clone();
                assert(cloned(*key, kcopy));
                let vcopy = value.duplicate();
                if count < mid {
                    proof {
                        lemma_model_map_insert(first@, kcopy, vcopy);
                        lemma_take_to_set(order, count as int);
                        assert(m.restrict(order.take(count + 1).to_set()) =~= m.restrict(
                            order.take(count as int).to_set(),
                        ).insert(*key, m[*key]));
                    }
                    first.insert(kcopy, vcopy);
                } else {
                    proof {
                        lemma_model_map_insert(second@, kcopy, vcopy);
                        lemma_subrange_to_set(order, mid as int, count as int);
                        assert(m.restrict(order.subrange(mid as int, count + 1).to_set()) =~= m.restrict(
                            order.subrange(mid as int, count as int).to_set(),
                        ).insert(*key, m[*key]));
                    }
                    second.insert(kcopy, vcopy);
                }
                count = count + 1;
            }
            assert(order.take(mid as int) =~= order.take(order.len() as int / 2));
            assert(order.subrange(mid as int, n as int) =~= order.skip(order.len() as int / 2));
            let ghost prev = shrinks@;
            shrinks.push(first);
            shrinks.push(second);
            assert(btree_map_models(shrinks@) =~= btree_map_models(prev).push(model_map(first@)).push(
                model_map(second@),
            ));
        }
        assert(btree_map_models(shrinks@) =~= map_shrink_candidates(m, order, kcs, wcs));
        assert(shrinks@.map_values(|x: BTreeMap<K, V>| x.model()) =~= btree_map_models(shrinks@));
        shrinks
    }

    fn duplicate(&self) -> (r: BTreeMap<K, V>) {
        self.clone()
    }
}

impl<K: Shrinkable + CollectionKey, V: Shrinkable + Clone> Shrinkable for HashMap<K, V> {
    type Model = Map<K, V::Model>;

    open spec fn model(&self) -> Map<K, V::Model> {
        model_map(self@)
    }

    open spec fn shrinks_to(m: Map<K, V::Model>, candidates: Seq<Map<K, V::Model>>) -> bool {
        exists|order: Seq<K>, kcs: Seq<Seq<K>>, wcs: Seq<Seq<V::Model>>|
            {
                &&& order.to_set() == m.dom()
                &&& order.no_duplicates()
                &&& each_entry_shrinks::<K, V>(m, order, kcs, wcs)
                &&& candidates == #[trigger] map_shrink_candidates(m, order, kcs, wcs)
            }
    }

    fn shrink(&self) -> (r: Vec<HashMap<K, V>>) {
        proof {
            K::lemma_key_laws();
        }
        let ghost raw = self@;
        let ghost m = model_map(self@);
        let ghost pairs = spec_hash_map_iter(self).remaining();
        let ghost order = pair_keys(pairs);
        let mut shrinks: Vec<HashMap<K, V>> = Vec::new();
        let n = self.len();
        if n > 0 {
            shrinks.push(HashMap::new());
            assert(model_map(shrinks@[0]@) =~= Map::<K, V::Model>::empty());
            assert(hash_map_models(shrinks@) =~= seq![Map::<K, V::Model>::empty()]);
        }
        let entries = self.iter();
        proof {
            lemma_pair_keys(raw, pairs);
            assert(order.to_set() == m.dom());
        }
        let ghost base1 = hash_map_models(shrinks@);
        for entry in it: entries
            invariant
                key_laws::<K>(),
                raw == self@,
                m == model_map(raw),
                it.seq() == pairs,
                order == pair_keys(pairs),
                hash_map_models(shrinks@) == base1 + Seq::new(
                    it.index() as nat,
                    |i: int| m.remove(order[i]),
                ),
        {
            let (key, _) = entry;
            let ghost c: int = it.index();
            assert(*key == order[c]);
            let mut smaller = self.clone();
            smaller.remove(key);
            proof {
                lemma_model_map_remove(raw, *key);
            }
            let ghost prev = shrinks@;
            shrinks.push(smaller);
            proof {
                lemma_hash_map_models_push(prev, smaller);
            }
            assert(hash_map_models(shrinks@) =~= base1 + Seq::new(
                (c + 1) as nat,
                |i: int| m.remove(order[i]),
            ));
        }
        let ghost base2 = hash_map_models(shrinks@);
        let ghost mut kcs: Seq<Seq<K>> = seq![];
        let ghost mut wcs: Seq<Seq<V::Model>> = seq![];
        for entry in it: self.iter()
            invariant
                key_laws::<K>(),
                raw == self@,
                m == model_map(raw),
                it.seq() == pairs,
                order == pair_keys(pairs),
                order.len() == pairs.len(),
                forall|i: int| 0 <= i < pairs.len() ==> #[trigger] raw[order[i]] == *pairs[i].1,
                order.to_set() == raw.dom(),
                kcs.len() == it.index(),
                wcs.len() == it.index(),
                forall|i: int|
                    0 <= i < kcs.len() ==> K::shrinks_to(order[i].model(), models(#[trigger] kcs[i])),
                forall|i: int| 0 <= i < wcs.len() ==> V::shrinks_to(m[order[i]], #[trigger] wcs[i]),
                hash_map_models(shrinks@) == base2 + entry_variants(m, order, kcs, wcs),
        {
            let (key, value) = entry;
            let ghost k: int = kcs.len() as int;
            assert(*key == order[k]);
            assert(*value == raw[order[k]]);
            assert(raw.contains_key(*key));
            let key_cands = key.shrink();
            let ghost kc = key_cands@;
            assert(kc.map_values(|x: K| x.model()) =~= models(kc));
            let ghost before = hash_map_models(shrinks@);
            let ghost mut done: Seq<K> = seq![];
            for sk in jt: key_cands.into_iter()
                invariant
                    key_laws::<K>(),
                    raw == self@,
                    m == model_map(raw),
                    raw.contains_key(*key),
                    *value == raw[*key],
                    jt.seq() == kc,
                    done == kc.take(jt.index()),
                    hash_map_models(shrinks@) == before + map_rekeyed(m, *key, done),
            {
                let ghost prev = shrinks@;
                let ghost j: int = jt.index();
                if !self.contains_key(&sk) {
                    let mut shrunk = self.clone();
                    shrunk.remove(key);
                    let copy = value.duplicate();
                    proof {
                        lemma_model_map_remove(raw, *key);
                        lemma_model_map_insert(raw.remove(*key), sk, copy);
                    }
                    shrunk.insert(sk, copy);
                    shrinks.push(shrunk);
                    proof {
                        lemma_hash_map_models_push(prev, shrunk);
                    }
                }
                proof {
                    let d2 = kc.take(j + 1);
                    assert(d2.drop_last() =~= done);
                    done = d2;
                }
            }
            let value_cands = value.shrink();
            let ghost vc = value_cands@;
            let ghost wc = models(vc);
            assert(vc.map_values(|x: V| x.model()) =~= wc);
            let ghost middle = hash_map_models(shrinks@);
            for sv in jt: value_cands.into_iter()
                invariant
                    key_laws::<K>(),
                    raw == self@,
                    m == model_map(raw),
                    raw.contains_key(*key),
                    jt.seq() == vc,
                    wc == models(vc),
                    hash_map_models(shrinks@) == middle + map_revalued(m, *key, wc.take(jt.index())),
            {
                let ghost count: int = jt.index();
                let ghost prev = shrinks@;
                let mut shrunk = self.clone();
                let kcopy = key.clone();
                assert(cloned(*key, kcopy));
                proof {
                    lemma_model_map_insert(raw, *key, sv);
                }
                shrunk.insert(kcopy, sv);
                shrinks.push(shrunk);
                proof {
                    lemma_hash_map_models_push(prev, shrunk);
                }
                assert(map_revalued(m, *key, wc.take(count + 1)) =~= map_revalued(
                    m,
                    *key,
                    wc.take(count),
                ).push(m.insert(*key, wc[count])));
            }
            proof {
                assert(done =~= kc);
                assert(wc.take(wc.len() as int) =~= wc);
                let k2 = kcs.push(kc);
                let w2 = wcs.push(wc);
                assert(k2.drop_last() =~= kcs);
                assert(w2.drop_last() =~= wcs);
                kcs = k2;
                wcs = w2;
            }
        }
        if n > 2 {
            let mid = n / 2;
            let mut first: HashMap<K, V> = HashMap::new();
            let mut second: HashMap<K, V> = HashMap::new();
            let mut count: usize = 0;
            for entry in it: self.iter()
                invariant
                    key_laws::<K>(),
                    raw == self@,
                    m == model_map(raw),
                    n == order.len(),
                    mid == n / 2,
                    it.seq() == pairs,
                    order == pair_keys(pairs),
                    order.len() == pairs.len(),
                    forall|i: int| 0 <= i < pairs.len() ==> #[trigger] raw[order[i]] == *pairs[i].1,
                    order.to_set() == raw.dom(),
                    count == it.index(),
                    model_map(first@) == m.restrict(
                        order.take(if count <= mid { count as int } else { mid as int }).to_set(),
                    ),
                    model_map(second@) == m.restrict(
                        order.subrange(
                            mid as int,
                            if count <= mid { mid as int } else { count as int },
                        ).to_set(),
                    ),
            {
                let (key, value) = entry;
                assert(*key == order[count as int]);
                assert(*value == raw[order[count as int]]);
                assert(raw.contains_key(*key));
                let kcopy = key.clone();
                assert(cloned(*key, kcopy));
                let vcopy = value.duplicate();
                if count < mid {
                    proof {
                        lemma_model_map_insert(first@, kcopy, vcopy);
                        lemma_take_to_set(order, count as int);
                        assert(m.restrict(order.take(count + 1).to_set()) =~= m.restrict(
                            order.take(count as int).to_set(),
                        ).insert(*key, m[*key]));
                    }
                    first.insert(kcopy, vcopy);
                } else {
                    proof {
                        lemma_model_map_insert(second@, kcopy, vcopy);
                        lemma_subrange_to_set(order, mid as int, count as int);
                        assert(m.restrict(order.subrange(mid as int, count + 1).to_set()) =~= m.restrict(
                            order.subrange(mid as int, count as int).to_set(),
                        ).insert(*key, m[*key]));
                    }
                    second.insert(kcopy, vcopy);
                }
                count = count + 1;
            }
            assert(order.take(mid as int) =~= order.take(order.len() as int / 2));
            assert(order.subrange(mid as int, n as int) =~= order.skip(order.len() as int / 2));
            let ghost prev = shrinks@;
            shrinks.push(first);
            shrinks.push(second);
            assert(hash_map_models(shrinks@) =~= hash_map_models(prev).push(model_map(first@)).push(
                model_map(second@),
            ));
        }
        assert(hash_map_models(shrinks@) =~= map_shrink_candidates(m, order, kcs, wcs));
        assert(shrinks@.map_values(|x: HashMap<K, V>| x.model()) =~= hash_map_models(shrinks@));
        shrinks
    }

    fn duplicate(&self) -> (r: HashMap<K, V>) {
        self.clone()
    }
}

} // verus!
