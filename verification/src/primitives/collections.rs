//! Generators for sets and maps.

use vstd::prelude::*;
use vstd::laws_cmp::obeys_cmp;
use vstd::std_specs::hash::obeys_key_model;
use vstd::std_specs::btree::{spec_btree_keys_iter, spec_btree_map_iter};
use vstd::std_specs::hash::{spec_hash_keys_iter, spec_hash_map_iter};
use vstd::std_specs::iter::IteratorSpec;
use vstd::std_specs::cmp::PartialEqSpec;
use rand::rngs::StdRng;
use std::collections::{BTreeMap, BTreeSet, HashMap, HashSet};
use crate::config::GeneratorConfig;
use crate::generator::Generator;
use crate::prim_int::PrimInt;

verus! {

/// Element and key types that the set and map specifications can speak of: their order
/// and hashing agree with equality, and a clone equals the original.
pub trait CollectionKey: Ord + core::hash::Hash + Clone + Sized {
    /// The laws hold for this type.
    proof fn lemma_key_laws()
        ensures
            key_laws::<Self>(),
    ;
}

/// The laws that the set and map specifications rely on: comparison and hashing agree
/// with equality, and a clone equals the original.
pub open spec fn key_laws<T: Ord + Clone>() -> bool {
    &&& obeys_cmp::<T>()
    &&& obeys_key_model::<T>()
    &&& forall|a: T, b: T| #[trigger] cloned(a, b) ==> a == b
    &&& forall|a: T, b: T| #[trigger] a.eq_spec(&b) <==> a == b
}

impl CollectionKey for i8 {
    proof fn lemma_key_laws() {
    }
}

impl CollectionKey for i16 {
    proof fn lemma_key_laws() {
    }
}

impl CollectionKey for i32 {
    proof fn lemma_key_laws() {
    }
}

impl CollectionKey for i64 {
    proof fn lemma_key_laws() {
    }
}

impl CollectionKey for i128 {
    proof fn lemma_key_laws() {
    }
}

impl CollectionKey for isize {
    proof fn lemma_key_laws() {
    }
}

impl CollectionKey for u8 {
    proof fn lemma_key_laws() {
    }
}

impl CollectionKey for u16 {
    proof fn lemma_key_laws() {
    }
}

impl CollectionKey for u32 {
    proof fn lemma_key_laws() {
    }
}

impl CollectionKey for u64 {
    proof fn lemma_key_laws() {
    }
}

impl CollectionKey for u128 {
    proof fn lemma_key_laws() {
    }
}

impl CollectionKey for usize {
    proof fn lemma_key_laws() {
    }
}

/// The views of a sequence of ordered sets.
pub open spec fn btree_set_views<T>(s: Seq<BTreeSet<T>>) -> Seq<Set<T>> {
    s.map_values(|x: BTreeSet<T>| x@)
}

/// Appending a set appends its view.
pub proof fn lemma_btree_set_views_push<T>(s: Seq<BTreeSet<T>>, x: BTreeSet<T>)
    ensures
        btree_set_views(s.push(x)) == btree_set_views(s).push(x@),
{
    assert(btree_set_views(s.push(x)) =~= btree_set_views(s).push(x@));
}

/// The sets made from `s` by replacing `e` with each of `cs` that differs from it, in order.
pub open spec fn replaced<T>(s: Set<T>, e: T, cs: Seq<T>) -> Seq<Set<T>>
    decreases cs.len(),
{
    if cs.len() == 0 {
        seq![]
    } else {
        replaced(s, e, cs.drop_last()) + if cs.last() != e {
            seq![s.remove(e).insert(cs.last())]
        } else {
            seq![]
        }
    }
}

/// The replacement candidates of the elements `order[0..ecs.len()]`, element by element,
/// where `ecs[i]` are the candidates for `order[i]`.
pub open spec fn replacements<T>(s: Set<T>, order: Seq<T>, ecs: Seq<Seq<T>>) -> Seq<Set<T>>
    decreases ecs.len(),
{
    if ecs.len() == 0 {
        seq![]
    } else {
        replacements(s, order, ecs.drop_last()) + replaced(s, order[ecs.len() - 1], ecs.last())
    }
}

/// The candidates of shrinking the set `s`, whose elements are listed once each in
/// `order`, where `ecs[i]` are the element generator's candidates for `order[i]`: the
/// empty set when `s` has an element; the set without each of the first half of the
/// elements when it has two or more; then, element by element, the set with the element
/// replaced by each of its candidates that differs from it.
pub open spec fn set_candidates<T>(s: Set<T>, order: Seq<T>, ecs: Seq<Seq<T>>) -> Seq<Set<T>> {
    (if order.len() > 0 {
        seq![Set::<T>::empty()]
    } else {
        seq![]
    }) + (if order.len() > 1 {
        Seq::new(order.len() / 2, |i: int| s.remove(order[i]))
    } else {
        seq![]
    }) + replacements(s, order, ecs)
}

/// Each replacement of `e` in `s`, where `s` holds `e`, differs from `s`.
proof fn lemma_replaced_differ<T>(s: Set<T>, e: T, cs: Seq<T>)
    requires
        s.contains(e),
    ensures
        forall|i: int| 0 <= i < replaced(s, e, cs).len() ==> #[trigger] replaced(s, e, cs)[i] != s,
    decreases cs.len(),
{
    if cs.len() > 0 {
        lemma_replaced_differ(s, e, cs.drop_last());
        let prev = replaced(s, e, cs.drop_last());
        let r = replaced(s, e, cs);
        assert forall|i: int| 0 <= i < r.len() implies #[trigger] r[i] != s by {
            if i < prev.len() {
                assert(r[i] == prev[i]);
            } else {
                assert(!r[i].contains(e));
            }
        }
    }
}

/// Each replacement candidate of the listed elements differs from the set.
proof fn lemma_replacements_differ<T>(s: Set<T>, order: Seq<T>, ecs: Seq<Seq<T>>)
    requires
        ecs.len() <= order.len(),
        order.to_set() == s,
    ensures
        forall|i: int|
            0 <= i < replacements(s, order, ecs).len() ==> #[trigger] replacements(s, order, ecs)[i]
                != s,
    decreases ecs.len(),
{
    if ecs.len() > 0 {
        lemma_replacements_differ(s, order, ecs.drop_last());
        let k = ecs.len() - 1;
        assert(order.to_set().contains(order[k]));
        lemma_replaced_differ(s, order[k], ecs.last());
        let prev = replacements(s, order, ecs.drop_last());
        let last = replaced(s, order[k], ecs.last());
        let r = replacements(s, order, ecs);
        assert forall|i: int| 0 <= i < r.len() implies #[trigger] r[i] != s by {
            if i < prev.len() {
                assert(r[i] == prev[i]);
            } else {
                assert(r[i] == last[i - prev.len()]);
            }
        }
    }
}

/// Shrinking a set never proposes the set itself: every candidate of a set generator
/// differs from the set it shrinks.
pub proof fn lemma_set_candidates_differ<T>(s: Set<T>, order: Seq<T>, ecs: Seq<Seq<T>>)
    requires
        order.to_set() == s,
        ecs.len() == order.len(),
    ensures
        forall|i: int|
            0 <= i < set_candidates(s, order, ecs).len() ==> #[trigger] set_candidates(s, order, ecs)[i]
                != s,
{
    lemma_replacements_differ(s, order, ecs);
    let c = set_candidates(s, order, ecs);
    let a: Seq<Set<T>> = if order.len() > 0 {
        seq![Set::<T>::empty()]
    } else {
        seq![]
    };
    let b: Seq<Set<T>> = if order.len() > 1 {
        Seq::new(order.len() / 2, |i: int| s.remove(order[i]))
    } else {
        seq![]
    };
    let r = replacements(s, order, ecs);
    assert forall|i: int| 0 <= i < c.len() implies #[trigger] c[i] != s by {
        if i < a.len() {
            assert(order.to_set().contains(order[0]));
            assert(!c[i].contains(order[0]));
        } else if i < a.len() + b.len() {
            let j = i - a.len();
            assert(c[i] == s.remove(order[j]));
            assert(order.to_set().contains(order[j]));
            assert(!c[i].contains(order[j]));
        } else {
            assert(c[i] == r[i - a.len() - b.len()]);
        }
    }
}

/// Generator for ordered sets whose elements come from an element generator.
#[derive(Debug)]
pub struct BTreeSetGenerator<T, G> {
    /// The generator of the elements.
    pub element_generator: G,
    /// The least number of elements asked for.
    pub min_size: usize,
    /// The greatest number of elements.
    pub max_size: usize,
    /// Ties the generator to its element type.
    pub marker: core::marker::PhantomData<T>,
}

impl<T: CollectionKey, G: Generator<T>> BTreeSetGenerator<T, G> {
    /// A generator of sets of `min_size..=max_size` elements, fewer when drawn elements
    /// repeat.
    pub fn new(element_generator: G, min_size: usize, max_size: usize) -> (r: Self)
        ensures
            r.element_generator == element_generator,
            r.min_size == min_size,
            r.max_size == max_size,
    {
        BTreeSetGenerator { element_generator, min_size, max_size, marker: core::marker::PhantomData }
    }
}

impl<T: CollectionKey, G: Generator<T>> Generator<BTreeSet<T>> for BTreeSetGenerator<T, G> {
    open spec fn can_generate(&self, config: GeneratorConfig) -> bool {
        &&& self.element_generator.can_generate(config)
        &&& self.min_size <= self.max_size
        &&& self.max_size * 10 <= usize::MAX
    }

    open spec fn generates(&self, config: GeneratorConfig, value: BTreeSet<T>) -> bool {
        &&& value@.finite()
        &&& value@.len() <= self.max_size
        &&& forall|x: T| #[trigger] value@.contains(x) ==> self.element_generator.generates(config, x)
    }

    open spec fn can_shrink(&self, value: BTreeSet<T>) -> bool {
        forall|x: T| #[trigger] value@.contains(x) ==> self.element_generator.can_shrink(x)
    }

    open spec fn shrinks_to(&self, value: BTreeSet<T>, candidates: Seq<BTreeSet<T>>) -> bool {
        exists|order: Seq<T>, ecs: Seq<Seq<T>>|
            {
                &&& order.to_set() == value@
                &&& order.no_duplicates()
                &&& ecs.len() == order.len()
                &&& forall|i: int|
                    0 <= i < ecs.len() ==> self.element_generator.shrinks_to(order[i], #[trigger] ecs[i])
                &&& #[trigger] btree_set_views(candidates) == set_candidates(value@, order, ecs)
            }
    }

    fn generate(&self, rng: &mut StdRng, config: &GeneratorConfig) -> (r: BTreeSet<T>) {
        proof {
            T::lemma_key_laws();
        }
        let size = usize::random_in(rng, self.min_size, self.max_size);
        let mut set: BTreeSet<T> = BTreeSet::new();
        let mut attempts: usize = 0;
        let max_attempts = size * 10;
        while set.len() < size && attempts < max_attempts
            invariant
                key_laws::<T>(),
                size <= self.max_size,
                max_attempts == size * 10,
                self.element_generator.can_generate(*config),
                set@.finite(),
                set@.len() <= size,
                forall|x: T| #[trigger] set@.contains(x) ==> self.element_generator.generates(*config, x),
            decreases max_attempts - attempts,
        {
            let element = self.element_generator.generate(rng, config);
            set.insert(element);
            attempts = attempts + 1;
        }
        set
    }

    fn shrink(&self, value: &BTreeSet<T>) -> (r: Vec<BTreeSet<T>>) {
        proof {
            T::lemma_key_laws();
        }
        let ghost s = value@;
        let ghost order = spec_btree_keys_iter(value).remaining().unref();
        let mut shrinks: Vec<BTreeSet<T>> = Vec::new();
        let n = value.len();
        if n > 0 {
            shrinks.push(BTreeSet::new());
        }
        let ghost base1 = btree_set_views(shrinks@);
        if n > 1 {
            let half = n / 2;
            let mut count: usize = 0;
            for elem in it: value.iter()
                invariant
                    key_laws::<T>(),
                    s == value@,
                    n == s.len(),
                    half == n / 2,
                    it.seq().unref() == order,
                    count == it.index(),
                    btree_set_views(shrinks@) == base1 + Seq::new(
                        if count <= half { count as nat } else { half as nat },
                        |i: int| s.remove(order[i]),
                    ),
            {
                assert(*elem == order[count as int]);
                let ghost prev = shrinks@;
                if count < half {
                    let mut smaller = value.clone();
                    smaller.remove(elem);
                    assert(smaller@ == s.remove(order[count as int]));
                    shrinks.push(smaller);
                    proof {
                        lemma_btree_set_views_push(prev, smaller);
                    }
                }
                count = count + 1;
                assert(btree_set_views(shrinks@) =~= base1 + Seq::new(
                    if count <= half { count as nat } else { half as nat },
                    |i: int| s.remove(order[i]),
                ));
            }
        }
        let ghost base2 = btree_set_views(shrinks@);
        assert(base2 == (if n > 0 {
            seq![Set::<T>::empty()]
        } else {
            seq![]
        }) + (if n > 1 {
            Seq::new(n as nat / 2, |i: int| s.remove(order[i]))
        } else {
            seq![]
        }));
        let ghost mut ecs: Seq<Seq<T>> = seq![];
        for elem in it: value.iter()
            invariant
                key_laws::<T>(),
                s == value@,
                it.seq().unref() == order,
                order.to_set() == s,
                ecs.len() == it.index(),
                forall|i: int|
                    0 <= i < ecs.len() ==> self.element_generator.shrinks_to(order[i], #[trigger] ecs[i]),
                forall|x: T| #[trigger] value@.contains(x) ==> self.element_generator.can_shrink(x),
                btree_set_views(shrinks@) == base2 + replacements(s, order, ecs),
        {
            let ghost k: int = ecs.len() as int;
            assert(*elem == order[k]);
            assert(s.contains(*elem));
            let cands = self.element_generator.shrink(elem);
            let ghost before = btree_set_views(shrinks@);
            let mut j: usize = 0;
            while j < cands.len()
                invariant
                    key_laws::<T>(),
                    s == value@,
                    s.contains(*elem),
                    j <= cands@.len(),
                    btree_set_views(shrinks@) == before + replaced(s, *elem, cands@.take(j as int)),
                decreases cands@.len() - j,
            {
                let c = cands[j].clone();
                assert(cloned(cands@[j as int], c));
                let ghost prev = shrinks@;
                if c != *elem {
                    let mut shrunk = value.clone();
                    shrunk.remove(elem);
                    shrunk.insert(c);
                    shrinks.push(shrunk);
                    proof {
                        lemma_btree_set_views_push(prev, shrunk);
                    }
                }
                j = j + 1;
                assert(cands@.take(j as int).drop_last() =~= cands@.take(j - 1));
            }
            proof {
                assert(cands@.take(cands@.len() as int) =~= cands@);
                let e2 = ecs.push(cands@);
                assert(e2.drop_last() =~= ecs);
                ecs = e2;
            }
        }
        assert(order.len() == n);
        assert(order.no_duplicates());
        assert(btree_set_views(shrinks@) == set_candidates(s, order, ecs));
        shrinks
    }
}

/// The views of a sequence of hash sets.
pub open spec fn hash_set_views<T>(s: Seq<HashSet<T>>) -> Seq<Set<T>> {
    s.map_values(|x: HashSet<T>| x@)
}

/// Appending a set appends its view.
pub proof fn lemma_hash_set_views_push<T>(s: Seq<HashSet<T>>, x: HashSet<T>)
    ensures
        hash_set_views(s.push(x)) == hash_set_views(s).push(x@),
{
    assert(hash_set_views(s.push(x)) =~= hash_set_views(s).push(x@));
}

/// A copy of a hash set, by `HashSet::clone`. The contract says that the copy holds the
/// same elements: the copy holds clones of the elements, and a clone of a key type
/// equals the original.
#[verifier::external_body]
pub(crate) fn clone_hash_set<T: CollectionKey>(s: &HashSet<T>) -> (r: HashSet<T>)
    ensures
        r@ == s@,
{
    s.clone()
}

/// Generator for hash sets whose elements come from an element generator.
#[derive(Debug)]
pub struct HashSetGenerator<T, G> {
    /// The generator of the elements.
    pub element_generator: G,
    /// The least number of elements asked for.
    pub min_size: usize,
    /// The greatest number of elements.
    pub max_size: usize,
    /// Ties the generator to its element type.
    pub marker: core::marker::PhantomData<T>,
}

impl<T: CollectionKey, G: Generator<T>> HashSetGenerator<T, G> {
    /// A generator of sets of `min_size..=max_size` elements, fewer when drawn elements
    /// repeat.
    pub fn new(element_generator: G, min_size: usize, max_size: usize) -> (r: Self)
        ensures
            r.element_generator == element_generator,
            r.min_size == min_size,
            r.max_size == max_size,
    {
        HashSetGenerator { element_generator, min_size, max_size, marker: core::marker::PhantomData }
    }
}

impl<T: CollectionKey, G: Generator<T>> Generator<HashSet<T>> for HashSetGenerator<T, G> {
    open spec fn can_generate(&self, config: GeneratorConfig) -> bool {
        &&& self.element_generator.can_generate(config)
        &&& self.min_size <= self.max_size
        &&& self.max_size * 10 <= usize::MAX
    }

    open spec fn generates(&self, config: GeneratorConfig, value: HashSet<T>) -> bool {
        &&& value@.finite()
        &&& value@.len() <= self.max_size
        &&& forall|x: T| #[trigger] value@.contains(x) ==> self.element_generator.generates(config, x)
    }

    open spec fn can_shrink(&self, value: HashSet<T>) -> bool {
        forall|x: T| #[trigger] value@.contains(x) ==> self.element_generator.can_shrink(x)
    }

    open spec fn shrinks_to(&self, value: HashSet<T>, candidates: Seq<HashSet<T>>) -> bool {
        exists|order: Seq<T>, ecs: Seq<Seq<T>>|
            {
                &&& order.to_set() == value@
                &&& order.no_duplicates()
                &&& ecs.len() == order.len()
                &&& forall|i: int|
                    0 <= i < ecs.len() ==> self.element_generator.shrinks_to(order[i], #[trigger] ecs[i])
                &&& #[trigger] hash_set_views(candidates) == set_candidates(value@, order, ecs)
            }
    }

    fn generate(&self, rng: &mut StdRng, config: &GeneratorConfig) -> (r: HashSet<T>) {
        proof {
            T::lemma_key_laws();
        }
        let size = usize::random_in(rng, self.min_size, self.max_size);
        let mut set: HashSet<T> = HashSet::new();
        let mut attempts: usize = 0;
        let max_attempts = size * 10;
        while set.len() < size && attempts < max_attempts
            invariant
                key_laws::<T>(),
                size <= self.max_size,
                max_attempts == size * 10,
                self.element_generator.can_generate(*config),
                set@.finite(),
                set@.len() <= size,
                forall|x: T| #[trigger] set@.contains(x) ==> self.element_generator.generates(*config, x),
            decreases max_attempts - attempts,
        {
            let element = self.element_generator.generate(rng, config);
            set.insert(element);
            attempts = attempts + 1;
        }
        set
    }

    fn shrink(&self, value: &HashSet<T>) -> (r: Vec<HashSet<T>>) {
        proof {
            T::lemma_key_laws();
        }
        let ghost s = value@;
        let ghost order = spec_hash_keys_iter(value).remaining().unref();
        let mut shrinks: Vec<HashSet<T>> = Vec::new();
        let n = value.len();
        if n > 0 {
            shrinks.push(HashSet::new());
        }
        let ghost base1 = hash_set_views(shrinks@);
        if n > 1 {
            let half = n / 2;
            let mut count: usize = 0;
            for elem in it: value.iter()
                invariant
                    key_laws::<T>(),
                    s == value@,
                    n == s.len(),
                    half == n / 2,
                    it.seq().unref() == order,
                    count == it.index(),
                    hash_set_views(shrinks@) == base1 + Seq::new(
                        if count <= half { count as nat } else { half as nat },
                        |i: int| s.remove(order[i]),
                    ),
            {
                assert(*elem == order[count as int]);
                let ghost prev = shrinks@;
                if count < half {
                    let mut smaller = clone_hash_set(value);
                    smaller.remove(elem);
                    assert(smaller@ == s.remove(order[count as int]));
                    shrinks.push(smaller);
                    proof {
                        lemma_hash_set_views_push(prev, smaller);
                    }
                }
                count = count + 1;
                assert(hash_set_views(shrinks@) =~= base1 + Seq::new(
                    if count <= half { count as nat } else { half as nat },
                    |i: int| s.remove(order[i]),
                ));
            }
        }
        let ghost base2 = hash_set_views(shrinks@);
        assert(base2 == (if n > 0 {
            seq![Set::<T>::empty()]
        } else {
            seq![]
        }) + (if n > 1 {
            Seq::new(n as nat / 2, |i: int| s.remove(order[i]))
        } else {
            seq![]
        }));
        let ghost mut ecs: Seq<Seq<T>> = seq![];
        for elem in it: value.iter()
            invariant
                key_laws::<T>(),
                s == value@,
                it.seq().unref() == order,
                order.to_set() == s,
                ecs.len() == it.index(),
                forall|i: int|
                    0 <= i < ecs.len() ==> self.element_generator.shrinks_to(order[i], #[trigger] ecs[i]),
                forall|x: T| #[trigger] value@.contains(x) ==> self.element_generator.can_shrink(x),
                hash_set_views(shrinks@) == base2 + replacements(s, order, ecs),
        {
            let ghost k: int = ecs.len() as int;
            assert(*elem == order[k]);
            assert(s.contains(*elem));
            let cands = self.element_generator.shrink(elem);
            let ghost before = hash_set_views(shrinks@);
            let mut j: usize = 0;
            while j < cands.len()
                invariant
                    key_laws::<T>(),
                    s == value@,
                    s.contains(*elem),
                    j <= cands@.len(),
                    hash_set_views(shrinks@) == before + replaced(s, *elem, cands@.take(j as int)),
                decreases cands@.len() - j,
            {
                let c = cands[j].clone();
                assert(cloned(cands@[j as int], c));
                let ghost prev = shrinks@;
                if c != *elem {
                    let mut shrunk = clone_hash_set(value);
                    shrunk.remove(elem);
                    shrunk.insert(c);
                    shrinks.push(shrunk);
                    proof {
                        lemma_hash_set_views_push(prev, shrunk);
                    }
                }
                j = j + 1;
                assert(cands@.take(j as int).drop_last() =~= cands@.take(j - 1));
            }
            proof {
                assert(cands@.take(cands@.len() as int) =~= cands@);
                let e2 = ecs.push(cands@);
                assert(e2.drop_last() =~= ecs);
                ecs = e2;
            }
        }
        assert(order.len() == n);
        assert(order.no_duplicates());
        assert(hash_set_views(shrinks@) == set_candidates(s, order, ecs));
        shrinks
    }
}

/// The keys of a listing of key-value pairs, in order.
pub open spec fn pair_keys<K, V>(v: Seq<(&K, &V)>) -> Seq<K> {
    v.map_values(|kv: (&K, &V)| *kv.0)
}

/// A listing of the entries of a map, each once, lists its keys each once.
pub proof fn lemma_pair_keys<K, V>(m: Map<K, V>, v: Seq<(&K, &V)>)
    requires
        v.len() == m.dom().len(),
        v.no_duplicates(),
        forall|i: int|
            #![trigger m.contains_key(*v[i].0)]
            0 <= i < v.len() ==> m.contains_key(*v[i].0) && m[*v[i].0] == *v[i].1,
        forall|k: K| #[trigger] m.contains_key(k) ==> v.contains((&k, &m[k])),
    ensures
        pair_keys(v).to_set() == m.dom(),
        pair_keys(v).no_duplicates(),
        pair_keys(v).len() == v.len(),
        forall|i: int| 0 <= i < v.len() ==> #[trigger] m[pair_keys(v)[i]] == *v[i].1,
{
    let order = pair_keys(v);
    assert forall|i: int| 0 <= i < v.len() implies #[trigger] m[order[i]] == *v[i].1 by {
        assert(m.contains_key(*v[i].0));
    }
    assert forall|k: K| order.to_set().contains(k) <==> m.dom().contains(k) by {
        if m.contains_key(k) {
            assert(v.contains((&k, &m[k])));
            let i = choose|i: int| 0 <= i < v.len() && v[i] == (&k, &m[k]);
            assert(order[i] == k);
        }
        if order.to_set().contains(k) {
            let i = choose|i: int| 0 <= i < order.len() && order[i] == k;
            assert(m.contains_key(*v[i].0));
        }
    }
    assert(order.to_set() =~= m.dom());
    assert forall|i: int, j: int| 0 <= i < order.len() && 0 <= j < order.len() && i != j implies order[i]
        != order[j] by {
        assert(m.contains_key(*v[i].0));
        assert(m.contains_key(*v[j].0));
        if order[i] == order[j] {
            assert(v[i] == v[j]);
        }
    }
}

/// The maps made from `m` by giving the key `k` each of the values `vs`, in order.
pub open spec fn revalued<K, V>(m: Map<K, V>, k: K, vs: Seq<V>) -> Seq<Map<K, V>> {
    vs.map_values(|v: V| m.insert(k, v))
}

/// The value candidates of the keys `order[0..vcs.len()]`, key by key, where `vcs[i]` are
/// the value generator's candidates for the value of `order[i]`.
pub open spec fn value_replacements<K, V>(m: Map<K, V>, order: Seq<K>, vcs: Seq<Seq<V>>) -> Seq<
    Map<K, V>,
>
    decreases vcs.len(),
{
    if vcs.len() == 0 {
        seq![]
    } else {
        value_replacements(m, order, vcs.drop_last()) + revalued(m, order[vcs.len() - 1], vcs.last())
    }
}

/// The views of a sequence of ordered maps.
pub open spec fn btree_map_views<K, V>(s: Seq<BTreeMap<K, V>>) -> Seq<Map<K, V>> {
    s.map_values(|x: BTreeMap<K, V>| x@)
}

/// Appending a map appends its view.
pub proof fn lemma_btree_map_views_push<K, V>(s: Seq<BTreeMap<K, V>>, x: BTreeMap<K, V>)
    ensures
        btree_map_views(s.push(x)) == btree_map_views(s).push(x@),
{
    assert(btree_map_views(s.push(x)) =~= btree_map_views(s).push(x@));
}

/// The candidates of shrinking the ordered map `m`, whose keys are listed once each in
/// `order`, where `vcs[i]` are the value generator's candidates for the value of
/// `order[i]`: the empty map when `m` has an entry; the map without each of the first half
/// of the keys when it has two or more; then, key by key, the map with the key's value
/// replaced by each of its candidates.
pub open spec fn btree_map_candidates<K, V>(m: Map<K, V>, order: Seq<K>, vcs: Seq<Seq<V>>) -> Seq<
    Map<K, V>,
> {
    (if order.len() > 0 {
        seq![Map::<K, V>::empty()]
    } else {
        seq![]
    }) + (if order.len() > 1 {
        Seq::new(order.len() / 2, |i: int| m.remove(order[i]))
    } else {
        seq![]
    }) + value_replacements(m, order, vcs)
}

/// Generator for ordered maps whose keys and values come from two generators.
#[derive(Debug)]
pub struct BTreeMapGenerator<K, V, KG, VG> {
    /// The generator of the keys.
    pub key_generator: KG,
    /// The generator of the values.
    pub value_generator: VG,
    /// The least number of entries asked for.
    pub min_size: usize,
    /// The greatest number of entries.
    pub max_size: usize,
    /// Ties the generator to its key and value types.
    pub marker: core::marker::PhantomData<(K, V)>,
}

impl<K: CollectionKey, V: Clone, KG: Generator<K>, VG: Generator<V>> BTreeMapGenerator<K, V, KG, VG> {
    /// A generator of maps of `min_size..=max_size` entries, fewer when drawn keys repeat.
    pub fn new(key_generator: KG, value_generator: VG, min_size: usize, max_size: usize) -> (r: Self)
        ensures
            r.key_generator == key_generator,
            r.value_generator == value_generator,
            r.min_size == min_size,
            r.max_size == max_size,
    {
        BTreeMapGenerator {
            key_generator,
            value_generator,
            min_size,
            max_size,
            marker: core::marker::PhantomData,
        }
    }
}

impl<K: CollectionKey, V: Clone, KG: Generator<K>, VG: Generator<V>> Generator<BTreeMap<K, V>> for BTreeMapGenerator<
    K,
    V,
    KG,
    VG,
> {
    open spec fn can_generate(&self, config: GeneratorConfig) -> bool {
        &&& self.key_generator.can_generate(config)
        &&& self.value_generator.can_generate(config)
        &&& self.min_size <= self.max_size
        &&& self.max_size * 10 <= usize::MAX
    }

    open spec fn generates(&self, config: GeneratorConfig, value: BTreeMap<K, V>) -> bool {
        &&& value@.dom().finite()
        &&& value@.dom().len() <= self.max_size
        &&& forall|k: K|
            #[trigger] value@.contains_key(k) ==> self.key_generator.generates(config, k)
                && self.value_generator.generates(config, value@[k])
    }

    open spec fn can_shrink(&self, value: BTreeMap<K, V>) -> bool {
        forall|k: K| #[trigger] value@.contains_key(k) ==> self.value_generator.can_shrink(value@[k])
    }

    open spec fn shrinks_to(&self, value: BTreeMap<K, V>, candidates: Seq<BTreeMap<K, V>>) -> bool {
        exists|order: Seq<K>, vcs: Seq<Seq<V>>|
            {
                &&& order.to_set() == value@.dom()
                &&& order.no_duplicates()
                &&& vcs.len() == order.len()
                &&& forall|i: int|
                    0 <= i < vcs.len() ==> self.value_generator.shrinks_to(
                        value@[order[i]],
                        #[trigger] vcs[i],
                    )
                &&& #[trigger] btree_map_views(candidates) == btree_map_candidates(value@, order, vcs)
            }
    }

    fn generate(&self, rng: &mut StdRng, config: &GeneratorConfig) -> (r: BTreeMap<K, V>) {
        proof {
            K::lemma_key_laws();
        }
        let size = usize::random_in(rng, self.min_size, self.max_size);
        let mut map: BTreeMap<K, V> = BTreeMap::new();
        let mut attempts: usize = 0;
        let max_attempts = size * 10;
        while map.len() < size && attempts < max_attempts
            invariant
                key_laws::<K>(),
                size <= self.max_size,
                max_attempts == size * 10,
                self.key_generator.can_generate(*config),
                self.value_generator.can_generate(*config),
                map@.dom().finite(),
                map@.dom().len() <= size,
                forall|k: K|
                    #[trigger] map@.contains_key(k) ==> self.key_generator.generates(*config, k)
                        && self.value_generator.generates(*config, map@[k]),
            decreases max_attempts - attempts,
        {
            let key = self.key_generator.generate(rng, config);
            let value = self.value_generator.generate(rng, config);
            map.insert(key, value);
            attempts = attempts + 1;
        }
        map
    }

    fn shrink(&self, value: &BTreeMap<K, V>) -> (r: Vec<BTreeMap<K, V>>) {
        proof {
            K::lemma_key_laws();
        }
        let ghost m = value@;
        let ghost pairs = spec_btree_map_iter(value).remaining();
        let ghost order = pair_keys(pairs);
        let mut shrinks: Vec<BTreeMap<K, V>> = Vec::new();
        let n = value.len();
        if n > 0 {
            shrinks.push(BTreeMap::new());
        }
        let ghost base1 = btree_map_views(shrinks@);
        if n > 1 {
            let half = n / 2;
            let mut count: usize = 0;
            for entry in it: value.iter()
                invariant
                    key_laws::<K>(),
                    m == value@,
                    n == m.dom().len(),
                    half == n / 2,
                    it.seq() == pairs,
                    order == pair_keys(pairs),
                    count == it.index(),
                    btree_map_views(shrinks@) == base1 + Seq::new(
                        if count <= half { count as nat } else { half as nat },
                        |i: int| m.remove(order[i]),
                    ),
            {
                let (key, _) = entry;
                assert(*key == order[count as int]);
                let ghost prev = shrinks@;
                if count < half {
                    let mut smaller = value.clone();
                    smaller.remove(key);
                    assert(smaller@ == m.remove(order[count as int]));
                    shrinks.push(smaller);
                    proof {
                        lemma_btree_map_views_push(prev, smaller);
                    }
                }
                count = count + 1;
                assert(btree_map_views(shrinks@) =~= base1 + Seq::new(
                    if count <= half { count as nat } else { half as nat },
                    |i: int| m.remove(order[i]),
                ));
            }
        }
        let ghost base2 = btree_map_views(shrinks@);
        assert(base2 == (if n > 0 {
            seq![Map::<K, V>::empty()]
        } else {
            seq![]
        }) + (if n > 1 {
            Seq::new(n as nat / 2, |i: int| m.remove(order[i]))
        } else {
            seq![]
        }));
        let ghost mut vcs: Seq<Seq<V>> = seq![];
        let entries = value.iter();
        proof {
            lemma_pair_keys(m, pairs);
        }
        for entry in it: entries
            invariant
                key_laws::<K>(),
                m == value@,
                it.seq() == pairs,
                order == pair_keys(pairs),
                order.len() == pairs.len(),
                forall|i: int| 0 <= i < pairs.len() ==> #[trigger] m[order[i]] == *pairs[i].1,
                order.to_set() == m.dom(),
                vcs.len() == it.index(),
                forall|i: int|
                    0 <= i < vcs.len() ==> self.value_generator.shrinks_to(m[order[i]], #[trigger] vcs[i]),
                forall|k: K| #[trigger] m.contains_key(k) ==> self.value_generator.can_shrink(m[k]),
                btree_map_views(shrinks@) == base2 + value_replacements(m, order, vcs),
        {
            let (key, val) = entry;
            let ghost k: int = vcs.len() as int;
            assert(*key == order[k]);
            assert(*val == m[order[k]]);
            assert(m.contains_key(*key));
            let cands = self.value_generator.shrink(val);
            let ghost cs = cands@;
            let ghost before = btree_map_views(shrinks@);
            for sv in jt: cands.into_iter()
                invariant
                    key_laws::<K>(),
                    m == value@,
                    jt.seq() == cs,
                    btree_map_views(shrinks@) == before + revalued(m, *key, cs.take(jt.index())),
            {
                let ghost j: int = jt.index();
                let ghost prev = shrinks@;
                let mut shrunk = value.clone();
                let kc = key.clone();
                assert(cloned(*key, kc));
                shrunk.insert(kc, sv);
                shrinks.push(shrunk);
                proof {
                    lemma_btree_map_views_push(prev, shrunk);
                }
                assert(revalued(m, *key, cs.take(j + 1)) =~= revalued(m, *key, cs.take(j)).push(
                    m.insert(*key, cs[j]),
                ));
            }
            proof {
                assert(cs.take(cs.len() as int) =~= cs);
                let v2 = vcs.push(cs);
                assert(v2.drop_last() =~= vcs);
                vcs = v2;
            }
        }
        assert(btree_map_views(shrinks@) == btree_map_candidates(m, order, vcs));
        shrinks
    }
}

/// The maps made from `m` by moving the value of `k` to each of `kcs` that is not a key of
/// `m`, the value moved being the copy `ws[j]` for `kcs[j]`.
pub open spec fn rekeyed<K, V>(m: Map<K, V>, k: K, kcs: Seq<K>, ws: Seq<V>) -> Seq<Map<K, V>>
    decreases kcs.len(),
{
    if kcs.len() == 0 {
        seq![]
    } else {
        rekeyed(m, k, kcs.drop_last(), ws.drop_last()) + if !m.contains_key(kcs.last()) {
            seq![m.remove(k).insert(kcs.last(), ws[kcs.len() - 1])]
        } else {
            seq![]
        }
    }
}

/// The key candidates of the keys `order[0..kcs.len()]`, key by key, where `kcs[i]` are the
/// key generator's candidates for `order[i]` and `wss[i]` the copies of its value.
pub open spec fn key_replacements<K, V>(
    m: Map<K, V>,
    order: Seq<K>,
    kcs: Seq<Seq<K>>,
    wss: Seq<Seq<V>>,
) -> Seq<Map<K, V>>
    decreases kcs.len(),
{
    if kcs.len() == 0 {
        seq![]
    } else {
        key_replacements(m, order, kcs.drop_last(), wss.drop_last()) + rekeyed(
            m,
            order[kcs.len() - 1],
            kcs.last(),
            wss[kcs.len() - 1],
        )
    }
}

/// The views of a sequence of hash maps.
pub open spec fn hash_map_views<K, V>(s: Seq<HashMap<K, V>>) -> Seq<Map<K, V>> {
    s.map_values(|x: HashMap<K, V>| x@)
}

/// Appending a map appends its view.
pub proof fn lemma_hash_map_views_push<K, V>(s: Seq<HashMap<K, V>>, x: HashMap<K, V>)
    ensures
        hash_map_views(s.push(x)) == hash_map_views(s).push(x@),
{
    assert(hash_map_views(s.push(x)) =~= hash_map_views(s).push(x@));
}

/// The candidates of shrinking the hash map `m` with least size `min`, whose keys are
/// listed once each in `order`: when it has more than `min` entries, the empty map, then
/// the map without each of the first `len - min` keys; then, key by key, the map with the
/// key's value replaced by each of the value generator's candidates `vcs[i]`; then, key by
/// key, the map with the entry moved to each of the key generator's candidates `kcs[i]`
/// that is not a key yet, with a copy `wss[i][j]` of the value.
pub open spec fn hash_map_candidates<K, V>(
    m: Map<K, V>,
    min: nat,
    order: Seq<K>,
    vcs: Seq<Seq<V>>,
    kcs: Seq<Seq<K>>,
    wss: Seq<Seq<V>>,
) -> Seq<Map<K, V>> {
    (if order.len() > min {
        seq![Map::<K, V>::empty()] + Seq::new(
            (order.len() - min) as nat,
            |i: int| m.remove(order[i]),
        )
    } else {
        seq![]
    }) + value_replacements(m, order, vcs) + key_replacements(m, order, kcs, wss)
}

/// The greatest size a hash map generator aims for: its greatest size, bounded by the
/// size hint, and no less than its least size.
pub open spec fn hash_map_target_bound(min_size: usize, max_size: usize, size_hint: usize) -> int {
    let max = if max_size <= size_hint {
        max_size
    } else {
        size_hint
    };
    if min_size >= max {
        min_size as int
    } else {
        max as int
    }
}

/// Generator for hash maps whose keys and values come from two generators.
#[derive(Debug)]
pub struct HashMapGenerator<K, V, KG, VG> {
    /// The generator of the keys.
    pub key_generator: KG,
    /// The generator of the values.
    pub value_generator: VG,
    /// The least number of entries asked for.
    pub min_size: usize,
    /// The greatest number of entries asked for, before the size hint bounds it.
    pub max_size: usize,
    /// Ties the generator to its key and value types.
    pub marker: core::marker::PhantomData<(K, V)>,
}

impl<K: CollectionKey, V: Clone, KG: Generator<K>, VG: Generator<V>> HashMapGenerator<K, V, KG, VG> {
    /// A generator of maps of `min_size` up to `max_size` entries (bounded by the size
    /// hint), fewer when drawn keys repeat.
    pub fn new(key_generator: KG, value_generator: VG, min_size: usize, max_size: usize) -> (r: Self)
        ensures
            r.key_generator == key_generator,
            r.value_generator == value_generator,
            r.min_size == min_size,
            r.max_size == max_size,
    {
        HashMapGenerator {
            key_generator,
            value_generator,
            min_size,
            max_size,
            marker: core::marker::PhantomData,
        }
    }
}

impl<K: CollectionKey, V: Clone, KG: Generator<K>, VG: Generator<V>> Generator<HashMap<K, V>> for HashMapGenerator<
    K,
    V,
    KG,
    VG,
> {
    open spec fn can_generate(&self, config: GeneratorConfig) -> bool {
        &&& self.key_generator.can_generate(config)
        &&& self.value_generator.can_generate(config)
        &&& self.min_size * 10 <= usize::MAX
        &&& self.max_size * 10 <= usize::MAX
    }

    open spec fn generates(&self, config: GeneratorConfig, value: HashMap<K, V>) -> bool {
        &&& value@.dom().finite()
        &&& value@.dom().len() <= hash_map_target_bound(self.min_size, self.max_size, config.size_hint)
        &&& forall|k: K|
            #[trigger] value@.contains_key(k) ==> self.key_generator.generates(config, k)
                && self.value_generator.generates(config, value@[k])
    }

    open spec fn can_shrink(&self, value: HashMap<K, V>) -> bool {
        forall|k: K|
            #[trigger] value@.contains_key(k) ==> self.key_generator.can_shrink(k)
                && self.value_generator.can_shrink(value@[k])
    }

    open spec fn shrinks_to(&self, value: HashMap<K, V>, candidates: Seq<HashMap<K, V>>) -> bool {
        exists|order: Seq<K>, vcs: Seq<Seq<V>>, kcs: Seq<Seq<K>>, wss: Seq<Seq<V>>|
            {
                &&& order.to_set() == value@.dom()
                &&& order.no_duplicates()
                &&& vcs.len() == order.len()
                &&& kcs.len() == order.len()
                &&& wss.len() == order.len()
                &&& forall|i: int|
                    0 <= i < vcs.len() ==> self.value_generator.shrinks_to(
                        value@[order[i]],
                        #[trigger] vcs[i],
                    )
                &&& forall|i: int|
                    0 <= i < kcs.len() ==> self.key_generator.shrinks_to(order[i], #[trigger] kcs[i])
                &&& forall|i: int|
                    0 <= i < wss.len() ==> (#[trigger] wss[i]).len() == kcs[i].len() && forall|j: int|
                        0 <= j < wss[i].len() ==> cloned(value@[order[i]], #[trigger] wss[i][j])
                &&& #[trigger] hash_map_views(candidates) == hash_map_candidates(
                    value@,
                    self.min_size as nat,
                    order,
                    vcs,
                    kcs,
                    wss,
                )
            }
    }

    fn generate(&self, rng: &mut StdRng, config: &GeneratorConfig) -> (r: HashMap<K, V>) {
        proof {
            K::lemma_key_laws();
        }
        let max_size = if self.max_size <= config.size_hint {
            self.max_size
        } else {
            config.size_hint
        };
        let target = if self.min_size >= max_size {
            self.min_size
        } else {
            usize::random_in(rng, self.min_size, max_size)
        };
        let mut map: HashMap<K, V> = HashMap::new();
        let mut attempts: usize = 0;
        let max_attempts = target * 10;
        while map.len() < target && attempts < max_attempts
            invariant
                key_laws::<K>(),
                target <= hash_map_target_bound(self.min_size, self.max_size, config.size_hint),
                max_attempts == target * 10,
                self.key_generator.can_generate(*config),
                self.value_generator.can_generate(*config),
                map@.dom().finite(),
                map@.dom().len() <= target,
                forall|k: K|
                    #[trigger] map@.contains_key(k) ==> self.key_generator.generates(*config, k)
                        && self.value_generator.generates(*config, map@[k]),
            decreases max_attempts - attempts,
        {
            let key = self.key_generator.generate(rng, config);
            let value = self.value_generator.generate(rng, config);
            map.insert(key, value);
            attempts = attempts + 1;
        }
        map
    }

    fn shrink(&self, value: &HashMap<K, V>) -> (r: Vec<HashMap<K, V>>) {
        proof {
            K::lemma_key_laws();
        }
        let ghost m = value@;
        let ghost min = self.min_size as nat;
        let ghost pairs = spec_hash_map_iter(value).remaining();
        let ghost order = pair_keys(pairs);
        let mut shrinks: Vec<HashMap<K, V>> = Vec::new();
        let n = value.len();
        let entries = value.iter();
        proof {
            lemma_pair_keys(m, pairs);
        }
        if n > self.min_size {
            shrinks.push(HashMap::new());
            let drop = n - self.min_size;
            let mut count: usize = 0;
            for entry in it: entries
                invariant
                    key_laws::<K>(),
                    m == value@,
                    n == m.dom().len(),
                    drop == n - min,
                    pairs.len() == n,
                    it.seq() == pairs,
                    order == pair_keys(pairs),
                    count == it.index(),
                    hash_map_views(shrinks@) == seq![Map::<K, V>::empty()] + Seq::new(
                        if count <= drop { count as nat } else { drop as nat },
                        |i: int| m.remove(order[i]),
                    ),
            {
                let (key, _) = entry;
                assert(*key == order[count as int]);
                let ghost prev = shrinks@;
                if count < drop {
                    let mut smaller = value.clone();
                    smaller.remove(key);
                    assert(smaller@ == m.remove(order[count as int]));
                    shrinks.push(smaller);
                    proof {
                        lemma_hash_map_views_push(prev, smaller);
                    }
                }
                count = count + 1;
                assert(hash_map_views(shrinks@) =~= seq![Map::<K, V>::empty()] + Seq::new(
                    if count <= drop { count as nat } else { drop as nat },
                    |i: int| m.remove(order[i]),
                ));
            }
        }
        let ghost base2 = hash_map_views(shrinks@);
        assert(base2 == (if order.len() > min {
            seq![Map::<K, V>::empty()] + Seq::new(
                (order.len() - min) as nat,
                |i: int| m.remove(order[i]),
            )
        } else {
            seq![]
        }));
        let ghost mut vcs: Seq<Seq<V>> = seq![];
        for entry in it: value.iter()
            invariant
                key_laws::<K>(),
                m == value@,
                it.seq() == pairs,
                order == pair_keys(pairs),
                order.len() == pairs.len(),
                forall|i: int| 0 <= i < pairs.len() ==> #[trigger] m[order[i]] == *pairs[i].1,
                order.to_set() == m.dom(),
                vcs.len() == it.index(),
                forall|i: int|
                    0 <= i < vcs.len() ==> self.value_generator.shrinks_to(m[order[i]], #[trigger] vcs[i]),
                forall|k: K|
                    #[trigger] m.contains_key(k) ==> self.key_generator.can_shrink(k)
                        && self.value_generator.can_shrink(m[k]),
                hash_map_views(shrinks@) == base2 + value_replacements(m, order, vcs),
        {
            let (key, val) = entry;
            let ghost k: int = vcs.len() as int;
            assert(*key == order[k]);
            assert(*val == m[order[k]]);
            assert(m.contains_key(*key));
            let cands = self.value_generator.shrink(val);
            let ghost cs = cands@;
            let ghost before = hash_map_views(shrinks@);
            for sv in jt: cands.into_iter()
                invariant
                    key_laws::<K>(),
                    m == value@,
                    jt.seq() == cs,
                    hash_map_views(shrinks@) == before + revalued(m, *key, cs.take(jt.index())),
            {
                let ghost j: int = jt.index();
                let ghost prev = shrinks@;
                let mut shrunk = value.clone();
                let kc = key.clone();
                assert(cloned(*key, kc));
                shrunk.insert(kc, sv);
                shrinks.push(shrunk);
                proof {
                    lemma_hash_map_views_push(prev, shrunk);
                }
                assert(revalued(m, *key, cs.take(j + 1)) =~= revalued(m, *key, cs.take(j)).push(
                    m.insert(*key, cs[j]),
                ));
            }
            proof {
                assert(cs.take(cs.len() as int) =~= cs);
                let v2 = vcs.push(cs);
                assert(v2.drop_last() =~= vcs);
                vcs = v2;
            }
        }
        let ghost base3 = hash_map_views(shrinks@);
        let ghost mut kcs: Seq<Seq<K>> = seq![];
        let ghost mut wss: Seq<Seq<V>> = seq![];
        for entry in it: value.iter()
            invariant
                key_laws::<K>(),
                m == value@,
                it.seq() == pairs,
                order == pair_keys(pairs),
                order.len() == pairs.len(),
                forall|i: int| 0 <= i < pairs.len() ==> #[trigger] m[order[i]] == *pairs[i].1,
                order.to_set() == m.dom(),
                kcs.len() == it.index(),
                wss.len() == it.index(),
                forall|i: int|
                    0 <= i < kcs.len() ==> self.key_generator.shrinks_to(order[i], #[trigger] kcs[i]),
                forall|i: int|
                    0 <= i < wss.len() ==> (#[trigger] wss[i]).len() == kcs[i].len() && forall|j: int|
                        0 <= j < wss[i].len() ==> cloned(m[order[i]], #[trigger] wss[i][j]),
                forall|k: K|
                    #[trigger] m.contains_key(k) ==> self.key_generator.can_shrink(k)
                        && self.value_generator.can_shrink(m[k]),
                hash_map_views(shrinks@) == base3 + key_replacements(m, order, kcs, wss),
        {
            let (key, val) = entry;
            let ghost k: int = kcs.len() as int;
            assert(*key == order[k]);
            assert(*val == m[order[k]]);
            assert(m.contains_key(*key));
            let cands = self.key_generator.shrink(key);
            let ghost cs = cands@;
            let ghost before = hash_map_views(shrinks@);
            let ghost mut ws: Seq<V> = seq![];
            for sk in jt: cands.into_iter()
                invariant
                    key_laws::<K>(),
                    m == value@,
                    m.contains_key(*key),
                    *val == m[*key],
                    jt.seq() == cs,
                    ws.len() == jt.index(),
                    forall|j: int| 0 <= j < ws.len() ==> cloned(m[*key], #[trigger] ws[j]),
                    hash_map_views(shrinks@) == before + rekeyed(m, *key, cs.take(ws.len() as int), ws),
            {
                let ghost prev = shrinks@;
                let ghost w = *val;
                if !value.contains_key(&sk) {
                    let mut shrunk = value.clone();
                    shrunk.remove(key);
                    let copy = val.clone();
                    proof {
                        w = copy;
                    }
                    shrunk.insert(sk, copy);
                    shrinks.push(shrunk);
                    proof {
                        lemma_hash_map_views_push(prev, shrunk);
                    }
                }
                proof {
                    let w2 = ws.push(w);
                    let t2 = cs.take(w2.len() as int);
                    assert(t2.drop_last() =~= cs.take(ws.len() as int));
                    assert(w2.drop_last() =~= ws);
                    ws = w2;
                }
            }
            proof {
                assert(cs.take(cs.len() as int) =~= cs);
                let k2 = kcs.push(cs);
                let w2 = wss.push(ws);
                assert(k2.drop_last() =~= kcs);
                assert(w2.drop_last() =~= wss);
                kcs = k2;
                wss = w2;
            }
        }
        assert(hash_map_views(shrinks@) == hash_map_candidates(m, min, order, vcs, kcs, wss));
        shrinks
    }
}

} // verus!
