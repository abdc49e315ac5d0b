//! Shrinking of failing inputs toward minimal counterexamples.

use vstd::prelude::*;
use crate::error::PropertyError;
use crate::time::{Duration, elapsed, now};
use crate::text::string_views;
use crate::shrink::strategies::{
    bool_candidates, bool_shrink, char_candidates, char_shrink, int_values, negation_fits,
    signed_candidates, signed_int_shrink, string_candidates, string_shrink, unsigned_candidates,
    unsigned_int_shrink,
};

pub mod collections;
pub mod stepped;
pub mod strategies;

verus! {

/// Values that can be shrunk to smaller candidate values.
///
/// Each value has a mathematical model; shrinking is stated over models, so that
/// candidates of composite values are described from the candidates of their parts.
pub trait Shrinkable: Sized {
    /// The mathematical model of a value.
    type Model;

    /// The model of this value.
    spec fn model(&self) -> Self::Model;

    /// Whether `candidates` is a list of candidates that shrinking a value of model `m`
    /// produces, in order.
    spec fn shrinks_to(m: Self::Model, candidates: Seq<Self::Model>) -> bool;

    /// The candidates, simplest first.
    fn shrink(&self) -> (r: Vec<Self>)
        ensures
            Self::shrinks_to(self.model(), r@.map_values(|x: Self| x.model())),
    ;

    /// A copy of this value with the same model.
    fn duplicate(&self) -> (r: Self)
        ensures
            r.model() == self.model(),
    ;
}

/// The models of a sequence of values.
pub open spec fn models<T: Shrinkable>(s: Seq<T>) -> Seq<T::Model> {
    s.map_values(|x: T| x.model())
}

/// The models of a sequence of vectors.
pub open spec fn vec_models<T: Shrinkable>(s: Seq<Vec<T>>) -> Seq<Seq<T::Model>> {
    s.map_values(|c: Vec<T>| models(c@))
}

/// Appending a vector appends its models.
pub proof fn lemma_vec_models_push<T: Shrinkable>(s: Seq<Vec<T>>, x: Vec<T>)
    ensures
        vec_models(s.push(x)) == vec_models(s).push(models(x@)),
{
    assert(vec_models(s.push(x)) =~= vec_models(s).push(models(x@)));
}

/// Appending a value appends its model.
pub proof fn lemma_models_push<T: Shrinkable>(s: Seq<T>, x: T)
    ensures
        models(s.push(x)) == models(s).push(x.model()),
{
    assert(models(s.push(x)) =~= models(s).push(x.model()));
}

impl Shrinkable for bool {
    type Model = bool;

    open spec fn model(&self) -> bool {
        *self
    }

    open spec fn shrinks_to(m: bool, candidates: Seq<bool>) -> bool {
        candidates == bool_candidates(m)
    }

    fn shrink(&self) -> (r: Vec<bool>) {
        let r = bool_shrink(self);
        assert(r@.map_values(|x: bool| x.model()) =~= r@);
        r
    }

    fn duplicate(&self) -> (r: bool) {
        *self
    }
}

impl Shrinkable for char {
    type Model = char;

    open spec fn model(&self) -> char {
        *self
    }

    open spec fn shrinks_to(m: char, candidates: Seq<char>) -> bool {
        candidates == char_candidates(m)
    }

    fn shrink(&self) -> (r: Vec<char>) {
        let r = char_shrink(self);
        assert(r@.map_values(|x: char| x.model()) =~= r@);
        r
    }

    fn duplicate(&self) -> (r: char) {
        *self
    }
}

impl Shrinkable for String {
    type Model = Seq<char>;

    open spec fn model(&self) -> Seq<char> {
        self@
    }

    open spec fn shrinks_to(m: Seq<char>, candidates: Seq<Seq<char>>) -> bool {
        candidates == string_candidates(m)
    }

    fn shrink(&self) -> (r: Vec<String>) {
        let r = string_shrink(self.as_str());
        assert(r@.map_values(|x: String| x.model()) =~= string_views(r@));
        r
    }

    fn duplicate(&self) -> (r: String) {
        self.clone()
    }
}

} // verus!

verus! {

impl Shrinkable for i8 {
    type Model = int;

    open spec fn model(&self) -> int {
        *self as int
    }

    open spec fn shrinks_to(m: int, candidates: Seq<int>) -> bool {
        candidates == signed_candidates(m, negation_fits::<i8>(m))
    }

    fn shrink(&self) -> (r: Vec<i8>) {
        let r = signed_int_shrink(self);
        assert(r@.map_values(|x: i8| x.model()) =~= int_values(r@));
        r
    }

    fn duplicate(&self) -> (r: i8) {
        *self
    }
}

impl Shrinkable for i16 {
    type Model = int;

    open spec fn model(&self) -> int {
        *self as int
    }

    open spec fn shrinks_to(m: int, candidates: Seq<int>) -> bool {
        candidates == signed_candidates(m, negation_fits::<i16>(m))
    }

    fn shrink(&self) -> (r: Vec<i16>) {
        let r = signed_int_shrink(self);
        assert(r@.map_values(|x: i16| x.model()) =~= int_values(r@));
        r
    }

    fn duplicate(&self) -> (r: i16) {
        *self
    }
}

impl Shrinkable for i32 {
    type Model = int;

    open spec fn model(&self) -> int {
        *self as int
    }

    open spec fn shrinks_to(m: int, candidates: Seq<int>) -> bool {
        candidates == signed_candidates(m, negation_fits::<i32>(m))
    }

    fn shrink(&self) -> (r: Vec<i32>) {
        let r = signed_int_shrink(self);
        assert(r@.map_values(|x: i32| x.model()) =~= int_values(r@));
        r
    }

    fn duplicate(&self) -> (r: i32) {
        *self
    }
}

impl Shrinkable for i64 {
    type Model = int;

    open spec fn model(&self) -> int {
        *self as int
    }

    open spec fn shrinks_to(m: int, candidates: Seq<int>) -> bool {
        candidates == signed_candidates(m, negation_fits::<i64>(m))
    }

    fn shrink(&self) -> (r: Vec<i64>) {
        let r = signed_int_shrink(self);
        assert(r@.map_values(|x: i64| x.model()) =~= int_values(r@));
        r
    }

    fn duplicate(&self) -> (r: i64) {
        *self
    }
}

impl Shrinkable for i128 {
    type Model = int;

    open spec fn model(&self) -> int {
        *self as int
    }

    open spec fn shrinks_to(m: int, candidates: Seq<int>) -> bool {
        candidates == signed_candidates(m, negation_fits::<i128>(m))
    }

    fn shrink(&self) -> (r: Vec<i128>) {
        let r = signed_int_shrink(self);
        assert(r@.map_values(|x: i128| x.model()) =~= int_values(r@));
        r
    }

    fn duplicate(&self) -> (r: i128) {
        *self
    }
}

impl Shrinkable for isize {
    type Model = int;

    open spec fn model(&self) -> int {
        *self as int
    }

    open spec fn shrinks_to(m: int, candidates: Seq<int>) -> bool {
        candidates == signed_candidates(m, negation_fits::<isize>(m))
    }

    fn shrink(&self) -> (r: Vec<isize>) {
        let r = signed_int_shrink(self);
        assert(r@.map_values(|x: isize| x.model()) =~= int_values(r@));
        r
    }

    fn duplicate(&self) -> (r: isize) {
        *self
    }
}

impl Shrinkable for u8 {
    type Model = int;

    open spec fn model(&self) -> int {
        *self as int
    }

    open spec fn shrinks_to(m: int, candidates: Seq<int>) -> bool {
        candidates == unsigned_candidates(m)
    }

    fn shrink(&self) -> (r: Vec<u8>) {
        let r = unsigned_int_shrink(self);
        assert(r@.map_values(|x: u8| x.model()) =~= int_values(r@));
        r
    }

    fn duplicate(&self) -> (r: u8) {
        *self
    }
}

impl Shrinkable for u16 {
    type Model = int;

    open spec fn model(&self) -> int {
        *self as int
    }

    open spec fn shrinks_to(m: int, candidates: Seq<int>) -> bool {
        candidates == unsigned_candidates(m)
    }

    fn shrink(&self) -> (r: Vec<u16>) {
        let r = unsigned_int_shrink(self);
        assert(r@.map_values(|x: u16| x.model()) =~= int_values(r@));
        r
    }

    fn duplicate(&self) -> (r: u16) {
        *self
    }
}

impl Shrinkable for u32 {
    type Model = int;

    open spec fn model(&self) -> int {
        *self as int
    }

    open spec fn shrinks_to(m: int, candidates: Seq<int>) -> bool {
        candidates == unsigned_candidates(m)
    }

    fn shrink(&self) -> (r: Vec<u32>) {
        let r = unsigned_int_shrink(self);
        assert(r@.map_values(|x: u32| x.model()) =~= int_values(r@));
        r
    }

    fn duplicate(&self) -> (r: u32) {
        *self
    }
}

impl Shrinkable for u64 {
    type Model = int;

    open spec fn model(&self) -> int {
        *self as int
    }

    open spec fn shrinks_to(m: int, candidates: Seq<int>) -> bool {
        candidates == unsigned_candidates(m)
    }

    fn shrink(&self) -> (r: Vec<u64>) {
        let r = unsigned_int_shrink(self);
        assert(r@.map_values(|x: u64| x.model()) =~= int_values(r@));
        r
    }

    fn duplicate(&self) -> (r: u64) {
        *self
    }
}

impl Shrinkable for u128 {
    type Model = int;

    open spec fn model(&self) -> int {
        *self as int
    }

    open spec fn shrinks_to(m: int, candidates: Seq<int>) -> bool {
        candidates == unsigned_candidates(m)
    }

    fn shrink(&self) -> (r: Vec<u128>) {
        let r = unsigned_int_shrink(self);
        assert(r@.map_values(|x: u128| x.model()) =~= int_values(r@));
        r
    }

    fn duplicate(&self) -> (r: u128) {
        *self
    }
}

impl Shrinkable for usize {
    type Model = int;

    open spec fn model(&self) -> int {
        *self as int
    }

    open spec fn shrinks_to(m: int, candidates: Seq<int>) -> bool {
        candidates == unsigned_candidates(m)
    }

    fn shrink(&self) -> (r: Vec<usize>) {
        let r = unsigned_int_shrink(self);
        assert(r@.map_values(|x: usize| x.model()) =~= int_values(r@));
        r
    }

    fn duplicate(&self) -> (r: usize) {
        *self
    }
}

} // verus!

verus! {

/// Copies of `v[lo..hi]`, with the same models.
pub fn duplicate_range<T: Shrinkable>(v: &[T], lo: usize, hi: usize) -> (r: Vec<T>)
    requires
        lo <= hi <= v@.len(),
    ensures
        models(r@) == models(v@).subrange(lo as int, hi as int),
{
    let mut out: Vec<T> = Vec::new();
    let mut i: usize = lo;
    while i < hi
        invariant
            lo <= i <= hi <= v@.len(),
            models(out@) == models(v@).subrange(lo as int, i as int),
        decreases hi - i,
    {
        let x = v[i].duplicate();
        let ghost prev = out@;
        out.push(x);
        proof {
            lemma_models_push(prev, x);
            assert(models(v@).subrange(lo as int, i + 1) =~= models(v@).subrange(
                lo as int,
                i as int,
            ).push(v@[i as int].model()));
        }
        i = i + 1;
    }
    out
}

/// Copies of the values of `v` without the one at `skip`, with the same models.
pub fn duplicate_except<T: Shrinkable>(v: &[T], skip: usize) -> (r: Vec<T>)
    requires
        skip < v@.len(),
    ensures
        models(r@) == models(v@).remove(skip as int),
{
    let len = v.len();
    let mut out = duplicate_range(v, 0, skip);
    let mut i: usize = skip + 1;
    while i < len
        invariant
            skip < i <= len == v@.len(),
            models(out@) == models(v@).subrange(0, skip as int) + models(v@).subrange(
                skip + 1,
                i as int,
            ),
        decreases len - i,
    {
        let x = v[i].duplicate();
        let ghost prev = out@;
        out.push(x);
        proof {
            lemma_models_push(prev, x);
            assert(models(v@).subrange(skip + 1, i + 1) =~= models(v@).subrange(
                skip + 1,
                i as int,
            ).push(v@[i as int].model()));
        }
        i = i + 1;
    }
    assert(models(v@).remove(skip as int) =~= models(v@).subrange(0, skip as int) + models(
        v@,
    ).subrange(skip + 1, len as int));
    out
}

/// Each sequence with one element of `m` removed, position by position.
pub open spec fn single_removals<M>(m: Seq<M>) -> Seq<Seq<M>> {
    Seq::new(m.len(), |i: int| m.remove(i))
}

/// The two halves of `m`, when it has more than two elements.
pub open spec fn halves<M>(m: Seq<M>) -> Seq<Seq<M>> {
    let n = m.len() as int;
    if n > 2 {
        seq![m.subrange(0, n / 2), m.subrange(n / 2, n)]
    } else {
        seq![]
    }
}

/// Candidates that remove elements of a sequence: the empty sequence, each sequence
/// with one element removed, and for more than two elements the two halves.
pub open spec fn removal_candidates<M>(m: Seq<M>) -> Seq<Seq<M>> {
    (if m.len() > 0 { seq![Seq::<M>::empty()] } else { seq![] }) + single_removals(m) + halves(m)
}

/// Candidates that replace one element of `m` by one of its candidates `ls[i]`, for the
/// positions before `i`, position by position.
pub open spec fn element_variants<M>(m: Seq<M>, ls: Seq<Seq<M>>, i: nat) -> Seq<Seq<M>>
    decreases i,
{
    if i == 0 {
        seq![]
    } else {
        element_variants(m, ls, (i - 1) as nat) + ls[i - 1].map_values(
            |s: M| m.update(i - 1, s),
        )
    }
}

/// Appends an empty vector to `candidates`.
pub(crate) fn push_empty<T: Shrinkable>(candidates: &mut Vec<Vec<T>>)
    ensures
        vec_models(final(candidates)@) == vec_models(old(candidates)@).push(Seq::<T::Model>::empty()),
{
    let e: Vec<T> = Vec::new();
    proof {
        lemma_vec_models_push(candidates@, e);
        assert(models(e@) =~= Seq::<T::Model>::empty());
    }
    candidates.push(e);
}

/// Appends each copy of `v` with one element removed to `candidates`.
pub(crate) fn push_single_removals<T: Shrinkable>(candidates: &mut Vec<Vec<T>>, v: &[T])
    ensures
        vec_models(final(candidates)@) == vec_models(old(candidates)@) + single_removals(models(v@)),
{
    let n = v.len();
    let ghost m = models(v@);
    let ghost start = vec_models(candidates@);
    let mut i: usize = 0;
    while i < n
        invariant
            n == v@.len(),
            m == models(v@),
            i <= n,
            vec_models(candidates@) == start + Seq::new(i as nat, |k: int| m.remove(k)),
        decreases n - i,
    {
        let d = duplicate_except(v, i);
        proof {
            lemma_vec_models_push(candidates@, d);
        }
        candidates.push(d);
        assert(vec_models(candidates@) =~= start + Seq::new((i + 1) as nat, |k: int| m.remove(k)));
        i = i + 1;
    }
    assert(Seq::new(n as nat, |k: int| m.remove(k)) =~= single_removals(m));
}

/// Appends the two halves of `v` to `candidates`, when it has more than two elements.
pub(crate) fn push_halves<T: Shrinkable>(candidates: &mut Vec<Vec<T>>, v: &[T])
    ensures
        vec_models(final(candidates)@) == vec_models(old(candidates)@) + halves(models(v@)),
{
    let n = v.len();
    let ghost m = models(v@);
    let ghost start = vec_models(candidates@);
    if n > 2 {
        let a = duplicate_range(v, 0, n / 2);
        let b = duplicate_range(v, n / 2, n);
        proof {
            lemma_vec_models_push(candidates@, a);
            lemma_vec_models_push(candidates@.push(a), b);
        }
        candidates.push(a);
        candidates.push(b);
    }
    assert(vec_models(candidates@) =~= start + halves(m));
}

/// Appends the removal candidates of `v` to `candidates`.
pub(crate) fn push_removals<T: Shrinkable>(candidates: &mut Vec<Vec<T>>, v: &[T])
    ensures
        vec_models(final(candidates)@) == vec_models(old(candidates)@) + removal_candidates(
            models(v@),
        ),
{
    let ghost start = vec_models(candidates@);
    let ghost m = models(v@);
    if v.len() > 0 {
        push_empty(candidates);
    }
    push_single_removals(candidates, v);
    push_halves(candidates, v);
    assert(vec_models(candidates@) =~= start + removal_candidates(m));
}

/// Appends, position by position, copies of `v` with that element replaced by each of
/// its candidates; gives back the candidate lists of the elements.
pub(crate) fn push_element_variants<T: Shrinkable>(candidates: &mut Vec<Vec<T>>, v: &[T]) -> (ls:
    Ghost<Seq<Seq<T::Model>>>)
    ensures
        each_shrinks_to::<T>(models(v@), ls@),
        vec_models(final(candidates)@) == vec_models(old(candidates)@) + element_variants(
            models(v@),
            ls@,
            v@.len(),
        ),
{
    let n = v.len();
    let ghost m = models(v@);
    let ghost start = vec_models(candidates@);
    let ghost mut ls: Seq<Seq<T::Model>> = seq![];
    let mut i: usize = 0;
    while i < n
        invariant
            n == v@.len(),
            m == models(v@),
            i <= n,
            ls.len() == i,
            forall|k: int| 0 <= k < i ==> #[trigger] T::shrinks_to(m[k], ls[k]),
            vec_models(candidates@) == start + element_variants(m, ls, i as nat),
        decreases n - i,
    {
        let shrunk = v[i].shrink();
        let ghost l = shrunk@.map_values(|x: T| x.model());
        let ghost base = vec_models(candidates@);
        let mut j: usize = 0;
        while j < shrunk.len()
            invariant
                n == v@.len(),
                m == models(v@),
                i < n,
                l == shrunk@.map_values(|x: T| x.model()),
                j <= shrunk@.len(),
                vec_models(candidates@) == base + l.take(j as int).map_values(
                    |s: T::Model| m.update(i as int, s),
                ),
            decreases shrunk@.len() - j,
        {
            let x = shrunk[j].duplicate();
            let c = replace_at(v, i, x);
            proof {
                lemma_vec_models_push(candidates@, c);
                assert(l.take(j + 1).map_values(|s: T::Model| m.update(i as int, s)) =~= l.take(
                    j as int,
                ).map_values(|s: T::Model| m.update(i as int, s)).push(m.update(i as int, l[j as int])));
            }
            candidates.push(c);
            j = j + 1;
        }
        proof {
            assert(l.take(j as int) =~= l);
            lemma_element_variants_prefix(m, ls, ls.push(l), i as nat);
            ls = ls.push(l);
        }
        i = i + 1;
    }
    Ghost(ls)
}

} // verus!

verus! {

/// Whether each element model `m[i]` shrinks to the candidates `ls[i]`.
pub open spec fn each_shrinks_to<T: Shrinkable>(m: Seq<T::Model>, ls: Seq<Seq<T::Model>>) -> bool {
    &&& ls.len() == m.len()
    &&& forall|i: int| 0 <= i < m.len() ==> #[trigger] T::shrinks_to(m[i], ls[i])
}

/// The candidates of a vector: removals first, then each element replaced by its candidates.
pub open spec fn vec_candidates<M>(m: Seq<M>, ls: Seq<Seq<M>>) -> Seq<Seq<M>> {
    removal_candidates(m) + element_variants(m, ls, m.len())
}

/// Element variants keep the length of the sequence.
proof fn lemma_element_variants_length<M>(m: Seq<M>, ls: Seq<Seq<M>>, i: nat)
    requires
        i <= m.len(),
    ensures
        forall|k: int|
            0 <= k < element_variants(m, ls, i).len() ==> (#[trigger] element_variants(
                m,
                ls,
                i,
            )[k]).len() == m.len(),
    decreases i,
{
    if i > 0 {
        lemma_element_variants_length(m, ls, (i - 1) as nat);
        let prev = element_variants(m, ls, (i - 1) as nat);
        let tail = ls[i - 1].map_values(|s: M| m.update(i - 1, s));
        assert forall|k: int|
            0 <= k < element_variants(m, ls, i).len() implies (#[trigger] element_variants(
            m,
            ls,
            i,
        )[k]).len() == m.len() by {
            if k < prev.len() {
                assert(element_variants(m, ls, i)[k] == prev[k]);
            } else {
                assert(element_variants(m, ls, i)[k] == tail[k - prev.len()]);
                assert(tail[k - prev.len()] == m.update(i - 1, ls[i - 1][k - prev.len()]));
            }
        }
    }
}

/// Shrinking a vector never lengthens it: the removal candidates are strictly shorter,
/// and the element variants keep its length.
pub proof fn lemma_vec_candidates_not_longer<M>(m: Seq<M>, ls: Seq<Seq<M>>)
    ensures
        forall|k: int|
            0 <= k < removal_candidates(m).len() ==> (#[trigger] removal_candidates(m)[k]).len()
                < m.len(),
        forall|k: int|
            0 <= k < vec_candidates(m, ls).len() ==> (#[trigger] vec_candidates(m, ls)[k]).len()
                <= m.len(),
{
    let empty: Seq<Seq<M>> = if m.len() > 0 {
        seq![Seq::<M>::empty()]
    } else {
        seq![]
    };
    let rc = removal_candidates(m);
    assert(rc == empty + single_removals(m) + halves(m));
    assert forall|k: int| 0 <= k < rc.len() implies (#[trigger] rc[k]).len() < m.len() by {
        if k < empty.len() {
        } else if k < empty.len() + m.len() {
            assert(rc[k] == single_removals(m)[k - empty.len()]);
        } else {
            let j = k - empty.len() - m.len();
            assert(rc[k] == halves(m)[j]);
        }
    }
    lemma_element_variants_length(m, ls, m.len());
    let vc = vec_candidates(m, ls);
    assert forall|k: int| 0 <= k < vc.len() implies (#[trigger] vc[k]).len() <= m.len() by {
        if k < rc.len() {
            assert(vc[k] == rc[k]);
        } else {
            assert(vc[k] == element_variants(m, ls, m.len())[k - rc.len()]);
        }
    }
}

/// `element_variants` only reads the candidate lists below `i`.
pub proof fn lemma_element_variants_prefix<M>(m: Seq<M>, a: Seq<Seq<M>>, b: Seq<Seq<M>>, i: nat)
    requires
        i <= a.len(),
        i <= b.len(),
        forall|k: int| 0 <= k < i ==> a[k] == b[k],
    ensures
        element_variants(m, a, i) == element_variants(m, b, i),
    decreases i,
{
    if i > 0 {
        lemma_element_variants_prefix(m, a, b, (i - 1) as nat);
    }
}

/// A copy of `v` whose element at `i` is replaced by `x`.
pub fn replace_at<T: Shrinkable>(v: &[T], i: usize, x: T) -> (r: Vec<T>)
    requires
        i < v@.len(),
    ensures
        models(r@) == models(v@).update(i as int, x.model()),
{
    let mut out = duplicate_range(v, 0, v.len());
    let ghost before = out@;
    assert(out@.len() == models(out@).len());
    out.set(i, x);
    assert(models(out@) =~= models(before).update(i as int, x.model()));
    out
}

impl<T: Shrinkable> Shrinkable for Vec<T> {
    type Model = Seq<T::Model>;

    open spec fn model(&self) -> Seq<T::Model> {
        models(self@)
    }

    open spec fn shrinks_to(m: Seq<T::Model>, candidates: Seq<Seq<T::Model>>) -> bool {
        exists|ls: Seq<Seq<T::Model>>|
            each_shrinks_to::<T>(m, ls) && candidates == #[trigger] vec_candidates(m, ls)
    }

    fn shrink(&self) -> (r: Vec<Vec<T>>) {
        let mut candidates: Vec<Vec<T>> = Vec::new();
        assert(vec_models(candidates@) =~= Seq::<Seq<T::Model>>::empty());
        push_removals(&mut candidates, self.as_slice());
        let ls = push_element_variants(&mut candidates, self.as_slice());
        proof {
            assert(vec_models(candidates@) == vec_candidates(models(self@), ls@));
        }
        assert(candidates@.map_values(|x: Vec<T>| x.model()) =~= vec_models(candidates@));
        candidates
    }

    fn duplicate(&self) -> (r: Vec<T>) {
        let r = duplicate_range(self.as_slice(), 0, self.len());
        assert(models(self@).subrange(0, self@.len() as int) =~= models(self@));
        r
    }
}

} // verus!

verus! {

/// The candidates of a 2-tuple: each component in turn replaced by its candidates.
pub open spec fn tuple2_candidates<A: Shrinkable, B: Shrinkable>(m: (A::Model, B::Model), l0: Seq<A::Model>, l1: Seq<B::Model>) -> Seq<(A::Model, B::Model)> {
    l0.map_values(|x: A::Model| (x, m.1)) + 
    l1.map_values(|x: B::Model| (m.0, x))
}

impl<A: Shrinkable, B: Shrinkable> Shrinkable for (A, B) {
    type Model = (A::Model, B::Model);

    open spec fn model(&self) -> (A::Model, B::Model) {
        (self.0.model(), self.1.model())
    }

    open spec fn shrinks_to(m: (A::Model, B::Model), candidates: Seq<(A::Model, B::Model)>) -> bool {
        exists|l0: Seq<A::Model>, l1: Seq<B::Model>|
            A::shrinks_to(m.0, l0) && B::shrinks_to(m.1, l1) && candidates == #[trigger] tuple2_candidates::<A, B>(m, l0, l1)
    }

    fn shrink(&self) -> (r: Vec<(A, B)>) {
        let mut candidates: Vec<(A, B)> = Vec::new();
        let ghost m = self.model();
        let s0 = self.0.shrink();
        let ghost l0 = s0@.map_values(|x: A| x.model());
        let ghost base0 = candidates@.map_values(|t: (A, B)| (t.0.model(), t.1.model()));
        let mut j: usize = 0;
        while j < s0.len()
            invariant
                m == self.model(),
                l0 == s0@.map_values(|x: A| x.model()),
                j <= s0@.len(),
                candidates@.map_values(|t: (A, B)| (t.0.model(), t.1.model())) == base0 + l0.take(j as int).map_values(
                    |x: A::Model| (x, m.1),
                ),
            decreases s0@.len() - j,
        {
            let x = s0[j].duplicate();
            let t = (x, self.1.duplicate());
            let ghost prev = candidates@;
            candidates.push(t);
            assert(candidates@.map_values(|t: (A, B)| (t.0.model(), t.1.model())) =~= prev.map_values(|t: (A, B)| (t.0.model(), t.1.model())).push(
                (l0[j as int], m.1),
            ));
            assert(l0.take(j + 1).map_values(|x: A::Model| (x, m.1)) =~= l0.take(
                j as int,
            ).map_values(|x: A::Model| (x, m.1)).push((l0[j as int], m.1)));
            j = j + 1;
        }
        assert(l0.take(j as int) =~= l0);
        let s1 = self.1.shrink();
        let ghost l1 = s1@.map_values(|x: B| x.model());
        let ghost base1 = candidates@.map_values(|t: (A, B)| (t.0.model(), t.1.model()));
        let mut j: usize = 0;
        while j < s1.len()
            invariant
                m == self.model(),
                l1 == s1@.map_values(|x: B| x.model()),
                j <= s1@.len(),
                candidates@.map_values(|t: (A, B)| (t.0.model(), t.1.model())) == base1 + l1.take(j as int).map_values(
                    |x: B::Model| (m.0, x),
                ),
            decreases s1@.len() - j,
        {
            let x = s1[j].duplicate();
            let t = (self.0.duplicate(), x);
            let ghost prev = candidates@;
            candidates.push(t);
            assert(candidates@.map_values(|t: (A, B)| (t.0.model(), t.1.model())) =~= prev.map_values(|t: (A, B)| (t.0.model(), t.1.model())).push(
                (m.0, l1[j as int]),
            ));
            assert(l1.take(j + 1).map_values(|x: B::Model| (m.0, x)) =~= l1.take(
                j as int,
            ).map_values(|x: B::Model| (m.0, x)).push((m.0, l1[j as int])));
            j = j + 1;
        }
        assert(l1.take(j as int) =~= l1);
        assert(base0 =~= Seq::<(A::Model, B::Model)>::empty());
        assert(candidates@.map_values(|t: (A, B)| (t.0.model(), t.1.model())) =~= tuple2_candidates::<A, B>(m, l0, l1));
        assert(candidates@.map_values(|t: (A, B)| t.model()) =~= candidates@.map_values(|t: (A, B)| (t.0.model(), t.1.model())));
        candidates
    }

    fn duplicate(&self) -> (r: (A, B)) {
        (self.0.duplicate(), self.1.duplicate())
    }
}

/// The candidates of a 3-tuple: each component in turn replaced by its candidates.
pub open spec fn tuple3_candidates<A: Shrinkable, B: Shrinkable, C: Shrinkable>(m: (A::Model, B::Model, C::Model), l0: Seq<A::Model>, l1: Seq<B::Model>, l2: Seq<C::Model>) -> Seq<(A::Model, B::Model, C::Model)> {
    l0.map_values(|x: A::Model| (x, m.1, m.2)) + 
    l1.map_values(|x: B::Model| (m.0, x, m.2)) + 
    l2.map_values(|x: C::Model| (m.0, m.1, x))
}

impl<A: Shrinkable, B: Shrinkable, C: Shrinkable> Shrinkable for (A, B, C) {
    type Model = (A::Model, B::Model, C::Model);

    open spec fn model(&self) -> (A::Model, B::Model, C::Model) {
        (self.0.model(), self.1.model(), self.2.model())
    }

    open spec fn shrinks_to(m: (A::Model, B::Model, C::Model), candidates: Seq<(A::Model, B::Model, C::Model)>) -> bool {
        exists|l0: Seq<A::Model>, l1: Seq<B::Model>, l2: Seq<C::Model>|
            A::shrinks_to(m.0, l0) && B::shrinks_to(m.1, l1) && C::shrinks_to(m.2, l2) && candidates == #[trigger] tuple3_candidates::<A, B, C>(m, l0, l1, l2)
    }

    fn shrink(&self) -> (r: Vec<(A, B, C)>) {
        let mut candidates: Vec<(A, B, C)> = Vec::new();
        let ghost m = self.model();
        let s0 = self.0.shrink();
        let ghost l0 = s0@.map_values(|x: A| x.model());
        let ghost base0 = candidates@.map_values(|t: (A, B, C)| (t.0.model(), t.1.model(), t.2.model()));
        let mut j: usize = 0;
        while j < s0.len()
            invariant
                m == self.model(),
                l0 == s0@.map_values(|x: A| x.model()),
                j <= s0@.len(),
                candidates@.map_values(|t: (A, B, C)| (t.0.model(), t.1.model(), t.2.model())) == base0 + l0.take(j as int).map_values(
                    |x: A::Model| (x, m.1, m.2),
                ),
            decreases s0@.len() - j,
        {
            let x = s0[j].duplicate();
            let t = (x, self.1.duplicate(), self.2.duplicate());
            let ghost prev = candidates@;
            candidates.push(t);
            assert(candidates@.map_values(|t: (A, B, C)| (t.0.model(), t.1.model(), t.2.model())) =~= prev.map_values(|t: (A, B, C)| (t.0.model(), t.1.model(), t.2.model())).push(
                (l0[j as int], m.1, m.2),
            ));
            assert(l0.take(j + 1).map_values(|x: A::Model| (x, m.1, m.2)) =~= l0.take(
                j as int,
            ).map_values(|x: A::Model| (x, m.1, m.2)).push((l0[j as int], m.1, m.2)));
            j = j + 1;
        }
        assert(l0.take(j as int) =~= l0);
        let s1 = self.1.shrink();
        let ghost l1 = s1@.map_values(|x: B| x.model());
        let ghost base1 = candidates@.map_values(|t: (A, B, C)| (t.0.model(), t.1.model(), t.2.model()));
        let mut j: usize = 0;
        while j < s1.len()
            invariant
                m == self.model(),
                l1 == s1@.map_values(|x: B| x.model()),
                j <= s1@.len(),
                candidates@.map_values(|t: (A, B, C)| (t.0.model(), t.1.model(), t.2.model())) == base1 + l1.take(j as int).map_values(
                    |x: B::Model| (m.0, x, m.2),
                ),
            decreases s1@.len() - j,
        {
            let x = s1[j].duplicate();
            let t = (self.0.duplicate(), x, self.2.duplicate());
            let ghost prev = candidates@;
            candidates.push(t);
            assert(candidates@.map_values(|t: (A, B, C)| (t.0.model(), t.1.model(), t.2.model())) =~= prev.map_values(|t: (A, B, C)| (t.0.model(), t.1.model(), t.2.model())).push(
                (m.0, l1[j as int], m.2),
            ));
            assert(l1.take(j + 1).map_values(|x: B::Model| (m.0, x, m.2)) =~= l1.take(
                j as int,
            ).map_values(|x: B::Model| (m.0, x, m.2)).push((m.0, l1[j as int], m.2)));
            j = j + 1;
        }
        assert(l1.take(j as int) =~= l1);
        let s2 = self.2.shrink();
        let ghost l2 = s2@.map_values(|x: C| x.model());
        let ghost base2 = candidates@.map_values(|t: (A, B, C)| (t.0.model(), t.1.model(), t.2.model()));
        let mut j: usize = 0;
        while j < s2.len()
            invariant
                m == self.model(),
                l2 == s2@.map_values(|x: C| x.model()),
                j <= s2@.len(),
                candidates@.map_values(|t: (A, B, C)| (t.0.model(), t.1.model(), t.2.model())) == base2 + l2.take(j as int).map_values(
                    |x: C::Model| (m.0, m.1, x),
                ),
            decreases s2@.len() - j,
        {
            let x = s2[j].duplicate();
            let t = (self.0.duplicate(), self.1.duplicate(), x);
            let ghost prev = candidates@;
            candidates.push(t);
            assert(candidates@.map_values(|t: (A, B, C)| (t.0.model(), t.1.model(), t.2.model())) =~= prev.map_values(|t: (A, B, C)| (t.0.model(), t.1.model(), t.2.model())).push(
                (m.0, m.1, l2[j as int]),
            ));
            assert(l2.take(j + 1).map_values(|x: C::Model| (m.0, m.1, x)) =~= l2.take(
                j as int,
            ).map_values(|x: C::Model| (m.0, m.1, x)).push((m.0, m.1, l2[j as int])));
            j = j + 1;
        }
        assert(l2.take(j as int) =~= l2);
        assert(base0 =~= Seq::<(A::Model, B::Model, C::Model)>::empty());
        assert(candidates@.map_values(|t: (A, B, C)| (t.0.model(), t.1.model(), t.2.model())) =~= tuple3_candidates::<A, B, C>(m, l0, l1, l2));
        assert(candidates@.map_values(|t: (A, B, C)| t.model()) =~= candidates@.map_values(|t: (A, B, C)| (t.0.model(), t.1.model(), t.2.model())));
        candidates
    }

    fn duplicate(&self) -> (r: (A, B, C)) {
        (self.0.duplicate(), self.1.duplicate(), self.2.duplicate())
    }
}

/// The candidates of a 4-tuple: each component in turn replaced by its candidates.
pub open spec fn tuple4_candidates<A: Shrinkable, B: Shrinkable, C: Shrinkable, D: Shrinkable>(m: (A::Model, B::Model, C::Model, D::Model), l0: Seq<A::Model>, l1: Seq<B::Model>, l2: Seq<C::Model>, l3: Seq<D::Model>) -> Seq<(A::Model, B::Model, C::Model, D::Model)> {
    l0.map_values(|x: A::Model| (x, m.1, m.2, m.3)) + 
    l1.map_values(|x: B::Model| (m.0, x, m.2, m.3)) + 
    l2.map_values(|x: C::Model| (m.0, m.1, x, m.3)) + 
    l3.map_values(|x: D::Model| (m.0, m.1, m.2, x))
}

impl<A: Shrinkable, B: Shrinkable, C: Shrinkable, D: Shrinkable> Shrinkable for (A, B, C, D) {
    type Model = (A::Model, B::Model, C::Model, D::Model);

    open spec fn model(&self) -> (A::Model, B::Model, C::Model, D::Model) {
        (self.0.model(), self.1.model(), self.2.model(), self.3.model())
    }

    open spec fn shrinks_to(m: (A::Model, B::Model, C::Model, D::Model), candidates: Seq<(A::Model, B::Model, C::Model, D::Model)>) -> bool {
        exists|l0: Seq<A::Model>, l1: Seq<B::Model>, l2: Seq<C::Model>, l3: Seq<D::Model>|
            A::shrinks_to(m.0, l0) && B::shrinks_to(m.1, l1) && C::shrinks_to(m.2, l2) && D::shrinks_to(m.3, l3) && candidates == #[trigger] tuple4_candidates::<A, B, C, D>(m, l0, l1, l2, l3)
    }

    fn shrink(&self) -> (r: Vec<(A, B, C, D)>) {
        let mut candidates: Vec<(A, B, C, D)> = Vec::new();
        let ghost m = self.model();
        let s0 = self.0.shrink();
        let ghost l0 = s0@.map_values(|x: A| x.model());
        let ghost base0 = candidates@.map_values(|t: (A, B, C, D)| (t.0.model(), t.1.model(), t.2.model(), t.3.model()));
        let mut j: usize = 0;
        while j < s0.len()
            invariant
                m == self.model(),
                l0 == s0@.map_values(|x: A| x.model()),
                j <= s0@.len(),
                candidates@.map_values(|t: (A, B, C, D)| (t.0.model(), t.1.model(), t.2.model(), t.3.model())) == base0 + l0.take(j as int).map_values(
                    |x: A::Model| (x, m.1, m.2, m.3),
                ),
            decreases s0@.len() - j,
        {
            let x = s0[j].duplicate();
            let t = (x, self.1.duplicate(), self.2.duplicate(), self.3.duplicate());
            let ghost prev = candidates@;
            candidates.push(t);
            assert(candidates@.map_values(|t: (A, B, C, D)| (t.0.model(), t.1.model(), t.2.model(), t.3.model())) =~= prev.map_values(|t: (A, B, C, D)| (t.0.model(), t.1.model(), t.2.model(), t.3.model())).push(
                (l0[j as int], m.1, m.2, m.3),
            ));
            assert(l0.take(j + 1).map_values(|x: A::Model| (x, m.1, m.2, m.3)) =~= l0.take(
                j as int,
            ).map_values(|x: A::Model| (x, m.1, m.2, m.3)).push((l0[j as int], m.1, m.2, m.3)));
            j = j + 1;
        }
        assert(l0.take(j as int) =~= l0);
        let s1 = self.1.shrink();
        let ghost l1 = s1@.map_values(|x: B| x.model());
        let ghost base1 = candidates@.map_values(|t: (A, B, C, D)| (t.0.model(), t.1.model(), t.2.model(), t.3.model()));
        let mut j: usize = 0;
        while j < s1.len()
            invariant
                m == self.model(),
                l1 == s1@.map_values(|x: B| x.model()),
                j <= s1@.len(),
                candidates@.map_values(|t: (A, B, C, D)| (t.0.model(), t.1.model(), t.2.model(), t.3.model())) == base1 + l1.take(j as int).map_values(
                    |x: B::Model| (m.0, x, m.2, m.3),
                ),
            decreases s1@.len() - j,
        {
            let x = s1[j].duplicate();
            let t = (self.0.duplicate(), x, self.2.duplicate(), self.3.duplicate());
            let ghost prev = candidates@;
            candidates.push(t);
            assert(candidates@.map_values(|t: (A, B, C, D)| (t.0.model(), t.1.model(), t.2.model(), t.3.model())) =~= prev.map_values(|t: (A, B, C, D)| (t.0.model(), t.1.model(), t.2.model(), t.3.model())).push(
                (m.0, l1[j as int], m.2, m.3),
            ));
            assert(l1.take(j + 1).map_values(|x: B::Model| (m.0, x, m.2, m.3)) =~= l1.take(
                j as int,
            ).map_values(|x: B::Model| (m.0, x, m.2, m.3)).push((m.0, l1[j as int], m.2, m.3)));
            j = j + 1;
        }
        assert(l1.take(j as int) =~= l1);
        let s2 = self.2.shrink();
        let ghost l2 = s2@.map_values(|x: C| x.model());
        let ghost base2 = candidates@.map_values(|t: (A, B, C, D)| (t.0.model(), t.1.model(), t.2.model(), t.3.model()));
        let mut j: usize = 0;
        while j < s2.len()
            invariant
                m == self.model(),
                l2 == s2@.map_values(|x: C| x.model()),
                j <= s2@.len(),
                candidates@.map_values(|t: (A, B, C, D)| (t.0.model(), t.1.model(), t.2.model(), t.3.model())) == base2 + l2.take(j as int).map_values(
                    |x: C::Model| (m.0, m.1, x, m.3),
                ),
            decreases s2@.len() - j,
        {
            let x = s2[j].duplicate();
            let t = (self.0.duplicate(), self.1.duplicate(), x, self.3.duplicate());
            let ghost prev = candidates@;
            candidates.push(t);
            assert(candidates@.map_values(|t: (A, B, C, D)| (t.0.model(), t.1.model(), t.2.model(), t.3.model())) =~= prev.map_values(|t: (A, B, C, D)| (t.0.model(), t.1.model(), t.2.model(), t.3.model())).push(
                (m.0, m.1, l2[j as int], m.3),
            ));
            assert(l2.take(j + 1).map_values(|x: C::Model| (m.0, m.1, x, m.3)) =~= l2.take(
                j as int,
            ).map_values(|x: C::Model| (m.0, m.1, x, m.3)).push((m.0, m.1, l2[j as int], m.3)));
            j = j + 1;
        }
        assert(l2.take(j as int) =~= l2);
        let s3 = self.3.shrink();
        let ghost l3 = s3@.map_values(|x: D| x.model());
        let ghost base3 = candidates@.map_values(|t: (A, B, C, D)| (t.0.model(), t.1.model(), t.2.model(), t.3.model()));
        let mut j: usize = 0;
        while j < s3.len()
            invariant
                m == self.model(),
                l3 == s3@.map_values(|x: D| x.model()),
                j <= s3@.len(),
                candidates@.map_values(|t: (A, B, C, D)| (t.0.model(), t.1.model(), t.2.model(), t.3.model())) == base3 + l3.take(j as int).map_values(
                    |x: D::Model| (m.0, m.1, m.2, x),
                ),
            decreases s3@.len() - j,
        {
            let x = s3[j].duplicate();
            let t = (self.0.duplicate(), self.1.duplicate(), self.2.duplicate(), x);
            let ghost prev = candidates@;
            candidates.push(t);
            assert(candidates@.map_values(|t: (A, B, C, D)| (t.0.model(), t.1.model(), t.2.model(), t.3.model())) =~= prev.map_values(|t: (A, B, C, D)| (t.0.model(), t.1.model(), t.2.model(), t.3.model())).push(
                (m.0, m.1, m.2, l3[j as int]),
            ));
            assert(l3.take(j + 1).map_values(|x: D::Model| (m.0, m.1, m.2, x)) =~= l3.take(
                j as int,
            ).map_values(|x: D::Model| (m.0, m.1, m.2, x)).push((m.0, m.1, m.2, l3[j as int])));
            j = j + 1;
        }
        assert(l3.take(j as int) =~= l3);
        assert(base0 =~= Seq::<(A::Model, B::Model, C::Model, D::Model)>::empty());
        assert(candidates@.map_values(|t: (A, B, C, D)| (t.0.model(), t.1.model(), t.2.model(), t.3.model())) =~= tuple4_candidates::<A, B, C, D>(m, l0, l1, l2, l3));
        assert(candidates@.map_values(|t: (A, B, C, D)| t.model()) =~= candidates@.map_values(|t: (A, B, C, D)| (t.0.model(), t.1.model(), t.2.model(), t.3.model())));
        candidates
    }

    fn duplicate(&self) -> (r: (A, B, C, D)) {
        (self.0.duplicate(), self.1.duplicate(), self.2.duplicate(), self.3.duplicate())
    }
}

/// The candidates of a 5-tuple: each component in turn replaced by its candidates.
pub open spec fn tuple5_candidates<A: Shrinkable, B: Shrinkable, C: Shrinkable, D: Shrinkable, E: Shrinkable>(m: (A::Model, B::Model, C::Model, D::Model, E::Model), l0: Seq<A::Model>, l1: Seq<B::Model>, l2: Seq<C::Model>, l3: Seq<D::Model>, l4: Seq<E::Model>) -> Seq<(A::Model, B::Model, C::Model, D::Model, E::Model)> {
    l0.map_values(|x: A::Model| (x, m.1, m.2, m.3, m.4)) + 
    l1.map_values(|x: B::Model| (m.0, x, m.2, m.3, m.4)) + 
    l2.map_values(|x: C::Model| (m.0, m.1, x, m.3, m.4)) + 
    l3.map_values(|x: D::Model| (m.0, m.1, m.2, x, m.4)) + 
    l4.map_values(|x: E::Model| (m.0, m.1, m.2, m.3, x))
}

impl<A: Shrinkable, B: Shrinkable, C: Shrinkable, D: Shrinkable, E: Shrinkable> Shrinkable for (A, B, C, D, E) {
    type Model = (A::Model, B::Model, C::Model, D::Model, E::Model);

    open spec fn model(&self) -> (A::Model, B::Model, C::Model, D::Model, E::Model) {
        (self.0.model(), self.1.model(), self.2.model(), self.3.model(), self.4.model())
    }

    open spec fn shrinks_to(m: (A::Model, B::Model, C::Model, D::Model, E::Model), candidates: Seq<(A::Model, B::Model, C::Model, D::Model, E::Model)>) -> bool {
        exists|l0: Seq<A::Model>, l1: Seq<B::Model>, l2: Seq<C::Model>, l3: Seq<D::Model>, l4: Seq<E::Model>|
            A::shrinks_to(m.0, l0) && B::shrinks_to(m.1, l1) && C::shrinks_to(m.2, l2) && D::shrinks_to(m.3, l3) && E::shrinks_to(m.4, l4) && candidates == #[trigger] tuple5_candidates::<A, B, C, D, E>(m, l0, l1, l2, l3, l4)
    }

    fn shrink(&self) -> (r: Vec<(A, B, C, D, E)>) {
        let mut candidates: Vec<(A, B, C, D, E)> = Vec::new();
        let ghost m = self.model();
        let s0 = self.0.shrink();
        let ghost l0 = s0@.map_values(|x: A| x.model());
        let ghost base0 = candidates@.map_values(|t: (A, B, C, D, E)| (t.0.model(), t.1.model(), t.2.model(), t.3.model(), t.4.model()));
        let mut j: usize = 0;
        while j < s0.len()
            invariant
                m == self.model(),
                l0 == s0@.map_values(|x: A| x.model()),
                j <= s0@.len(),
                candidates@.map_values(|t: (A, B, C, D, E)| (t.0.model(), t.1.model(), t.2.model(), t.3.model(), t.4.model())) == base0 + l0.take(j as int).map_values(
                    |x: A::Model| (x, m.1, m.2, m.3, m.4),
                ),
            decreases s0@.len() - j,
        {
            let x = s0[j].duplicate();
            let t = (x, self.1.duplicate(), self.2.duplicate(), self.3.duplicate(), self.4.duplicate());
            let ghost prev = candidates@;
            candidates.push(t);
            assert(candidates@.map_values(|t: (A, B, C, D, E)| (t.0.model(), t.1.model(), t.2.model(), t.3.model(), t.4.model())) =~= prev.map_values(|t: (A, B, C, D, E)| (t.0.model(), t.1.model(), t.2.model(), t.3.model(), t.4.model())).push(
                (l0[j as int], m.1, m.2, m.3, m.4),
            ));
            assert(l0.take(j + 1).map_values(|x: A::Model| (x, m.1, m.2, m.3, m.4)) =~= l0.take(
                j as int,
            ).map_values(|x: A::Model| (x, m.1, m.2, m.3, m.4)).push((l0[j as int], m.1, m.2, m.3, m.4)));
            j = j + 1;
        }
        assert(l0.take(j as int) =~= l0);
        let s1 = self.1.shrink();
        let ghost l1 = s1@.map_values(|x: B| x.model());
        let ghost base1 = candidates@.map_values(|t: (A, B, C, D, E)| (t.0.model(), t.1.model(), t.2.model(), t.3.model(), t.4.model()));
        let mut j: usize = 0;
        while j < s1.len()
            invariant
                m == self.model(),
                l1 == s1@.map_values(|x: B| x.model()),
                j <= s1@.len(),
                candidates@.map_values(|t: (A, B, C, D, E)| (t.0.model(), t.1.model(), t.2.model(), t.3.model(), t.4.model())) == base1 + l1.take(j as int).map_values(
                    |x: B::Model| (m.0, x, m.2, m.3, m.4),
                ),
            decreases s1@.len() - j,
        {
            let x = s1[j].duplicate();
            let t = (self.0.duplicate(), x, self.2.duplicate(), self.3.duplicate(), self.4.duplicate());
            let ghost prev = candidates@;
            candidates.push(t);
            assert(candidates@.map_values(|t: (A, B, C, D, E)| (t.0.model(), t.1.model(), t.2.model(), t.3.model(), t.4.model())) =~= prev.map_values(|t: (A, B, C, D, E)| (t.0.model(), t.1.model(), t.2.model(), t.3.model(), t.4.model())).push(
                (m.0, l1[j as int], m.2, m.3, m.4),
            ));
            assert(l1.take(j + 1).map_values(|x: B::Model| (m.0, x, m.2, m.3, m.4)) =~= l1.take(
                j as int,
            ).map_values(|x: B::Model| (m.0, x, m.2, m.3, m.4)).push((m.0, l1[j as int], m.2, m.3, m.4)));
            j = j + 1;
        }
        assert(l1.take(j as int) =~= l1);
        let s2 = self.2.shrink();
        let ghost l2 = s2@.map_values(|x: C| x.model());
        let ghost base2 = candidates@.map_values(|t: (A, B, C, D, E)| (t.0.model(), t.1.model(), t.2.model(), t.3.model(), t.4.model()));
        let mut j: usize = 0;
        while j < s2.len()
            invariant
                m == self.model(),
                l2 == s2@.map_values(|x: C| x.model()),
                j <= s2@.len(),
                candidates@.map_values(|t: (A, B, C, D, E)| (t.0.model(), t.1.model(), t.2.model(), t.3.model(), t.4.model())) == base2 + l2.take(j as int).map_values(
                    |x: C::Model| (m.0, m.1, x, m.3, m.4),
                ),
            decreases s2@.len() - j,
        {
            let x = s2[j].duplicate();
            let t = (self.0.duplicate(), self.1.duplicate(), x, self.3.duplicate(), self.4.duplicate());
            let ghost prev = candidates@;
            candidates.push(t);
            assert(candidates@.map_values(|t: (A, B, C, D, E)| (t.0.model(), t.1.model(), t.2.model(), t.3.model(), t.4.model())) =~= prev.map_values(|t: (A, B, C, D, E)| (t.0.model(), t.1.model(), t.2.model(), t.3.model(), t.4.model())).push(
                (m.0, m.1, l2[j as int], m.3, m.4),
            ));
            assert(l2.take(j + 1).map_values(|x: C::Model| (m.0, m.1, x, m.3, m.4)) =~= l2.take(
                j as int,
            ).map_values(|x: C::Model| (m.0, m.1, x, m.3, m.4)).push((m.0, m.1, l2[j as int], m.3, m.4)));
            j = j + 1;
        }
        assert(l2.take(j as int) =~= l2);
        let s3 = self.3.shrink();
        let ghost l3 = s3@.map_values(|x: D| x.model());
        let ghost base3 = candidates@.map_values(|t: (A, B, C, D, E)| (t.0.model(), t.1.model(), t.2.model(), t.3.model(), t.4.model()));
        let mut j: usize = 0;
        while j < s3.len()
            invariant
                m == self.model(),
                l3 == s3@.map_values(|x: D| x.model()),
                j <= s3@.len(),
                candidates@.map_values(|t: (A, B, C, D, E)| (t.0.model(), t.1.model(), t.2.model(), t.3.model(), t.4.model())) == base3 + l3.take(j as int).map_values(
                    |x: D::Model| (m.0, m.1, m.2, x, m.4),
                ),
            decreases s3@.len() - j,
        {
            let x = s3[j].duplicate();
            let t = (self.0.duplicate(), self.1.duplicate(), self.2.duplicate(), x, self.4.duplicate());
            let ghost prev = candidates@;
            candidates.push(t);
            assert(candidates@.map_values(|t: (A, B, C, D, E)| (t.0.model(), t.1.model(), t.2.model(), t.3.model(), t.4.model())) =~= prev.map_values(|t: (A, B, C, D, E)| (t.0.model(), t.1.model(), t.2.model(), t.3.model(), t.4.model())).push(
                (m.0, m.1, m.2, l3[j as int], m.4),
            ));
            assert(l3.take(j + 1).map_values(|x: D::Model| (m.0, m.1, m.2, x, m.4)) =~= l3.take(
                j as int,
            ).map_values(|x: D::Model| (m.0, m.1, m.2, x, m.4)).push((m.0, m.1, m.2, l3[j as int], m.4)));
            j = j + 1;
        }
        assert(l3.take(j as int) =~= l3);
        let s4 = self.4.shrink();
        let ghost l4 = s4@.map_values(|x: E| x.model());
        let ghost base4 = candidates@.map_values(|t: (A, B, C, D, E)| (t.0.model(), t.1.model(), t.2.model(), t.3.model(), t.4.model()));
        let mut j: usize = 0;
        while j < s4.len()
            invariant
                m == self.model(),
                l4 == s4@.map_values(|x: E| x.model()),
                j <= s4@.len(),
                candidates@.map_values(|t: (A, B, C, D, E)| (t.0.model(), t.1.model(), t.2.model(), t.3.model(), t.4.model())) == base4 + l4.take(j as int).map_values(
                    |x: E::Model| (m.0, m.1, m.2, m.3, x),
                ),
            decreases s4@.len() - j,
        {
            let x = s4[j].duplicate();
            let t = (self.0.duplicate(), self.1.duplicate(), self.2.duplicate(), self.3.duplicate(), x);
            let ghost prev = candidates@;
            candidates.push(t);
            assert(candidates@.map_values(|t: (A, B, C, D, E)| (t.0.model(), t.1.model(), t.2.model(), t.3.model(), t.4.model())) =~= prev.map_values(|t: (A, B, C, D, E)| (t.0.model(), t.1.model(), t.2.model(), t.3.model(), t.4.model())).push(
                (m.0, m.1, m.2, m.3, l4[j as int]),
            ));
            assert(l4.take(j + 1).map_values(|x: E::Model| (m.0, m.1, m.2, m.3, x)) =~= l4.take(
                j as int,
            ).map_values(|x: E::Model| (m.0, m.1, m.2, m.3, x)).push((m.0, m.1, m.2, m.3, l4[j as int])));
            j = j + 1;
        }
        assert(l4.take(j as int) =~= l4);
        assert(base0 =~= Seq::<(A::Model, B::Model, C::Model, D::Model, E::Model)>::empty());
        assert(candidates@.map_values(|t: (A, B, C, D, E)| (t.0.model(), t.1.model(), t.2.model(), t.3.model(), t.4.model())) =~= tuple5_candidates::<A, B, C, D, E>(m, l0, l1, l2, l3, l4));
        assert(candidates@.map_values(|t: (A, B, C, D, E)| t.model()) =~= candidates@.map_values(|t: (A, B, C, D, E)| (t.0.model(), t.1.model(), t.2.model(), t.3.model(), t.4.model())));
        candidates
    }

    fn duplicate(&self) -> (r: (A, B, C, D, E)) {
        (self.0.duplicate(), self.1.duplicate(), self.2.duplicate(), self.3.duplicate(), self.4.duplicate())
    }
}

} // verus!

verus! {

/// The candidates of `Some(v)`: `None` first, then `Some` of each candidate of `v`.
pub open spec fn option_candidates<M>(l: Seq<M>) -> Seq<Option<M>> {
    seq![None] + l.map_values(|x: M| Some(x))
}

impl<T: Shrinkable> Shrinkable for Option<T> {
    type Model = Option<T::Model>;

    open spec fn model(&self) -> Option<T::Model> {
        match self {
            Some(v) => Some(v.model()),
            None => None,
        }
    }

    open spec fn shrinks_to(m: Option<T::Model>, candidates: Seq<Option<T::Model>>) -> bool {
        match m {
            None => candidates.len() == 0,
            Some(v) => exists|l: Seq<T::Model>|
                T::shrinks_to(v, l) && candidates == #[trigger] option_candidates(l),
        }
    }

    fn shrink(&self) -> (r: Vec<Option<T>>) {
        let mut candidates: Vec<Option<T>> = Vec::new();
        match self {
            None => {},
            Some(v) => {
                candidates.push(None);
                let s = v.shrink();
                let ghost l = s@.map_values(|x: T| x.model());
                let mut j: usize = 0;
                while j < s.len()
                    invariant
                        l == s@.map_values(|x: T| x.model()),
                        j <= s@.len(),
                        candidates@.map_values(|o: Option<T>| o.model()) == seq![None] + l.take(
                            j as int,
                        ).map_values(|x: T::Model| Some(x)),
                    decreases s@.len() - j,
                {
                    let x = s[j].duplicate();
                    let ghost prev = candidates@;
                    candidates.push(Some(x));
                    assert(candidates@.map_values(|o: Option<T>| o.model()) =~= prev.map_values(
                        |o: Option<T>| o.model(),
                    ).push(Some(l[j as int])));
                    assert(l.take(j + 1).map_values(|x: T::Model| Some(x)) =~= l.take(
                        j as int,
                    ).map_values(|x: T::Model| Some(x)).push(Some(l[j as int])));
                    j = j + 1;
                }
                assert(l.take(j as int) =~= l);
                assert(candidates@.map_values(|o: Option<T>| o.model()) =~= option_candidates(l));
            },
        }
        candidates
    }

    fn duplicate(&self) -> (r: Option<T>) {
        match self {
            Some(v) => Some(v.duplicate()),
            None => None,
        }
    }
}

/// The candidates of `Ok(v)`: `Ok` of each candidate of `v`.
pub open spec fn ok_candidates<M, N>(l: Seq<M>) -> Seq<Result<M, N>> {
    l.map_values(|x: M| Ok::<M, N>(x))
}

/// The candidates of `Err(e)`: `Err` of each candidate of `e`.
pub open spec fn err_candidates<M, N>(l: Seq<N>) -> Seq<Result<M, N>> {
    l.map_values(|x: N| Err::<M, N>(x))
}

impl<T: Shrinkable, E: Shrinkable> Shrinkable for Result<T, E> {
    type Model = Result<T::Model, E::Model>;

    open spec fn model(&self) -> Result<T::Model, E::Model> {
        match self {
            Ok(v) => Ok(v.model()),
            Err(e) => Err(e.model()),
        }
    }

    open spec fn shrinks_to(m: Result<T::Model, E::Model>, candidates: Seq<Result<T::Model, E::Model>>) -> bool {
        match m {
            Ok(v) => exists|l: Seq<T::Model>|
                T::shrinks_to(v, l) && candidates == #[trigger] ok_candidates::<T::Model, E::Model>(l),
            Err(e) => exists|l: Seq<E::Model>|
                E::shrinks_to(e, l) && candidates == #[trigger] err_candidates::<T::Model, E::Model>(l),
        }
    }

    fn shrink(&self) -> (r: Vec<Result<T, E>>) {
        let mut candidates: Vec<Result<T, E>> = Vec::new();
        match self {
            Ok(v) => {
                let s = v.shrink();
                let ghost l = s@.map_values(|x: T| x.model());
                let mut j: usize = 0;
                while j < s.len()
                    invariant
                        l == s@.map_values(|x: T| x.model()),
                        j <= s@.len(),
                        candidates@.map_values(|o: Result<T, E>| o.model()) == l.take(
                            j as int,
                        ).map_values(|x: T::Model| Ok::<T::Model, E::Model>(x)),
                    decreases s@.len() - j,
                {
                    let x = s[j].duplicate();
                    let ghost prev = candidates@;
                    candidates.push(Ok(x));
                    assert(candidates@.map_values(|o: Result<T, E>| o.model()) =~= prev.map_values(
                        |o: Result<T, E>| o.model(),
                    ).push(Ok(l[j as int])));
                    assert(l.take(j + 1).map_values(|x: T::Model| Ok::<T::Model, E::Model>(x))
                        =~= l.take(j as int).map_values(
                        |x: T::Model| Ok::<T::Model, E::Model>(x),
                    ).push(Ok(l[j as int])));
                    j = j + 1;
                }
                assert(l.take(j as int) =~= l);
                assert(candidates@.map_values(|o: Result<T, E>| o.model()) =~= ok_candidates::<
                    T::Model,
                    E::Model,
                >(l));
            },
            Err(e) => {
                let s = e.shrink();
                let ghost l = s@.map_values(|x: E| x.model());
                let mut j: usize = 0;
                while j < s.len()
                    invariant
                        l == s@.map_values(|x: E| x.model()),
                        j <= s@.len(),
                        candidates@.map_values(|o: Result<T, E>| o.model()) == l.take(
                            j as int,
                        ).map_values(|x: E::Model| Err::<T::Model, E::Model>(x)),
                    decreases s@.len() - j,
                {
                    let x = s[j].duplicate();
                    let ghost prev = candidates@;
                    candidates.push(Err(x));
                    assert(candidates@.map_values(|o: Result<T, E>| o.model()) =~= prev.map_values(
                        |o: Result<T, E>| o.model(),
                    ).push(Err(l[j as int])));
                    assert(l.take(j + 1).map_values(|x: E::Model| Err::<T::Model, E::Model>(x))
                        =~= l.take(j as int).map_values(
                        |x: E::Model| Err::<T::Model, E::Model>(x),
                    ).push(Err(l[j as int])));
                    j = j + 1;
                }
                assert(l.take(j as int) =~= l);
                assert(candidates@.map_values(|o: Result<T, E>| o.model()) =~= err_candidates::<
                    T::Model,
                    E::Model,
                >(l));
            },
        }
        candidates
    }

    fn duplicate(&self) -> (r: Result<T, E>) {
        match self {
            Ok(v) => Ok(v.duplicate()),
            Err(e) => Err(e.duplicate()),
        }
    }
}

} // verus!

verus! {

/// Result of a shrinking operation.
#[derive(Debug, Clone)]
pub struct ShrinkResult<T> {
    /// Original value that failed.
    pub original: T,
    /// Minimal value that still fails.
    pub minimal: T,
    /// Number of shrinking steps taken.
    pub shrink_steps: usize,
    /// Time spent shrinking.
    pub shrink_duration: Duration,
    /// Whether shrinking was completed or timed out.
    pub completed: bool,
}

impl<T> ShrinkResult<T> {
    /// Creates a shrink result from its parts.
    pub fn new(
        original: T,
        minimal: T,
        shrink_steps: usize,
        shrink_duration: Duration,
        completed: bool,
    ) -> (r: Self)
        ensures
            r.original == original,
            r.minimal == minimal,
            r.shrink_steps == shrink_steps,
            r.shrink_duration == shrink_duration,
            r.completed == completed,
    {
        ShrinkResult { original, minimal, shrink_steps, shrink_duration, completed }
    }

    /// A shrink result for when no shrinking was performed: the minimal value is a copy
    /// of the original, with no steps, no time spent, and completed.
    pub fn no_shrinking(original: T) -> (r: Self) where T: Shrinkable
        ensures
            r.original == original,
            r.minimal.model() == original.model(),
            r.shrink_steps == 0,
            r.shrink_duration@ == 0,
            r.completed,
    {
        let minimal = original.duplicate();
        ShrinkResult {
            minimal,
            original,
            shrink_steps: 0,
            shrink_duration: Duration::from_secs(0),
            completed: true,
        }
    }
}

/// Default maximum number of shrinking iterations.
pub const DEFAULT_SHRINK_MAX_ITERATIONS: usize = 1000;

/// Default shrinking timeout, in seconds.
pub const DEFAULT_SHRINK_TIMEOUT_SECS: u64 = 10;

/// Configuration for shrinking behavior.
#[derive(Debug, Clone, Copy)]
pub struct ShrinkConfig {
    /// Maximum number of shrinking iterations.
    pub max_iterations: usize,
    /// Timeout for the shrinking process.
    pub timeout: Duration,
    /// Whether verbose shrinking output is asked for.
    pub verbose: bool,
}

/// The default shrink configuration: 1000 iterations, 10 seconds, not verbose.
pub open spec fn spec_default_shrink_config() -> ShrinkConfig {
    ShrinkConfig {
        max_iterations: DEFAULT_SHRINK_MAX_ITERATIONS,
        timeout: Duration::spec_from_secs(DEFAULT_SHRINK_TIMEOUT_SECS),
        verbose: false,
    }
}

impl Default for ShrinkConfig {
    fn default() -> (r: Self)
        ensures
            r == spec_default_shrink_config(),
    {
        ShrinkConfig {
            max_iterations: DEFAULT_SHRINK_MAX_ITERATIONS,
            timeout: Duration::from_secs(DEFAULT_SHRINK_TIMEOUT_SECS),
            verbose: false,
        }
    }
}

impl ShrinkConfig {
    /// Creates a shrink configuration.
    pub fn new(max_iterations: usize, timeout: Duration, verbose: bool) -> (r: Self)
        ensures
            r == (ShrinkConfig { max_iterations, timeout, verbose }),
    {
        ShrinkConfig { max_iterations, timeout, verbose }
    }

    /// The default configuration with a custom timeout.
    pub fn with_timeout(timeout: Duration) -> (r: Self)
        ensures
            r == (ShrinkConfig { timeout, ..spec_default_shrink_config() }),
    {
        ShrinkConfig { timeout, ..ShrinkConfig::default() }
    }

    /// The default configuration with a custom maximum number of iterations.
    pub fn with_max_iterations(max_iterations: usize) -> (r: Self)
        ensures
            r == (ShrinkConfig { max_iterations, ..spec_default_shrink_config() }),
    {
        ShrinkConfig { max_iterations, ..ShrinkConfig::default() }
    }

    /// This configuration with verbose output enabled.
    pub fn verbose(self) -> (r: Self)
        ensures
            r == (ShrinkConfig { verbose: true, ..self }),
    {
        let mut c = self;
        c.verbose = true;
        c
    }
}

/// Whether the property, on `x`, may return `Ok`.
pub open spec fn passes<T, F: Fn(&T) -> Result<(), PropertyError>>(property: F, x: T) -> bool {
    call_ensures(property, (&x,), Ok(()))
}

/// Whether the property, on `x`, may return an error.
pub open spec fn fails<T, F: Fn(&T) -> Result<(), PropertyError>>(property: F, x: T) -> bool {
    exists|e: PropertyError| call_ensures(property, (&x,), Err(e))
}

/// One shrinking step from `a` to `b`: `b` is the first candidate, among candidates `cs`
/// that `cands` allows for `a`, on which the property fails; it passes on the ones before.
pub open spec fn shrink_step<T, F: Fn(&T) -> Result<(), PropertyError>>(
    cands: spec_fn(T, Seq<T>) -> bool,
    property: F,
    a: T,
    b: T,
) -> bool {
    &&& exists|cs: Seq<T>, i: int|
        #![trigger cands(a, cs), cs[i]]
        cands(a, cs) && 0 <= i < cs.len() && cs[i] == b && forall|j: int|
            0 <= j < i ==> #[trigger] passes(property, cs[j])
    &&& fails(property, b)
}

/// A chain of `n` shrinking steps from `start` to `end`.
pub open spec fn shrink_path<T, F: Fn(&T) -> Result<(), PropertyError>>(
    cands: spec_fn(T, Seq<T>) -> bool,
    property: F,
    start: T,
    end: T,
    n: nat,
) -> bool {
    exists|chain: Seq<T>|
        {
            &&& chain.len() == n + 1
            &&& chain[0] == start
            &&& #[trigger] chain[n as int] == end
            &&& forall|k: int|
                0 <= k < n ==> #[trigger] shrink_step(cands, property, chain[k], chain[k + 1])
        }
}

/// `x` is locally minimal: some candidate list that `cands` allows for `x` holds only
/// values on which the property passes.
pub open spec fn locally_minimal<T, F: Fn(&T) -> Result<(), PropertyError>>(
    cands: spec_fn(T, Seq<T>) -> bool,
    property: F,
    x: T,
) -> bool {
    exists|cs: Seq<T>|
        #[trigger] cands(x, cs) && forall|i: int| 0 <= i < cs.len() ==> #[trigger] passes(
            property,
            cs[i],
        )
}

/// What a shrinking run from `start` gives back: a chain of `steps` shrinking steps, each to
/// the first failing candidate, at most `max` of them; when more than none, the start
/// failed; a start that cannot fail comes back unchanged, with no step, completed; a start
/// that cannot pass ends on a value that fails too; and a completed run either found the
/// start passing, or ended on a locally minimal value, below the iteration limit.
pub open spec fn shrink_outcome<T, F: Fn(&T) -> Result<(), PropertyError>>(
    cands: spec_fn(T, Seq<T>) -> bool,
    property: F,
    start: T,
    minimal: T,
    steps: usize,
    completed: bool,
    max: usize,
) -> bool {
    &&& steps <= max
    &&& shrink_path(cands, property, start, minimal, steps as nat)
    &&& !fails(property, start) ==> completed && steps == 0 && minimal == start
    &&& !passes(property, start) ==> fails(property, minimal)
    &&& steps > 0 ==> fails(property, start)
    &&& completed ==> steps < max || (steps == 0 && passes(property, start))
    &&& completed ==> (steps == 0 && minimal == start && passes(property, start)) || (fails(
        property,
        start,
    ) && locally_minimal(cands, property, minimal))
}

/// The candidates of the `Shrinkable` impl: a list `cs` that shrinking may produce.
pub open spec fn shrinkable_candidates<T: Shrinkable>() -> spec_fn(T, Seq<T>) -> bool {
    |x: T, cs: Seq<T>| T::shrinks_to(x.model(), cs.map_values(|y: T| y.model()))
}

/// The candidates of a strategy function: a list it may return.
pub open spec fn strategy_candidates<T, S: Fn(&T) -> Vec<T>>(strategy: S) -> spec_fn(T, Seq<T>) -> bool {
    |x: T, cs: Seq<T>| exists|v: Vec<T>| call_ensures(strategy, (&x,), v) && v@ == cs
}

/// Shrinking engine that coordinates the shrinking process.
pub struct ShrinkEngine {
    /// The configuration in use.
    pub config: ShrinkConfig,
}

impl ShrinkEngine {
    /// A shrinking engine with the default configuration.
    pub fn new() -> (r: Self)
        ensures
            r.config == spec_default_shrink_config(),
    {
        ShrinkEngine { config: ShrinkConfig::default() }
    }

    /// A shrinking engine with a custom configuration.
    pub fn with_config(config: ShrinkConfig) -> (r: Self)
        ensures
            r.config == config,
    {
        ShrinkEngine { config }
    }

    /// Shrinks a failing value with its `Shrinkable` candidates.
    ///
    /// Starting from a copy of `value`, repeatedly moves to the first candidate on which
    /// the property fails, until no candidate fails (completed), the iteration limit is
    /// reached, or the timeout runs out (not completed). When the property passes on the
    /// value, nothing is shrunk.
    pub fn shrink<T, F>(&self, value: T, property: F) -> (r: ShrinkResult<T>) where
        T: Shrinkable + Clone,
        F: Fn(&T) -> Result<(), PropertyError>,

        requires
            forall|x: &T| #[trigger] call_requires(property, (x,)),
        ensures
            r.original == value,
            exists|start: T|
                #![trigger start.model()]
                start.model() == value.model() && shrink_outcome(
                    shrinkable_candidates::<T>(),
                    property,
                    start,
                    r.minimal,
                    r.shrink_steps,
                    r.completed,
                    self.config.max_iterations,
                ),
            !r.completed ==> r.shrink_steps == self.config.max_iterations || r.shrink_duration@
                >= self.config.timeout@,
    {
        let start = value.duplicate();
        let strategy = |x: &T| -> (c: Vec<T>)
            ensures
                T::shrinks_to(x.model(), c@.map_values(|y: T| y.model())),
            { x.shrink() };
        let r = self.shrink_from(value, start, property, strategy, Ghost(shrinkable_candidates::<T>()));
        assert(start.model() == value.model());
        r
    }

    /// Shrinks a failing value with the candidates that `strategy` gives.
    ///
    /// Starting from a clone of `value`, repeatedly moves to the first candidate on which
    /// the property fails, until no candidate fails (completed), the iteration limit is
    /// reached, or the timeout runs out (not completed).
    pub fn shrink_with_strategy<T, F, S>(&self, value: T, property: F, strategy: S) -> (r:
        ShrinkResult<T>) where
        T: Clone,
        F: Fn(&T) -> Result<(), PropertyError>,
        S: Fn(&T) -> Vec<T>,

        requires
            forall|x: &T| #[trigger] call_requires(property, (x,)),
            forall|x: &T| #[trigger] call_requires(strategy, (x,)),
        ensures
            r.original == value,
            exists|start: T|
                #[trigger] cloned(value, start) && shrink_outcome(
                    strategy_candidates(strategy),
                    property,
                    start,
                    r.minimal,
                    r.shrink_steps,
                    r.completed,
                    self.config.max_iterations,
                ),
            !r.completed ==> r.shrink_steps == self.config.max_iterations || r.shrink_duration@
                >= self.config.timeout@,
    {
        let start = value.clone();
        let r = self.shrink_from(value, start, property, strategy, Ghost(strategy_candidates(strategy)));
        assert(cloned(value, start));
        r
    }

    /// The shrinking loop from `start`: repeatedly takes the first candidate on which the
    /// property fails, until none does, the iteration limit is reached, or time runs out.
    fn shrink_from<T, F, S>(
        &self,
        value: T,
        start: T,
        property: F,
        strategy: S,
        Ghost(cands): Ghost<spec_fn(T, Seq<T>) -> bool>,
    ) -> (r: ShrinkResult<T>) where
        F: Fn(&T) -> Result<(), PropertyError>,
        S: Fn(&T) -> Vec<T>,

        requires
            forall|x: &T| #[trigger] call_requires(property, (x,)),
            forall|x: &T| #[trigger] call_requires(strategy, (x,)),
            forall|x: T, v: Vec<T>| #[trigger] call_ensures(strategy, (&x,), v) ==> cands(x, v@),
        ensures
            r.original == value,
            shrink_outcome(
                cands,
                property,
                start,
                r.minimal,
                r.shrink_steps,
                r.completed,
                self.config.max_iterations,
            ),
            !r.completed ==> r.shrink_steps == self.config.max_iterations || r.shrink_duration@
                >= self.config.timeout@,
    {
        let start_time = now();
        let first = property(&start);
        match first {
            Ok(u) => {
                proof {
                    assert(first == Ok::<(), PropertyError>(()));
                    assert(passes(property, start));
                    assert(shrink_path(cands, property, start, start, 0)) by {
                        let chain = seq![start];
                        assert(chain[0] == start);
                    }
                }
                return ShrinkResult::new(value, start, 0, elapsed(&start_time), true);
            },
            Err(e) => {
                assert(call_ensures(property, (&start,), Err(e)));
            },
        }
        let max = self.config.max_iterations;
        let ghost start_copy = start;
        let mut current = start;
        let mut steps: usize = 0;
        let mut done = false;
        let ghost mut chain: Seq<T> = seq![start_copy];
        while !done && steps < max
            invariant
                max == self.config.max_iterations,
                start_copy == start,
                forall|x: &T| #[trigger] call_requires(property, (x,)),
                forall|x: &T| #[trigger] call_requires(strategy, (x,)),
                forall|x: T, v: Vec<T>| #[trigger] call_ensures(strategy, (&x,), v) ==> cands(x, v@),
                fails(property, start_copy),
                steps <= max,
                chain.len() == steps + 1,
                chain[0] == start_copy,
                chain[steps as int] == current,
                forall|k: int|
                    0 <= k < steps ==> #[trigger] shrink_step(cands, property, chain[k], chain[k + 1]),
                done ==> locally_minimal(cands, property, current),
            decreases (if done { 0 } else { 1int }), max - steps,
        {
            let reading = elapsed(&start_time);
            if reading.at_least(&self.config.timeout) {
                proof {
                    assert(shrink_path(cands, property, start_copy, current, steps as nat)) by {
                        assert(chain[steps as int] == current);
                    }
                    if steps > 0 {
                        let k: int = steps - 1;
                        assert(shrink_step(cands, property, chain[k], chain[k + 1]));
                    }
                }
                return ShrinkResult::new(value, current, steps, reading, false);
            }
            let mut candidates = strategy(&current);
            let n = candidates.len();
            let mut i: usize = 0;
            let mut found = false;
            while i < n && !found
                invariant
                    n == candidates@.len(),
                    i <= n,
                    forall|x: &T| #[trigger] call_requires(property, (x,)),
                    found ==> i < n && fails(property, candidates@[i as int]),
                    forall|k: int| 0 <= k < i ==> #[trigger] passes(property, candidates@[k]),
                decreases n - i, (if found { 0int } else { 1int }),
            {
                let res = property(&candidates[i]);
                match res {
                    Ok(u) => {
                        assert(call_ensures(property, (&candidates[i as int],), res));
                        assert(res == Ok::<(), PropertyError>(()));
                        assert(passes(property, candidates@[i as int]));
                        i = i + 1;
                    },
                    Err(e) => {
                        assert(call_ensures(property, (&candidates@[i as int],), Err(e)));
                        found = true;
                    },
                }
            }
            if found {
                let ghost cs = candidates@;
                let next = candidates.swap_remove(i);
                proof {
                    assert(cs[i as int] == next);
                    assert(cands(current, cs));
                    assert(shrink_step(cands, property, current, next));
                    chain = chain.push(next);
                }
                current = next;
                steps = steps + 1;
            } else {
                proof {
                    assert(cands(current, candidates@));
                }
                done = true;
            }
        }
        proof {
            assert(shrink_path(cands, property, start_copy, current, steps as nat)) by {
                assert(chain[steps as int] == current);
            }
            if steps > 0 {
                let k: int = steps - 1;
                assert(shrink_step(cands, property, chain[k], chain[k + 1]));
            }
        }
        let completed = steps < max;
        ShrinkResult::new(value, current, steps, elapsed(&start_time), completed)
    }
}

} // verus!

verus! {

impl Default for ShrinkEngine {
    fn default() -> (r: Self)
        ensures
            r.config == spec_default_shrink_config(),
    {
        ShrinkEngine::new()
    }
}

} // verus!
