//! Generators for primitive types and basic collections.

use vstd::prelude::*;
use rand::rngs::StdRng;
use crate::config::GeneratorConfig;
use crate::generator::Generator;
use crate::prim_int::PrimInt;
use crate::rng::{random_bool, random_index};
use crate::shrink::strategies::char_from_u32;
use crate::text::{
    alphabetic, byte_len, chars_of, contains_string, is_alphabetic, is_numeric, is_uppercase,
    lemma_string_views_push, lowercase_first, numeric, push_char, same_string, string_from_range,
    string_views, string_with, to_lowercase_first, uppercase, utf8_len,
};
use crate::shrink::strategies::int_values;
use crate::execution::{all_candidates_pass, passes_on};
use crate::property::Property;

pub mod collections;

pub use collections::{
    BTreeMapGenerator, BTreeSetGenerator, CollectionKey, HashMapGenerator, HashSetGenerator,
};

verus! {

/// Generator for boolean values.
#[derive(Debug, Clone, Copy)]
pub struct BoolGenerator;

impl Generator<bool> for BoolGenerator {
    open spec fn can_generate(&self, config: GeneratorConfig) -> bool {
        true
    }

    open spec fn generates(&self, config: GeneratorConfig, value: bool) -> bool {
        true
    }

    open spec fn can_shrink(&self, value: bool) -> bool {
        true
    }

    open spec fn shrinks_to(&self, value: bool, candidates: Seq<bool>) -> bool {
        candidates == if value {
            seq![false]
        } else {
            seq![]
        }
    }

    fn generate(&self, rng: &mut StdRng, config: &GeneratorConfig) -> (r: bool) {
        random_bool(rng)
    }

    fn shrink(&self, value: &bool) -> (r: Vec<bool>) {
        let mut r: Vec<bool> = Vec::new();
        if *value {
            r.push(false);
        }
        assert(r@ =~= if *value { seq![false] } else { seq![] });
        r
    }
}

/// Generator for integers in a range `min..=max`.
#[derive(Debug, Clone, Copy)]
pub struct IntGenerator<T> {
    min: T,
    max: T,
}

/// The value that integer shrinking moves toward: zero when the range holds it and the
/// value is not negative, the minimum otherwise.
pub open spec fn int_target(value: int, min: int) -> int {
    if min <= 0 && 0 <= value {
        0
    } else {
        min
    }
}

/// The distance between two integers.
pub open spec fn distance(a: int, b: int) -> int {
    if a >= b {
        a - b
    } else {
        b - a
    }
}

/// The values that integer shrinking visits from `cur` to `target`, each step half the
/// remaining distance (at least one), keeping those that are at least `min` and differ
/// from `value`.
pub open spec fn int_walk(cur: int, target: int, value: int, min: int) -> Seq<int>
    decreases distance(cur, target),
{
    if cur == target {
        seq![]
    } else {
        let diff = distance(cur, target);
        let step = if diff == 1 {
            1
        } else {
            diff / 2
        };
        let next = if cur > target {
            cur - step
        } else {
            cur + step
        };
        (if next >= min && next != value {
            seq![next]
        } else {
            seq![]
        }) + int_walk(next, target, value, min)
    }
}

/// The values that approach `value` from below by halving distances: `value - d`,
/// `value - d / 2`, and so on while the distance is at least one.
pub open spec fn int_approach(value: int, d: int) -> Seq<int>
    decreases d,
{
    if d <= 0 {
        seq![]
    } else {
        seq![value - d] + int_approach(value, d / 2)
    }
}

/// The shrinking candidates of `value` for an integer generator with minimum `min`: none
/// for the minimum itself; the minimum for a value below it; otherwise the values that
/// halve the distance to the target in turn, then the values that approach `value` from
/// the target's side by halving distances, so that a failing value next to a passing one
/// is found.
pub open spec fn int_shrink_candidates(value: int, min: int) -> Seq<int> {
    if value == min {
        seq![]
    } else if value < min {
        seq![min]
    } else {
        let t = int_target(value, min);
        int_walk(value, t, value, min) + int_approach(value, (value - t) / 2)
    }
}

impl<T: PrimInt> IntGenerator<T> {
    /// The range as mathematical integers.
    pub closed spec fn bounds(&self) -> (int, int) {
        (self.min.int_value(), self.max.int_value())
    }

    /// A generator of integers in `min..=max`.
    pub fn new(min: T, max: T) -> (r: Self)
        ensures
            r.bounds() == (min.int_value(), max.int_value()),
    {
        IntGenerator { min, max }
    }

    /// A generator over the whole range of the type.
    pub fn full_range() -> (r: Self)
        ensures
            r.bounds() == (T::lowest(), T::highest()),
    {
        IntGenerator { min: T::minimum(), max: T::maximum() }
    }
}

impl<T: PrimInt> Generator<T> for IntGenerator<T> {
    open spec fn can_generate(&self, config: GeneratorConfig) -> bool {
        self.bounds().0 <= self.bounds().1
    }

    open spec fn generates(&self, config: GeneratorConfig, value: T) -> bool {
        self.bounds().0 <= value.int_value() <= self.bounds().1
    }

    open spec fn can_shrink(&self, value: T) -> bool {
        true
    }

    open spec fn shrinks_to(&self, value: T, candidates: Seq<T>) -> bool {
        int_values(candidates) == int_shrink_candidates(value.int_value(), self.bounds().0)
    }

    fn generate(&self, rng: &mut StdRng, config: &GeneratorConfig) -> (r: T) {
        T::random_in(rng, self.min, self.max)
    }

    fn shrink(&self, value: &T) -> (r: Vec<T>) {
        let value = *value;
        let min = self.min;
        let ghost v = value.int_value();
        let ghost m = min.int_value();
        if value.same(min) {
            assert(int_values(Seq::<T>::empty()) =~= Seq::<int>::empty());
            return Vec::new();
        }
        if value.less(min) {
            let mut below = Vec::new();
            below.push(min);
            assert(int_values(below@) =~= seq![m]);
            return below;
        }
        let zero = T::zero();
        let target = if !zero.less(min) && !value.less(zero) {
            zero
        } else {
            min
        };
        let ghost t = target.int_value();
        proof {
            value.lemma_range();
            min.lemma_range();
        }
        let mut shrinks: Vec<T> = Vec::new();
        let mut current = value;
        while !current.same(target)
            invariant
                v == value.int_value(),
                m == min.int_value(),
                t == target.int_value(),
                t == int_target(v, m),
                distance(current.int_value(), t) <= distance(v, t),
                distance(v, t) <= T::highest(),
                T::lowest() <= t <= T::highest(),
                int_values(shrinks@) + int_walk(current.int_value(), t, v, m) == int_walk(v, t, v, m),
            decreases distance(current.int_value(), t),
        {
            let ghost c = current.int_value();
            proof {
                current.lemma_range();
            }
            let diff = if target.less(current) {
                current.minus(target)
            } else {
                target.minus(current)
            };
            let next = if target.less(current) {
                current.minus(step_of(diff))
            } else {
                current.plus(step_of(diff))
            };
            if !next.less(min) && !next.same(value) {
                let ghost prev = shrinks@;
                shrinks.push(next);
                assert(int_values(shrinks@) =~= int_values(prev).push(next.int_value()));
            }
            assert(int_walk(c, t, v, m) == (if next.int_value() >= m && next.int_value() != v {
                seq![next.int_value()]
            } else {
                seq![]
            }) + int_walk(next.int_value(), t, v, m));
            assert(int_values(shrinks@) + int_walk(next.int_value(), t, v, m) =~= int_walk(v, t, v, m));
            current = next;
        }
        assert(int_values(shrinks@) =~= int_walk(v, t, v, m));
        let ghost walk = int_values(shrinks@);
        let dist = value.minus(target);
        let mut d = dist.half();
        while !d.same(zero)
            invariant
                v == value.int_value(),
                t == target.int_value(),
                m <= t <= v,
                T::lowest() <= m,
                v <= T::highest(),
                zero.int_value() == 0,
                0 <= d.int_value() <= (v - t) / 2,
                walk + int_approach(v, (v - t) / 2) == int_values(shrinks@) + int_approach(
                    v,
                    d.int_value(),
                ),
            decreases d.int_value(),
        {
            let c = value.minus(d);
            let ghost prev = shrinks@;
            shrinks.push(c);
            assert(int_values(shrinks@) =~= int_values(prev).push(c.int_value()));
            assert(int_approach(v, d.int_value()) =~= seq![v - d.int_value()] + int_approach(
                v,
                d.int_value() / 2,
            ));
            assert(int_values(prev) + int_approach(v, d.int_value()) =~= int_values(shrinks@)
                + int_approach(v, d.int_value() / 2));
            d = d.half();
        }
        assert(int_approach(v, 0) =~= Seq::<int>::empty());
        assert(int_values(shrinks@) =~= int_shrink_candidates(v, m));
        shrinks
    }
}

/// Every value of a walk from `cur` toward `t` is at least `m`, differs from `v`, and is
/// strictly closer to `t` than `cur` is, on the same side.
proof fn lemma_int_walk_bounds(cur: int, t: int, v: int, m: int)
    ensures
        forall|i: int|
            0 <= i < int_walk(cur, t, v, m).len() ==> {
                let x = #[trigger] int_walk(cur, t, v, m)[i];
                &&& x >= m
                &&& x != v
                &&& distance(x, t) < distance(cur, t)
                &&& (cur >= t ==> t <= x <= cur)
                &&& (cur <= t ==> cur <= x <= t)
            },
    decreases distance(cur, t),
{
    if cur != t {
        let diff = distance(cur, t);
        let step = if diff == 1 {
            1
        } else {
            diff / 2
        };
        let next = if cur > t {
            cur - step
        } else {
            cur + step
        };
        lemma_int_walk_bounds(next, t, v, m);
        let head = if next >= m && next != v {
            seq![next]
        } else {
            seq![]
        };
        assert(int_walk(cur, t, v, m) == head + int_walk(next, t, v, m));
        assert forall|i: int| 0 <= i < int_walk(cur, t, v, m).len() implies {
            let x = #[trigger] int_walk(cur, t, v, m)[i];
            &&& x >= m
            &&& x != v
            &&& distance(x, t) < distance(cur, t)
            &&& (cur >= t ==> t <= x <= cur)
            &&& (cur <= t ==> cur <= x <= t)
        } by {
            if i >= head.len() {
                assert(int_walk(cur, t, v, m)[i] == int_walk(next, t, v, m)[i - head.len()]);
            }
        }
    }
}

/// Every value approaching `v` from a distance of at most `d` lies in `v - d .. v`.
/// Approaching `value` from any positive distance ends one below it.
proof fn lemma_int_approach_reaches_predecessor(v: int, d: int)
    requires
        d >= 1,
    ensures
        int_approach(v, d).contains(v - 1),
    decreases d,
{
    if d == 1 {
        assert(int_approach(v, d)[0] == v - 1);
    } else {
        lemma_int_approach_reaches_predecessor(v, d / 2);
        let k = choose|k: int| 0 <= k < int_approach(v, d / 2).len() && #[trigger] int_approach(v, d / 2)[k] == v - 1;
        assert(int_approach(v, d)[k + 1] == v - 1);
    }
}

/// Every value above its shrink target has the value one below it among its candidates.
pub proof fn lemma_int_candidates_step_down(v: int, min: int)
    requires
        min <= v,
        int_target(v, min) < v,
    ensures
        int_shrink_candidates(v, min).contains(v - 1),
{
    let t = int_target(v, min);
    let walk = int_walk(v, t, v, min);
    if v - t == 1 {
        assert(int_walk(v - 1, t, v, min) == Seq::<int>::empty());
        assert(walk[0] == v - 1);
        assert(int_shrink_candidates(v, min)[0] == v - 1);
    } else {
        lemma_int_approach_reaches_predecessor(v, (v - t) / 2);
        let ap = int_approach(v, (v - t) / 2);
        let k = choose|k: int| 0 <= k < ap.len() && #[trigger] ap[k] == v - 1;
        assert(int_shrink_candidates(v, min)[walk.len() + k] == v - 1);
    }
}

/// Shrinking an integer finds the exact threshold of a property that fails from a threshold
/// upward: a failing value at or above the threshold, above its shrink target, on whose
/// every candidate the property passes (every candidate lies below the threshold) is the
/// threshold itself.
pub proof fn lemma_int_local_minimum_is_threshold(v: int, min: int, threshold: int)
    requires
        min <= threshold <= v,
        int_target(v, min) < v,
        forall|i: int|
            0 <= i < int_shrink_candidates(v, min).len() ==> #[trigger] int_shrink_candidates(v, min)[i]
                < threshold,
    ensures
        v == threshold,
{
    lemma_int_candidates_step_down(v, min);
}

/// Integer shrinking reaches the threshold: when a property on integers passes only below
/// `threshold`, a shrunk failure at or above the threshold on whose every candidate the
/// property passes, above its shrink target, is exactly the threshold.
pub proof fn lemma_int_shrunk_failure_is_threshold<T: PrimInt, P: Property<T>>(
    g: IntGenerator<T>,
    property: P,
    s: T,
    threshold: int,
)
    requires
        all_candidates_pass(g, property, s),
        forall|x: T| #[trigger] passes_on(property, x) ==> x.int_value() < threshold,
        g.bounds().0 <= threshold <= s.int_value(),
        int_target(s.int_value(), g.bounds().0) < s.int_value(),
    ensures
        s.int_value() == threshold,
{
    let cands = choose|cands: Seq<T>|
        #[trigger] g.shrinks_to(s, cands) && forall|j: int|
            0 <= j < cands.len() ==> passes_on(property, #[trigger] cands[j]);
    let v = s.int_value();
    let min = g.bounds().0;
    assert(int_values(cands) == int_shrink_candidates(v, min));
    assert forall|i: int| 0 <= i < int_shrink_candidates(v, min).len() implies #[trigger] int_shrink_candidates(
        v,
        min,
    )[i] < threshold by {
        assert(passes_on(property, cands[i]));
        assert(int_values(cands)[i] == cands[i].int_value());
    }
    lemma_int_local_minimum_is_threshold(v, min, threshold);
}

proof fn lemma_int_approach_bounds(v: int, d: int)
    ensures
        forall|i: int|
            0 <= i < int_approach(v, d).len() ==> v - d <= #[trigger] int_approach(v, d)[i] < v,
    decreases d,
{
    if d > 0 {
        lemma_int_approach_bounds(v, d / 2);
        assert forall|i: int| 0 <= i < int_approach(v, d).len() implies v - d <= #[trigger] int_approach(
            v,
            d,
        )[i] < v by {
            if i > 0 {
                assert(int_approach(v, d)[i] == int_approach(v, d / 2)[i - 1]);
            }
        }
    }
}

/// Shrinking stays in the generator's range: every candidate of a value that the generator
/// may give is one it may give too, differs from the value, and is strictly closer to the
/// target (zero when the range holds it and the value is not negative, the minimum
/// otherwise).
pub proof fn lemma_int_shrinks_stay_in_range<T: PrimInt>(
    g: IntGenerator<T>,
    config: GeneratorConfig,
    value: T,
    candidates: Seq<T>,
)
    requires
        g.generates(config, value),
        g.shrinks_to(value, candidates),
    ensures
        forall|i: int|
            0 <= i < candidates.len() ==> {
                &&& g.generates(config, #[trigger] candidates[i])
                &&& candidates[i] != value
                &&& distance(candidates[i].int_value(), int_target(value.int_value(), g.bounds().0))
                    < distance(value.int_value(), int_target(value.int_value(), g.bounds().0))
            },
{
    let v = value.int_value();
    let m = g.bounds().0;
    let t = int_target(v, m);
    assert forall|i: int| 0 <= i < candidates.len() implies {
        &&& g.generates(config, #[trigger] candidates[i])
        &&& candidates[i] != value
        &&& distance(candidates[i].int_value(), t) < distance(v, t)
    } by {
        assert(int_values(candidates).len() == candidates.len());
        assert(int_values(candidates)[i] == candidates[i].int_value());
        assert(v != m);
        lemma_int_walk_bounds(v, t, v, m);
        lemma_int_approach_bounds(v, (v - t) / 2);
        let walk = int_walk(v, t, v, m);
        let x = int_shrink_candidates(v, m)[i];
        assert(candidates[i].int_value() == x);
        assert(t <= v);
        if i < walk.len() {
            assert(x == walk[i]);
        } else {
            assert(x == int_approach(v, (v - t) / 2)[i - walk.len()]);
        }
        assert(x >= m && x != v && distance(x, t) < distance(v, t));
        assert(t <= x <= v);
    }
}

/// The step of integer shrinking for a remaining distance `diff`: one when the distance is
/// one, half of it otherwise.
fn step_of<T: PrimInt>(diff: T) -> (r: T)
    requires
        diff.int_value() >= 1,
    ensures
        r.int_value() == if diff.int_value() == 1 {
            1
        } else {
            diff.int_value() / 2
        },
{
    let h = diff.half();
    if h.same(T::zero()) {
        diff
    } else {
        h
    }
}

} // verus!

verus! {

/// Generator for characters from a list of inclusive ranges.
#[derive(Debug, Clone)]
pub struct CharGenerator {
    ranges: Vec<(char, char)>,
}

/// Whether `c` lies in one of the ranges.
pub open spec fn in_ranges(ranges: Seq<(char, char)>, c: char) -> bool {
    exists|i: int|
        0 <= i < ranges.len() && ((#[trigger] ranges[i]).0 as u32) <= (c as u32) <= (
        ranges[i].1 as u32)
}

/// `c` as a candidate when it differs from `value` and lies in the ranges.
pub open spec fn char_if_in(ranges: Seq<(char, char)>, value: char, c: char) -> Seq<char> {
    if value != c && in_ranges(ranges, c) {
        seq![c]
    } else {
        seq![]
    }
}

/// The shrinking candidates of a character generator: `'a'`, `'0'` and `' '`, each when
/// it lies in the ranges and differs from the value.
pub open spec fn char_gen_candidates(ranges: Seq<(char, char)>, value: char) -> Seq<char> {
    char_if_in(ranges, value, 'a') + char_if_in(ranges, value, '0') + char_if_in(
        ranges,
        value,
        ' ',
    )
}

impl CharGenerator {
    /// The character ranges.
    pub closed spec fn view(&self) -> Seq<(char, char)> {
        self.ranges@
    }

    /// Printable ASCII characters, `' '` to `'~'`.
    pub fn ascii_printable() -> (r: Self)
        ensures
            r.view() == seq![(' ', '~')],
    {
        let mut ranges = Vec::new();
        ranges.push((' ', '~'));
        assert(ranges@ =~= seq![(' ', '~')]);
        CharGenerator { ranges }
    }

    /// ASCII digits and letters.
    pub fn ascii_alphanumeric() -> (r: Self)
        ensures
            r.view() == seq![('0', '9'), ('A', 'Z'), ('a', 'z')],
    {
        let mut ranges = Vec::new();
        ranges.push(('0', '9'));
        ranges.push(('A', 'Z'));
        ranges.push(('a', 'z'));
        assert(ranges@ =~= seq![('0', '9'), ('A', 'Z'), ('a', 'z')]);
        CharGenerator { ranges }
    }

    /// Characters from custom ranges.
    pub fn with_ranges(ranges: Vec<(char, char)>) -> (r: Self)
        ensures
            r.view() == ranges@,
    {
        CharGenerator { ranges }
    }

    /// Whether `c` lies in one of the ranges.
    pub fn char_in_ranges(&self, c: char) -> (r: bool)
        ensures
            r == in_ranges(self.view(), c),
    {
        let n = self.ranges.len();
        let mut i: usize = 0;
        while i < n
            invariant
                n == self.ranges@.len(),
                i <= n,
                forall|k: int|
                    0 <= k < i ==> !(((#[trigger] self.ranges@[k]).0 as u32) <= (c as u32) <= (
                    self.ranges@[k].1 as u32)),
            decreases n - i,
        {
            let (start, end) = self.ranges[i];
            if (start as u32) <= (c as u32) && (c as u32) <= (end as u32) {
                assert((self.ranges@[i as int].0 as u32) <= (c as u32) <= (self.ranges@[i as int].1 as u32));
                return true;
            }
            i = i + 1;
        }
        false
    }

    fn push_if_in(&self, shrinks: &mut Vec<char>, value: char, c: char)
        ensures
            final(shrinks)@ == old(shrinks)@ + char_if_in(self.view(), value, c),
    {
        if value != c && self.char_in_ranges(c) {
            shrinks.push(c);
        }
        assert(final(shrinks)@ =~= old(shrinks)@ + char_if_in(self.view(), value, c));
    }
}

/// Whether every range is ordered (start no later than end).
pub open spec fn ranges_ordered(ranges: Seq<(char, char)>) -> bool {
    forall|i: int| 0 <= i < ranges.len() ==> ((#[trigger] ranges[i]).0 as u32) <= (ranges[i].1 as u32)
}

impl Generator<char> for CharGenerator {
    open spec fn can_generate(&self, config: GeneratorConfig) -> bool {
        ranges_ordered(self.view())
    }

    open spec fn generates(&self, config: GeneratorConfig, value: char) -> bool {
        in_ranges(self.view(), value) || value == 'a'
    }

    open spec fn can_shrink(&self, value: char) -> bool {
        true
    }

    open spec fn shrinks_to(&self, value: char, candidates: Seq<char>) -> bool {
        candidates == char_gen_candidates(self.view(), value)
    }

    fn generate(&self, rng: &mut StdRng, config: &GeneratorConfig) -> (r: char) {
        if self.ranges.len() == 0 {
            return 'a';
        }
        let range_idx = random_index(rng, self.ranges.len());
        let (start, end) = self.ranges[range_idx];
        assert((self.ranges@[range_idx as int].0 as u32) <= (self.ranges@[range_idx as int].1 as u32));
        let code = u32::random_in(rng, start as u32, end as u32);
        match char_from_u32(code) {
            Some(c) => {
                assert((self.view()[range_idx as int].0 as u32) <= (c as u32) <= (
                    self.view()[range_idx as int].1 as u32));
                c
            },
            None => 'a',
        }
    }

    fn shrink(&self, value: &char) -> (r: Vec<char>) {
        let mut shrinks: Vec<char> = Vec::new();
        self.push_if_in(&mut shrinks, *value, 'a');
        self.push_if_in(&mut shrinks, *value, '0');
        self.push_if_in(&mut shrinks, *value, ' ');
        assert(shrinks@ =~= char_gen_candidates(self.view(), *value));
        shrinks
    }
}

} // verus!

verus! {

/// Generator for strings of characters from a character generator.
#[derive(Debug, Clone)]
pub struct StringGenerator {
    /// The generator of the characters.
    pub char_generator: CharGenerator,
    /// The least length of generated strings.
    pub min_length: usize,
    /// The greatest length of generated strings.
    pub max_length: usize,
}

/// `s` as a candidate when it is between `min` and `len` bytes long and differs from `v`.
pub open spec fn simple_piece(s: Seq<char>, min: nat, len: nat, v: Seq<char>) -> Seq<Seq<char>> {
    if utf8_len(s) >= min && utf8_len(s) <= len && s != v {
        seq![s]
    } else {
        seq![]
    }
}

/// The simple strings tried first: `""`, `"a"`, `"A"`, `"0"`, `"1"`, `"test"`, `"foo"`,
/// `"x"`, as far as they fit the length bounds and differ from `v`.
pub open spec fn simple_candidates(min: nat, len: nat, v: Seq<char>) -> Seq<Seq<char>> {
    simple_piece(""@, min, len, v) + simple_piece("a"@, min, len, v) + simple_piece(
        "A"@,
        min,
        len,
        v,
    ) + simple_piece("0"@, min, len, v) + simple_piece("1"@, min, len, v) + simple_piece(
        "test"@,
        min,
        len,
        v,
    ) + simple_piece("foo"@, min, len, v) + simple_piece("x"@, min, len, v)
}

/// The first `i` characters of `v`, or all of them when it has fewer.
pub open spec fn prefix(v: Seq<char>, i: nat) -> Seq<char> {
    if i <= v.len() {
        v.take(i as int)
    } else {
        v
    }
}

/// Shortening candidates of a string of `len` bytes: the first half (in bytes, when that
/// respects `min`), then prefixes of `len - 1`, `len - 3`, ... bytes down to `min`.
pub open spec fn shortening_candidates(v: Seq<char>, len: nat, min: nat) -> Seq<Seq<char>> {
    if len > min {
        (if len / 2 >= min {
            seq![prefix(v, len / 2)]
        } else {
            seq![]
        }) + Seq::new(
            ((len - 1 - min) / 2 + 1) as nat,
            |k: int| prefix(v, (len - 1 - 2 * k) as nat),
        )
    } else {
        seq![]
    }
}

/// `acc` with `s` appended unless it is there already.
pub open spec fn push_new(acc: Seq<Seq<char>>, s: Seq<char>) -> Seq<Seq<char>> {
    if acc.contains(s) {
        acc
    } else {
        acc.push(s)
    }
}

/// `acc` with each of `items` appended in order, unless it is there already.
pub open spec fn push_all_new(acc: Seq<Seq<char>>, items: Seq<Seq<char>>) -> Seq<Seq<char>>
    decreases items.len(),
{
    if items.len() == 0 {
        acc
    } else {
        push_new(push_all_new(acc, items.drop_last()), items.last())
    }
}

/// The candidates from character `i` of `v`: toward `'a'` for letters, toward `'0'` for
/// numerals, lowercase for uppercase, then the character generator's candidates that
/// are new.
pub open spec fn char_step(
    acc: Seq<Seq<char>>,
    v: Seq<char>,
    i: int,
    ranges: Seq<(char, char)>,
) -> Seq<Seq<char>> {
    let c = v[i];
    let a = acc + (if c != 'a' && alphabetic(c) {
        seq![v.update(i, 'a')]
    } else {
        seq![]
    }) + (if c != '0' && numeric(c) {
        seq![v.update(i, '0')]
    } else {
        seq![]
    }) + (if uppercase(c) {
        seq![v.update(i, lowercase_first(c))]
    } else {
        seq![]
    });
    push_all_new(a, char_gen_candidates(ranges, c).map_values(|sc: char| v.update(i, sc)))
}

/// The character candidates of the first `i` characters, in order, after `acc`.
pub open spec fn chars_fold(acc: Seq<Seq<char>>, v: Seq<char>, i: nat, ranges: Seq<(char, char)>) -> Seq<
    Seq<char>,
>
    decreases i,
{
    if i == 0 {
        acc
    } else {
        char_step(chars_fold(acc, v, (i - 1) as nat, ranges), v, i - 1, ranges)
    }
}

/// All shrinking candidates of a string generator for the string `v`.
pub open spec fn string_gen_candidates(
    min: nat,
    ranges: Seq<(char, char)>,
    v: Seq<char>,
) -> Seq<Seq<char>> {
    let len = utf8_len(v);
    let simple = simple_candidates(min, len, v);
    let empty = if min == 0 && v.len() > 0 && !simple.contains(Seq::<char>::empty()) {
        seq![Seq::<char>::empty()]
    } else {
        seq![]
    };
    chars_fold(simple + empty + shortening_candidates(v, len, min), v, v.len(), ranges)
}

/// Every string of `ss` has at least `min` characters.
pub open spec fn all_at_least(ss: Seq<Seq<char>>, min: nat) -> bool {
    forall|i: int| 0 <= i < ss.len() ==> #[trigger] ss[i].len() >= min
}

/// A string of ASCII characters takes one byte per character.
proof fn lemma_ascii_utf8_len(s: Seq<char>)
    requires
        forall|i: int| 0 <= i < s.len() ==> (#[trigger] s[i] as u32) < 0x80,
    ensures
        utf8_len(s) == s.len(),
    decreases s.len(),
{
    if s.len() > 0 {
        let d = s.drop_last();
        assert forall|i: int| 0 <= i < d.len() implies (#[trigger] d[i] as u32) < 0x80 by {
            assert(d[i] == s[i]);
        }
        lemma_ascii_utf8_len(d);
        assert((s[s.len() - 1] as u32) < 0x80);
    }
}

proof fn lemma_simple_piece_long_enough(s: Seq<char>, min: nat, len: nat, v: Seq<char>)
    requires
        forall|i: int| 0 <= i < s.len() ==> (#[trigger] s[i] as u32) < 0x80,
    ensures
        all_at_least(simple_piece(s, min, len, v), min),
{
    lemma_ascii_utf8_len(s);
}

proof fn lemma_simple_candidates_long_enough(min: nat, len: nat, v: Seq<char>)
    ensures
        all_at_least(simple_candidates(min, len, v), min),
{
    reveal_strlit("");
    reveal_strlit("a");
    reveal_strlit("A");
    reveal_strlit("0");
    reveal_strlit("1");
    reveal_strlit("test");
    reveal_strlit("foo");
    reveal_strlit("x");
    lemma_simple_piece_long_enough(""@, min, len, v);
    lemma_simple_piece_long_enough("a"@, min, len, v);
    lemma_simple_piece_long_enough("A"@, min, len, v);
    lemma_simple_piece_long_enough("0"@, min, len, v);
    lemma_simple_piece_long_enough("1"@, min, len, v);
    lemma_simple_piece_long_enough("test"@, min, len, v);
    lemma_simple_piece_long_enough("foo"@, min, len, v);
    lemma_simple_piece_long_enough("x"@, min, len, v);
    lemma_concat_long_enough(simple_piece(""@, min, len, v), simple_piece("a"@, min, len, v), min);
    let a1 = simple_piece(""@, min, len, v) + simple_piece("a"@, min, len, v);
    lemma_concat_long_enough(a1, simple_piece("A"@, min, len, v), min);
    let a2 = a1 + simple_piece("A"@, min, len, v);
    lemma_concat_long_enough(a2, simple_piece("0"@, min, len, v), min);
    let a3 = a2 + simple_piece("0"@, min, len, v);
    lemma_concat_long_enough(a3, simple_piece("1"@, min, len, v), min);
    let a4 = a3 + simple_piece("1"@, min, len, v);
    lemma_concat_long_enough(a4, simple_piece("test"@, min, len, v), min);
    let a5 = a4 + simple_piece("test"@, min, len, v);
    lemma_concat_long_enough(a5, simple_piece("foo"@, min, len, v), min);
    let a6 = a5 + simple_piece("foo"@, min, len, v);
    lemma_concat_long_enough(a6, simple_piece("x"@, min, len, v), min);
}

proof fn lemma_concat_long_enough(a: Seq<Seq<char>>, b: Seq<Seq<char>>, min: nat)
    requires
        all_at_least(a, min),
        all_at_least(b, min),
    ensures
        all_at_least(a + b, min),
{
    assert forall|i: int| 0 <= i < (a + b).len() implies #[trigger] (a + b)[i].len() >= min by {
        if i < a.len() {
            assert((a + b)[i] == a[i]);
        } else {
            assert((a + b)[i] == b[i - a.len()]);
        }
    }
}

proof fn lemma_push_all_new_long_enough(acc: Seq<Seq<char>>, items: Seq<Seq<char>>, min: nat)
    requires
        all_at_least(acc, min),
        all_at_least(items, min),
    ensures
        all_at_least(push_all_new(acc, items), min),
    decreases items.len(),
{
    if items.len() > 0 {
        let d = items.drop_last();
        assert forall|i: int| 0 <= i < d.len() implies #[trigger] d[i].len() >= min by {
            assert(d[i] == items[i]);
        }
        lemma_push_all_new_long_enough(acc, d, min);
        assert(items.last().len() >= min);
    }
}

proof fn lemma_char_step_long_enough(
    acc: Seq<Seq<char>>,
    v: Seq<char>,
    i: int,
    ranges: Seq<(char, char)>,
    min: nat,
)
    requires
        all_at_least(acc, min),
        v.len() >= min,
        0 <= i < v.len(),
    ensures
        all_at_least(char_step(acc, v, i, ranges), min),
{
    let c = v[i];
    let p1: Seq<Seq<char>> = if c != 'a' && alphabetic(c) {
        seq![v.update(i, 'a')]
    } else {
        seq![]
    };
    let p2: Seq<Seq<char>> = if c != '0' && numeric(c) {
        seq![v.update(i, '0')]
    } else {
        seq![]
    };
    let p3: Seq<Seq<char>> = if uppercase(c) {
        seq![v.update(i, lowercase_first(c))]
    } else {
        seq![]
    };
    lemma_concat_long_enough(acc, p1, min);
    lemma_concat_long_enough(acc + p1, p2, min);
    lemma_concat_long_enough(acc + p1 + p2, p3, min);
    let items = char_gen_candidates(ranges, c).map_values(|sc: char| v.update(i, sc));
    assert(all_at_least(items, min));
    lemma_push_all_new_long_enough(acc + p1 + p2 + p3, items, min);
}

proof fn lemma_chars_fold_long_enough(
    acc: Seq<Seq<char>>,
    v: Seq<char>,
    i: nat,
    ranges: Seq<(char, char)>,
    min: nat,
)
    requires
        all_at_least(acc, min),
        v.len() >= min,
        i <= v.len(),
    ensures
        all_at_least(chars_fold(acc, v, i, ranges), min),
    decreases i,
{
    if i > 0 {
        lemma_chars_fold_long_enough(acc, v, (i - 1) as nat, ranges, min);
        lemma_char_step_long_enough(chars_fold(acc, v, (i - 1) as nat, ranges), v, i - 1, ranges, min);
    }
}

proof fn lemma_shortening_long_enough(v: Seq<char>, len: nat, min: nat)
    requires
        v.len() >= min,
    ensures
        all_at_least(shortening_candidates(v, len, min), min),
{
    if len > min {
        let first: Seq<Seq<char>> = if len / 2 >= min {
            seq![prefix(v, len / 2)]
        } else {
            seq![]
        };
        let n = ((len - 1 - min) / 2 + 1) as nat;
        let rest = Seq::new(n, |k: int| prefix(v, (len - 1 - 2 * k) as nat));
        assert forall|k: int| 0 <= k < rest.len() implies #[trigger] rest[k].len() >= min by {
            assert(2 * k <= len - 1 - min);
        }
        lemma_concat_long_enough(first, rest, min);
    }
}

/// Shrinking a string never goes below the generator's least length: when the string
/// has at least `min_length` characters, so has every candidate.
pub proof fn lemma_string_shrinks_keep_min_length(
    generator: StringGenerator,
    value: String,
    candidates: Seq<String>,
)
    requires
        value@.len() >= generator.min_length,
        generator.shrinks_to(value, candidates),
    ensures
        forall|i: int|
            0 <= i < candidates.len() ==> #[trigger] candidates[i]@.len() >= generator.min_length,
{
    let min = generator.min_length as nat;
    let v = value@;
    let len = utf8_len(v);
    let simple = simple_candidates(min, len, v);
    let empty: Seq<Seq<char>> = if min == 0 && v.len() > 0 && !simple.contains(Seq::<char>::empty()) {
        seq![Seq::<char>::empty()]
    } else {
        seq![]
    };
    lemma_simple_candidates_long_enough(min, len, v);
    lemma_concat_long_enough(simple, empty, min);
    lemma_shortening_long_enough(v, len, min);
    lemma_concat_long_enough(simple + empty, shortening_candidates(v, len, min), min);
    lemma_chars_fold_long_enough(
        simple + empty + shortening_candidates(v, len, min),
        v,
        v.len(),
        generator.char_generator.view(),
        min,
    );
    assert forall|i: int| 0 <= i < candidates.len() implies #[trigger] candidates[i]@.len()
        >= generator.min_length by {
        assert(string_views(candidates)[i] == candidates[i]@);
    }
}

impl StringGenerator {
    /// Strings of printable ASCII characters with lengths in `min_length..=max_length`.
    pub fn ascii_printable(min_length: usize, max_length: usize) -> (r: Self)
        ensures
            r.char_generator.view() == seq![(' ', '~')],
            r.min_length == min_length,
            r.max_length == max_length,
    {
        StringGenerator { char_generator: CharGenerator::ascii_printable(), min_length, max_length }
    }

    /// Strings of ASCII digits and letters with lengths in `min_length..=max_length`.
    pub fn ascii_alphanumeric(min_length: usize, max_length: usize) -> (r: Self)
        ensures
            r.char_generator.view() == seq![('0', '9'), ('A', 'Z'), ('a', 'z')],
            r.min_length == min_length,
            r.max_length == max_length,
    {
        StringGenerator {
            char_generator: CharGenerator::ascii_alphanumeric(),
            min_length,
            max_length,
        }
    }

    /// Strings of characters from `char_generator` with lengths in `min_length..=max_length`.
    pub fn with_char_generator(char_generator: CharGenerator, min_length: usize, max_length: usize) -> (r:
        Self)
        ensures
            r.char_generator.view() == char_generator.view(),
            r.min_length == min_length,
            r.max_length == max_length,
    {
        StringGenerator { char_generator, min_length, max_length }
    }

    fn push_simple(&self, shrinks: &mut Vec<String>, s: &str, len: usize, v: &String)
        requires
            len == utf8_len(v@),
        ensures
            string_views(final(shrinks)@) == string_views(old(shrinks)@) + simple_piece(
                s@,
                self.min_length as nat,
                len as nat,
                v@,
            ),
    {
        let ghost before = string_views(shrinks@);
        let sl = byte_len(s);
        if sl >= self.min_length && sl <= len && !same_string(s, v.as_str()) {
            let t = String::from_str(s);
            proof {
                lemma_string_views_push(shrinks@, t);
            }
            shrinks.push(t);
        }
        assert(string_views(shrinks@) =~= before + simple_piece(
            s@,
            self.min_length as nat,
            len as nat,
            v@,
        ));
    }

    fn push_char_candidates(&self, shrinks: &mut Vec<String>, chars: &Vec<char>, i: usize)
        requires
            i < chars@.len(),
        ensures
            string_views(final(shrinks)@) == char_step(
                string_views(old(shrinks)@),
                chars@,
                i as int,
                self.char_generator.view(),
            ),
    {
        let ghost v = chars@;
        let ghost acc = string_views(shrinks@);
        let c = chars[i];
        if c != 'a' && is_alphabetic(c) {
            let s = string_with(chars, i, 'a');
            proof {
                lemma_string_views_push(shrinks@, s);
            }
            shrinks.push(s);
        }
        if c != '0' && is_numeric(c) {
            let s = string_with(chars, i, '0');
            proof {
                lemma_string_views_push(shrinks@, s);
            }
            shrinks.push(s);
        }
        if is_uppercase(c) {
            let s = string_with(chars, i, to_lowercase_first(c));
            proof {
                lemma_string_views_push(shrinks@, s);
            }
            shrinks.push(s);
        }
        let ghost a = string_views(shrinks@);
        assert(a =~= acc + (if c != 'a' && alphabetic(c) {
            seq![v.update(i as int, 'a')]
        } else {
            seq![]
        }) + (if c != '0' && numeric(c) {
            seq![v.update(i as int, '0')]
        } else {
            seq![]
        }) + (if uppercase(c) {
            seq![v.update(i as int, lowercase_first(c))]
        } else {
            seq![]
        }));
        let cands = self.char_generator.shrink(&c);
        let ghost items = cands@.map_values(|sc: char| v.update(i as int, sc));
        let mut j: usize = 0;
        while j < cands.len()
            invariant
                v == chars@,
                i < chars@.len(),
                items == cands@.map_values(|sc: char| v.update(i as int, sc)),
                j <= cands@.len(),
                string_views(shrinks@) == push_all_new(a, items.take(j as int)),
            decreases cands@.len() - j,
        {
            let s = string_with(chars, i, cands[j]);
            assert(items.take(j + 1).drop_last() =~= items.take(j as int));
            if !contains_string(shrinks, s.as_str()) {
                proof {
                    lemma_string_views_push(shrinks@, s);
                }
                shrinks.push(s);
            }
            j = j + 1;
        }
        assert(items.take(j as int) =~= items);
    }
}

impl Generator<String> for StringGenerator {
    open spec fn can_generate(&self, config: GeneratorConfig) -> bool {
        &&& self.char_generator.can_generate(config)
        &&& config.size_hint * 2 <= usize::MAX
    }

    open spec fn generates(&self, config: GeneratorConfig, value: String) -> bool {
        let max_len = if self.max_length <= config.size_hint * 2 {
            self.max_length as int
        } else {
            config.size_hint * 2
        };
        &&& if self.min_length >= max_len {
            value@.len() == self.min_length
        } else {
            self.min_length <= value@.len() <= max_len
        }
        &&& forall|i: int|
            0 <= i < value@.len() ==> self.char_generator.generates(config, #[trigger] value@[i])
    }

    open spec fn can_shrink(&self, value: String) -> bool {
        true
    }

    open spec fn shrinks_to(&self, value: String, candidates: Seq<String>) -> bool {
        string_views(candidates) == string_gen_candidates(
            self.min_length as nat,
            self.char_generator.view(),
            value@,
        )
    }

    fn generate(&self, rng: &mut StdRng, config: &GeneratorConfig) -> (r: String) {
        let doubled = config.size_hint * 2;
        let max_len = if self.max_length <= doubled {
            self.max_length
        } else {
            doubled
        };
        let length = if self.min_length >= max_len {
            self.min_length
        } else {
            usize::random_in(rng, self.min_length, max_len)
        };
        let mut out = String::new();
        let mut i: usize = 0;
        while i < length
            invariant
                i <= length,
                out@.len() == i,
                self.char_generator.can_generate(*config),
                forall|k: int| 0 <= k < i ==> self.char_generator.generates(*config, #[trigger] out@[k]),
            decreases length - i,
        {
            let c = self.char_generator.generate(rng, config);
            push_char(&mut out, c);
            i = i + 1;
        }
        out
    }

    fn shrink(&self, value: &String) -> (r: Vec<String>) {
        let ghost v = value@;
        let ghost min = self.min_length as nat;
        let len = byte_len(value.as_str());
        let mut shrinks: Vec<String> = Vec::new();
        assert(string_views(shrinks@) =~= Seq::<Seq<char>>::empty());
        self.push_simple(&mut shrinks, "", len, value);
        self.push_simple(&mut shrinks, "a", len, value);
        self.push_simple(&mut shrinks, "A", len, value);
        self.push_simple(&mut shrinks, "0", len, value);
        self.push_simple(&mut shrinks, "1", len, value);
        self.push_simple(&mut shrinks, "test", len, value);
        self.push_simple(&mut shrinks, "foo", len, value);
        self.push_simple(&mut shrinks, "x", len, value);
        let ghost simple = string_views(shrinks@);
        assert(simple =~= simple_candidates(min, len as nat, v));
        let chars = chars_of(value.as_str());
        let n = chars.len();
        proof {
            reveal_strlit("");
            assert(""@ =~= Seq::<char>::empty());
        }
        if self.min_length == 0 && n > 0 && !contains_string(&shrinks, "") {
            let e = String::new();
            proof {
                lemma_string_views_push(shrinks@, e);
            }
            shrinks.push(e);
        }
        let ghost with_empty = string_views(shrinks@);
        if len > self.min_length {
            let half = len / 2;
            if half >= self.min_length {
                let p = string_from_range(&chars, 0, if half <= n { half } else { n });
                assert(p@ == prefix(v, half as nat));
                proof {
                    lemma_string_views_push(shrinks@, p);
                }
                shrinks.push(p);
            }
            let ghost mid = string_views(shrinks@);
            assert(mid =~= with_empty + (if len / 2 >= self.min_length {
                seq![prefix(v, (len / 2) as nat)]
            } else {
                seq![]
            }));
            let count = (len - 1 - self.min_length) / 2 + 1;
            let mut k: usize = 0;
            while k < count
                invariant
                    chars@ == v,
                    n == v.len(),
                    len > self.min_length,
                    count == (len - 1 - self.min_length) / 2 + 1,
                    k <= count,
                    string_views(shrinks@) == mid + Seq::new(
                        k as nat,
                        |q: int| prefix(v, (len - 1 - 2 * q) as nat),
                    ),
                decreases count - k,
            {
                let i = len - 1 - 2 * k;
                let p = string_from_range(&chars, 0, if i <= n { i } else { n });
                assert(p@ == prefix(v, (len - 1 - 2 * k) as nat));
                proof {
                    lemma_string_views_push(shrinks@, p);
                }
                shrinks.push(p);
                assert(string_views(shrinks@) =~= mid + Seq::new(
                    (k + 1) as nat,
                    |q: int| prefix(v, (len - 1 - 2 * q) as nat),
                ));
                k = k + 1;
            }
        }
        assert(with_empty =~= simple + (if min == 0 && v.len() > 0 && !simple.contains(
            Seq::<char>::empty(),
        ) {
            seq![Seq::<char>::empty()]
        } else {
            seq![]
        }));
        assert(string_views(shrinks@) =~= simple + (if min == 0 && v.len() > 0 && !simple.contains(
            Seq::<char>::empty(),
        ) {
            seq![Seq::<char>::empty()]
        } else {
            seq![]
        }) + shortening_candidates(v, len as nat, min));
        let ghost base = string_views(shrinks@);
        let mut i: usize = 0;
        while i < n
            invariant
                chars@ == v,
                n == v.len(),
                i <= n,
                string_views(shrinks@) == chars_fold(base, v, i as nat, self.char_generator.view()),
            decreases n - i,
        {
            self.push_char_candidates(&mut shrinks, &chars, i);
            i = i + 1;
        }
        shrinks
    }
}

} // verus!

verus! {

/// Generator for the unit type.
#[derive(Debug, Clone, Copy)]
pub struct UnitGenerator;

impl Generator<()> for UnitGenerator {
    open spec fn can_generate(&self, config: GeneratorConfig) -> bool {
        true
    }

    open spec fn generates(&self, config: GeneratorConfig, value: ()) -> bool {
        true
    }

    open spec fn can_shrink(&self, value: ()) -> bool {
        true
    }

    open spec fn shrinks_to(&self, value: (), candidates: Seq<()>) -> bool {
        candidates.len() == 0
    }

    fn generate(&self, rng: &mut StdRng, config: &GeneratorConfig) -> (r: ()) {
    }

    fn shrink(&self, value: &()) -> (r: Vec<()>) {
        Vec::new()
    }
}

/// Whether `b` holds clones of the values of `a`, position by position.
pub open spec fn clones_of<T: Clone>(a: Seq<T>, b: Seq<T>) -> bool {
    a.len() == b.len() && forall|k: int| 0 <= k < a.len() ==> cloned(#[trigger] a[k], b[k])
}

/// Whether each of `bs` holds clones of the values of the sequence at its place in `as_`.
pub open spec fn all_clones_of<T: Clone>(as_: Seq<Seq<T>>, bs: Seq<Vec<T>>) -> bool {
    as_.len() == bs.len() && forall|k: int| 0 <= k < as_.len() ==> clones_of(#[trigger] as_[k], bs[k]@)
}

/// Generator for vectors whose elements come from an element generator.
#[derive(Debug)]
pub struct VecGenerator<T, G> {
    /// The generator of the elements.
    pub element_generator: G,
    /// The least length of generated vectors.
    pub min_length: usize,
    /// The greatest length of generated vectors.
    pub max_length: usize,
    /// Ties the generator to its element type.
    pub marker: core::marker::PhantomData<T>,
}

/// Structural candidates of vector shrinking: the empty vector, then the prefixes of
/// lengths `n - 1` down to `min`, when the vector is longer than `min`.
pub open spec fn truncations<T>(v: Seq<T>, min: nat) -> Seq<Seq<T>> {
    if v.len() > min {
        seq![Seq::<T>::empty()] + Seq::new(
            (v.len() - min) as nat,
            |k: int| v.take(v.len() - 1 - k),
        )
    } else {
        seq![]
    }
}

impl<T, G: Generator<T>> VecGenerator<T, G> {
    /// A generator of vectors with lengths in `min_length..=max_length`.
    pub fn new(element_generator: G, min_length: usize, max_length: usize) -> (r: Self)
        ensures
            r.element_generator == element_generator,
            r.min_length == min_length,
            r.max_length == max_length,
    {
        VecGenerator { element_generator, min_length, max_length, marker: core::marker::PhantomData }
    }
}

/// Clones of the first `len` values of `v`.
fn clone_prefix<T: Clone>(v: &Vec<T>, len: usize) -> (r: Vec<T>)
    requires
        len <= v@.len(),
    ensures
        clones_of(v@.take(len as int), r@),
{
    let mut out: Vec<T> = Vec::new();
    let mut j: usize = 0;
    while j < len
        invariant
            j <= len <= v@.len(),
            clones_of(v@.take(j as int), out@),
        decreases len - j,
    {
        let x = v[j].clone();
        out.push(x);
        assert(clones_of(v@.take(j + 1), out@)) by {
            assert forall|k: int| 0 <= k < j + 1 implies cloned(
                #[trigger] v@.take(j + 1)[k],
                out@[k],
            ) by {
                if k < j {
                    assert(v@.take(j as int)[k] == v@.take(j + 1)[k]);
                }
            }
        }
        j = j + 1;
    }
    out
}

impl<T: Clone, G: Generator<T>> Generator<Vec<T>> for VecGenerator<T, G> {
    open spec fn can_generate(&self, config: GeneratorConfig) -> bool {
        self.element_generator.can_generate(config)
    }

    open spec fn generates(&self, config: GeneratorConfig, value: Vec<T>) -> bool {
        let max_len = if self.max_length <= config.size_hint {
            self.max_length
        } else {
            config.size_hint
        };
        &&& if self.min_length >= max_len {
            value@.len() == self.min_length
        } else {
            self.min_length <= value@.len() <= max_len
        }
        &&& forall|i: int|
            0 <= i < value@.len() ==> self.element_generator.generates(config, #[trigger] value@[i])
    }

    open spec fn can_shrink(&self, value: Vec<T>) -> bool {
        forall|i: int| 0 <= i < value@.len() ==> self.element_generator.can_shrink(#[trigger] value@[i])
    }

    open spec fn shrinks_to(&self, value: Vec<T>, candidates: Seq<Vec<T>>) -> bool {
        exists|ls: Seq<Seq<T>>|
            {
                &&& ls.len() == value@.len()
                &&& forall|i: int|
                    0 <= i < ls.len() ==> self.element_generator.shrinks_to(
                        value@[i],
                        #[trigger] ls[i],
                    )
                &&& all_clones_of(
                    #[trigger] truncations(value@, self.min_length as nat) + crate::shrink::element_variants(
                        value@,
                        ls,
                        value@.len(),
                    ),
                    candidates,
                )
            }
    }

    fn generate(&self, rng: &mut StdRng, config: &GeneratorConfig) -> (r: Vec<T>) {
        let max_len = if self.max_length <= config.size_hint {
            self.max_length
        } else {
            config.size_hint
        };
        let length = if self.min_length >= max_len {
            self.min_length
        } else {
            usize::random_in(rng, self.min_length, max_len)
        };
        let mut out: Vec<T> = Vec::new();
        let mut i: usize = 0;
        while i < length
            invariant
                i <= length,
                out@.len() == i,
                self.element_generator.can_generate(*config),
                forall|k: int|
                    0 <= k < i ==> self.element_generator.generates(*config, #[trigger] out@[k]),
            decreases length - i,
        {
            let x = self.element_generator.generate(rng, config);
            out.push(x);
            i = i + 1;
        }
        out
    }

    fn shrink(&self, value: &Vec<T>) -> (r: Vec<Vec<T>>) {
        let n = value.len();
        let ghost v = value@;
        let ghost min = self.min_length as nat;
        let mut shrinks: Vec<Vec<T>> = Vec::new();
        let ghost mut expected: Seq<Seq<T>> = seq![];
        if n > self.min_length {
            shrinks.push(Vec::new());
            proof {
                expected = seq![Seq::<T>::empty()];
                assert(clones_of(Seq::<T>::empty(), shrinks@[0]@));
            }
            let mut i: usize = n;
            while i > self.min_length
                invariant
                    n == v.len(),
                    v == value@,
                    self.min_length <= i <= n,
                    expected == seq![Seq::<T>::empty()] + Seq::new(
                        (n - i) as nat,
                        |k: int| v.take(v.len() - 1 - k),
                    ),
                    all_clones_of(expected, shrinks@),
                decreases i,
            {
                i = i - 1;
                let p = clone_prefix(value, i);
                let ghost prev = shrinks@;
                shrinks.push(p);
                proof {
                    let e2 = expected.push(v.take(i as int));
                    assert(e2 =~= seq![Seq::<T>::empty()] + Seq::new(
                        (n - i) as nat,
                        |k: int| v.take(v.len() - 1 - k),
                    ));
                    assert forall|k: int| 0 <= k < e2.len() implies clones_of(
                        #[trigger] e2[k],
                        shrinks@[k]@,
                    ) by {
                        if k < expected.len() {
                            assert(shrinks@[k] == prev[k]);
                        }
                    }
                    expected = e2;
                }
            }
        }
        assert(expected =~= truncations(v, min));
        let ghost trunc = expected;
        let ghost mut ls: Seq<Seq<T>> = seq![];
        let mut i: usize = 0;
        while i < n
            invariant
                n == v.len(),
                v == value@,
                i <= n,
                ls.len() == i,
                forall|k: int|
                    0 <= k < i ==> self.element_generator.shrinks_to(v[k], #[trigger] ls[k]),
                forall|k: int| 0 <= k < n ==> self.element_generator.can_shrink(#[trigger] v[k]),
                expected == trunc + crate::shrink::element_variants(v, ls, i as nat),
                all_clones_of(expected, shrinks@),
            decreases n - i,
        {
            let element_shrinks = self.element_generator.shrink(&value[i]);
            let ghost l = element_shrinks@;
            let ghost base = expected;
            let mut j: usize = 0;
            while j < element_shrinks.len()
                invariant
                    n == v.len(),
                    v == value@,
                    i < n,
                    l == element_shrinks@,
                    j <= l.len(),
                    expected == base + l.take(j as int).map_values(|s: T| v.update(i as int, s)),
                    all_clones_of(expected, shrinks@),
                decreases l.len() - j,
            {
                let mut shrunk_vec = value.clone();
                let e = element_shrinks[j].clone();
                shrunk_vec.set(i, e);
                let ghost prev = shrinks@;
                shrinks.push(shrunk_vec);
                proof {
                    let e2 = expected.push(v.update(i as int, l[j as int]));
                    assert(l.take(j + 1).map_values(|s: T| v.update(i as int, s)) =~= l.take(
                        j as int,
                    ).map_values(|s: T| v.update(i as int, s)).push(v.update(i as int, l[j as int])));
                    assert forall|k: int| 0 <= k < e2.len() implies clones_of(
                        #[trigger] e2[k],
                        shrinks@[k]@,
                    ) by {
                        if k < expected.len() {
                            assert(shrinks@[k] == prev[k]);
                        } else {
                            assert forall|q: int| 0 <= q < v.len() implies cloned(
                                #[trigger] v.update(i as int, l[j as int])[q],
                                shrunk_vec@[q],
                            ) by {
                                if q == i {
                                } else {
                                    assert(cloned(value@[q], shrunk_vec@[q]));
                                }
                            }
                        }
                    }
                    expected = e2;
                }
                j = j + 1;
            }
            proof {
                assert(l.take(j as int) =~= l);
                crate::shrink::lemma_element_variants_prefix(v, ls, ls.push(l), i as nat);
                ls = ls.push(l);
            }
            i = i + 1;
        }
        shrinks
    }
}

} // verus!

verus! {

/// Generator for 2-tuples, one generator per component.
#[derive(Debug)]
pub struct TupleGenerator<T1, T2, G1, G2> {
    /// The generator of component 0.
    pub gen1: G1,
    /// The generator of component 1.
    pub gen2: G2,
    /// Ties the generator to its component types.
    pub marker: core::marker::PhantomData<(T1, T2)>,
}

impl<T1, T2, G1, G2> TupleGenerator<T1, T2, G1, G2> {
    /// A generator from one generator per component.
    pub fn new(gen1: G1, gen2: G2) -> (r: Self)
        ensures
            r.gen1 == gen1,
            r.gen2 == gen2,
    {
        TupleGenerator { gen1, gen2, marker: core::marker::PhantomData }
    }
}

/// Shrinking of a pair with a generator per component: each component in turn shrunk,
/// the other cloned.
pub open spec fn pair_shrinks<T1: Clone, T2: Clone, G1: Generator<T1>, G2: Generator<T2>>(
    g1: G1,
    g2: G2,
    value: (T1, T2),
    candidates: Seq<(T1, T2)>,
) -> bool {
        exists|l0: Seq<T1>, l1: Seq<T2>|
            #![trigger g1.shrinks_to(value.0, l0), g2.shrinks_to(value.1, l1)]
            {
                &&& g1.shrinks_to(value.0, l0) && g2.shrinks_to(value.1, l1)
                &&& candidates.len() == l0.len() + l1.len()
                &&& forall|j: int| 0 <= j < l0.len() ==> { let c = #[trigger] candidates[0 + j]; cloned(l0[j], c.0) && cloned(value.1, c.1) }
                &&& forall|j: int| 0 <= j < l1.len() ==> { let c = #[trigger] candidates[l0.len() + j]; cloned(value.0, c.0) && cloned(l1[j], c.1) }
            }
    }

/// The shrink candidates of a pair with a generator per component.
fn shrink_pair<T1: Clone, T2: Clone, G1: Generator<T1>, G2: Generator<T2>>(
    g1: &G1,
    g2: &G2,
    value: &(T1, T2),
) -> (r: Vec<(T1, T2)>)
    requires
        g1.can_shrink(value.0),
        g2.can_shrink(value.1),
    ensures
        pair_shrinks(*g1, *g2, *value, r@),
{
    let mut shrinks: Vec<(T1, T2)> = Vec::new();
    let s0 = g1.shrink(&value.0);
    let mut j: usize = 0;
    while j < s0.len()
        invariant
            j <= s0@.len(),
            shrinks@.len() == j,
            forall|q: int| 0 <= q < j ==> { let c = #[trigger] shrinks@[0 + q]; cloned(s0@[q], c.0) && cloned(value.1, c.1) },
        decreases s0@.len() - j,
    {
        let x = s0[j].clone();
        let t = (x, value.1.clone());
        shrinks.push(t);
        j = j + 1;
    }
    let s1 = g2.shrink(&value.1);
    let mut j: usize = 0;
    while j < s1.len()
        invariant
            j <= s1@.len(),
            shrinks@.len() == s0@.len() + j,
            forall|p: int| 0 <= p < s0@.len() ==> { let c = #[trigger] shrinks@[0 + p]; cloned(s0@[p], c.0) && cloned(value.1, c.1) },
            forall|q: int| 0 <= q < j ==> { let c = #[trigger] shrinks@[s0@.len() + q]; cloned(value.0, c.0) && cloned(s1@[q], c.1) },
        decreases s1@.len() - j,
    {
        let x = s1[j].clone();
        let t = (value.0.clone(), x);
        shrinks.push(t);
        j = j + 1;
    }
    shrinks
}

impl<T1: Clone, T2: Clone, G1: Generator<T1>, G2: Generator<T2>> Generator<(T1, T2)> for TupleGenerator<T1, T2, G1, G2> {
open spec fn can_generate(&self, config: GeneratorConfig) -> bool {
    self.gen1.can_generate(config) && self.gen2.can_generate(config)
}

open spec fn generates(&self, config: GeneratorConfig, value: (T1, T2)) -> bool {
    self.gen1.generates(config, value.0) && self.gen2.generates(config, value.1)
}

open spec fn can_shrink(&self, value: (T1, T2)) -> bool {
    self.gen1.can_shrink(value.0) && self.gen2.can_shrink(value.1)
}

/// Each component in turn shrunk, the others cloned.
open spec fn shrinks_to(&self, value: (T1, T2), candidates: Seq<(T1, T2)>) -> bool {
    pair_shrinks(self.gen1, self.gen2, value, candidates)
}

fn generate(&self, rng: &mut StdRng, config: &GeneratorConfig) -> (r: (T1, T2)) {
    (self.gen1.generate(rng, config), self.gen2.generate(rng, config))
}

fn shrink(&self, value: &(T1, T2)) -> (r: Vec<(T1, T2)>) {
    shrink_pair(&self.gen1, &self.gen2, value)
}
}

/// Generator for 3-tuples, one generator per component.
#[derive(Debug)]
pub struct Tuple3Generator<T1, T2, T3, G1, G2, G3> {
    /// The generator of component 0.
    pub gen1: G1,
    /// The generator of component 1.
    pub gen2: G2,
    /// The generator of component 2.
    pub gen3: G3,
    /// Ties the generator to its component types.
    pub marker: core::marker::PhantomData<(T1, T2, T3)>,
}

impl<T1, T2, T3, G1, G2, G3> Tuple3Generator<T1, T2, T3, G1, G2, G3> {
    /// A generator from one generator per component.
    pub fn new(gen1: G1, gen2: G2, gen3: G3) -> (r: Self)
        ensures
            r.gen1 == gen1,
            r.gen2 == gen2,
            r.gen3 == gen3,
    {
        Tuple3Generator { gen1, gen2, gen3, marker: core::marker::PhantomData }
    }
}

/// Shrinking of a triple with a generator per component: each component in turn shrunk,
/// the others cloned.
pub open spec fn triple_shrinks<T1: Clone, T2: Clone, T3: Clone, G1: Generator<T1>, G2: Generator<T2>, G3: Generator<T3>>(
    g1: G1,
    g2: G2,
    g3: G3,
    value: (T1, T2, T3),
    candidates: Seq<(T1, T2, T3)>,
) -> bool {
        exists|l0: Seq<T1>, l1: Seq<T2>, l2: Seq<T3>|
            #![trigger g1.shrinks_to(value.0, l0), g2.shrinks_to(value.1, l1), g3.shrinks_to(value.2, l2)]
            {
                &&& g1.shrinks_to(value.0, l0) && g2.shrinks_to(value.1, l1) && g3.shrinks_to(value.2, l2)
                &&& candidates.len() == l0.len() + l1.len() + l2.len()
                &&& forall|j: int| 0 <= j < l0.len() ==> { let c = #[trigger] candidates[0 + j]; cloned(l0[j], c.0) && cloned(value.1, c.1) && cloned(value.2, c.2) }
                &&& forall|j: int| 0 <= j < l1.len() ==> { let c = #[trigger] candidates[l0.len() + j]; cloned(value.0, c.0) && cloned(l1[j], c.1) && cloned(value.2, c.2) }
                &&& forall|j: int| 0 <= j < l2.len() ==> { let c = #[trigger] candidates[l0.len() + l1.len() + j]; cloned(value.0, c.0) && cloned(value.1, c.1) && cloned(l2[j], c.2) }
            }
    }

/// The shrink candidates of a triple with a generator per component.
fn shrink_triple<T1: Clone, T2: Clone, T3: Clone, G1: Generator<T1>, G2: Generator<T2>, G3: Generator<T3>>(
    g1: &G1,
    g2: &G2,
    g3: &G3,
    value: &(T1, T2, T3),
) -> (r: Vec<(T1, T2, T3)>)
    requires
        g1.can_shrink(value.0),
        g2.can_shrink(value.1),
        g3.can_shrink(value.2),
    ensures
        triple_shrinks(*g1, *g2, *g3, *value, r@),
{
    let mut shrinks: Vec<(T1, T2, T3)> = Vec::new();
    let s0 = g1.shrink(&value.0);
    let mut j: usize = 0;
    while j < s0.len()
        invariant
            j <= s0@.len(),
            shrinks@.len() == j,
            forall|q: int| 0 <= q < j ==> { let c = #[trigger] shrinks@[0 + q]; cloned(s0@[q], c.0) && cloned(value.1, c.1) && cloned(value.2, c.2) },
        decreases s0@.len() - j,
    {
        let x = s0[j].clone();
        let t = (x, value.1.clone(), value.2.clone());
        shrinks.push(t);
        j = j + 1;
    }
    let s1 = g2.shrink(&value.1);
    let mut j: usize = 0;
    while j < s1.len()
        invariant
            j <= s1@.len(),
            shrinks@.len() == s0@.len() + j,
            forall|p: int| 0 <= p < s0@.len() ==> { let c = #[trigger] shrinks@[0 + p]; cloned(s0@[p], c.0) && cloned(value.1, c.1) && cloned(value.2, c.2) },
            forall|q: int| 0 <= q < j ==> { let c = #[trigger] shrinks@[s0@.len() + q]; cloned(value.0, c.0) && cloned(s1@[q], c.1) && cloned(value.2, c.2) },
        decreases s1@.len() - j,
    {
        let x = s1[j].clone();
        let t = (value.0.clone(), x, value.2.clone());
        shrinks.push(t);
        j = j + 1;
    }
    let s2 = g3.shrink(&value.2);
    let mut j: usize = 0;
    while j < s2.len()
        invariant
            j <= s2@.len(),
            shrinks@.len() == s0@.len() + s1@.len() + j,
            forall|p: int| 0 <= p < s0@.len() ==> { let c = #[trigger] shrinks@[0 + p]; cloned(s0@[p], c.0) && cloned(value.1, c.1) && cloned(value.2, c.2) },
            forall|p: int| 0 <= p < s1@.len() ==> { let c = #[trigger] shrinks@[s0@.len() + p]; cloned(value.0, c.0) && cloned(s1@[p], c.1) && cloned(value.2, c.2) },
            forall|q: int| 0 <= q < j ==> { let c = #[trigger] shrinks@[s0@.len() + s1@.len() + q]; cloned(value.0, c.0) && cloned(value.1, c.1) && cloned(s2@[q], c.2) },
        decreases s2@.len() - j,
    {
        let x = s2[j].clone();
        let t = (value.0.clone(), value.1.clone(), x);
        shrinks.push(t);
        j = j + 1;
    }
    shrinks
}

impl<T1: Clone, T2: Clone, T3: Clone, G1: Generator<T1>, G2: Generator<T2>, G3: Generator<T3>> Generator<(T1, T2, T3)> for Tuple3Generator<T1, T2, T3, G1, G2, G3> {
open spec fn can_generate(&self, config: GeneratorConfig) -> bool {
    self.gen1.can_generate(config) && self.gen2.can_generate(config) && self.gen3.can_generate(config)
}

open spec fn generates(&self, config: GeneratorConfig, value: (T1, T2, T3)) -> bool {
    self.gen1.generates(config, value.0) && self.gen2.generates(config, value.1) && self.gen3.generates(config, value.2)
}

open spec fn can_shrink(&self, value: (T1, T2, T3)) -> bool {
    self.gen1.can_shrink(value.0) && self.gen2.can_shrink(value.1) && self.gen3.can_shrink(value.2)
}

/// Each component in turn shrunk, the others cloned.
open spec fn shrinks_to(&self, value: (T1, T2, T3), candidates: Seq<(T1, T2, T3)>) -> bool {
    triple_shrinks(self.gen1, self.gen2, self.gen3, value, candidates)
}

fn generate(&self, rng: &mut StdRng, config: &GeneratorConfig) -> (r: (T1, T2, T3)) {
    (self.gen1.generate(rng, config), self.gen2.generate(rng, config), self.gen3.generate(rng, config))
}

fn shrink(&self, value: &(T1, T2, T3)) -> (r: Vec<(T1, T2, T3)>) {
    shrink_triple(&self.gen1, &self.gen2, &self.gen3, value)
}
}

/// A pair of generators generates pairs: each component from its generator.
impl<A: Clone, B: Clone, GA: Generator<A>, GB: Generator<B>> Generator<(A, B)> for (GA, GB) {
    open spec fn can_generate(&self, config: GeneratorConfig) -> bool {
        self.0.can_generate(config) && self.1.can_generate(config)
    }

    open spec fn generates(&self, config: GeneratorConfig, value: (A, B)) -> bool {
        self.0.generates(config, value.0) && self.1.generates(config, value.1)
    }

    open spec fn can_shrink(&self, value: (A, B)) -> bool {
        self.0.can_shrink(value.0) && self.1.can_shrink(value.1)
    }

    /// Each component in turn shrunk, the other cloned.
    open spec fn shrinks_to(&self, value: (A, B), candidates: Seq<(A, B)>) -> bool {
        pair_shrinks(self.0, self.1, value, candidates)
    }

    fn generate(&self, rng: &mut StdRng, config: &GeneratorConfig) -> (r: (A, B)) {
        (self.0.generate(rng, config), self.1.generate(rng, config))
    }

    fn shrink(&self, value: &(A, B)) -> (r: Vec<(A, B)>) {
        shrink_pair(&self.0, &self.1, value)
    }
}

/// A triple of generators generates triples: each component from its generator.
impl<A: Clone, B: Clone, C: Clone, GA: Generator<A>, GB: Generator<B>, GC: Generator<C>> Generator<
    (A, B, C),
> for (GA, GB, GC) {
    open spec fn can_generate(&self, config: GeneratorConfig) -> bool {
        self.0.can_generate(config) && self.1.can_generate(config) && self.2.can_generate(config)
    }

    open spec fn generates(&self, config: GeneratorConfig, value: (A, B, C)) -> bool {
        self.0.generates(config, value.0) && self.1.generates(config, value.1) && self.2.generates(
            config,
            value.2,
        )
    }

    open spec fn can_shrink(&self, value: (A, B, C)) -> bool {
        self.0.can_shrink(value.0) && self.1.can_shrink(value.1) && self.2.can_shrink(value.2)
    }

    /// Each component in turn shrunk, the others cloned.
    open spec fn shrinks_to(&self, value: (A, B, C), candidates: Seq<(A, B, C)>) -> bool {
        triple_shrinks(self.0, self.1, self.2, value, candidates)
    }

    fn generate(&self, rng: &mut StdRng, config: &GeneratorConfig) -> (r: (A, B, C)) {
        (self.0.generate(rng, config), self.1.generate(rng, config), self.2.generate(rng, config))
    }

    fn shrink(&self, value: &(A, B, C)) -> (r: Vec<(A, B, C)>) {
        shrink_triple(&self.0, &self.1, &self.2, value)
    }
}

/// Generator for 4-tuples, one generator per component.
#[derive(Debug)]
pub struct Tuple4Generator<T1, T2, T3, T4, G1, G2, G3, G4> {
    /// The generator of component 0.
    pub gen1: G1,
    /// The generator of component 1.
    pub gen2: G2,
    /// The generator of component 2.
    pub gen3: G3,
    /// The generator of component 3.
    pub gen4: G4,
    /// Ties the generator to its component types.
    pub marker: core::marker::PhantomData<(T1, T2, T3, T4)>,
}

impl<T1, T2, T3, T4, G1, G2, G3, G4> Tuple4Generator<T1, T2, T3, T4, G1, G2, G3, G4> {
    /// A generator from one generator per component.
    pub fn new(gen1: G1, gen2: G2, gen3: G3, gen4: G4) -> (r: Self)
        ensures
            r.gen1 == gen1,
            r.gen2 == gen2,
            r.gen3 == gen3,
            r.gen4 == gen4,
    {
        Tuple4Generator { gen1, gen2, gen3, gen4, marker: core::marker::PhantomData }
    }
}

impl<T1: Clone, T2: Clone, T3: Clone, T4: Clone, G1: Generator<T1>, G2: Generator<T2>, G3: Generator<T3>, G4: Generator<T4>> Generator<(T1, T2, T3, T4)> for Tuple4Generator<T1, T2, T3, T4, G1, G2, G3, G4> {
    open spec fn can_generate(&self, config: GeneratorConfig) -> bool {
        self.gen1.can_generate(config) && self.gen2.can_generate(config) && self.gen3.can_generate(config) && self.gen4.can_generate(config)
    }

    open spec fn generates(&self, config: GeneratorConfig, value: (T1, T2, T3, T4)) -> bool {
        self.gen1.generates(config, value.0) && self.gen2.generates(config, value.1) && self.gen3.generates(config, value.2) && self.gen4.generates(config, value.3)
    }

    open spec fn can_shrink(&self, value: (T1, T2, T3, T4)) -> bool {
        self.gen1.can_shrink(value.0) && self.gen2.can_shrink(value.1) && self.gen3.can_shrink(value.2) && self.gen4.can_shrink(value.3)
    }

    /// Each component in turn shrunk, the others cloned.
    open spec fn shrinks_to(&self, value: (T1, T2, T3, T4), candidates: Seq<(T1, T2, T3, T4)>) -> bool {
        exists|l0: Seq<T1>, l1: Seq<T2>, l2: Seq<T3>, l3: Seq<T4>|
            #![trigger self.gen1.shrinks_to(value.0, l0), self.gen2.shrinks_to(value.1, l1), self.gen3.shrinks_to(value.2, l2), self.gen4.shrinks_to(value.3, l3)]
            {
                &&& self.gen1.shrinks_to(value.0, l0) && self.gen2.shrinks_to(value.1, l1) && self.gen3.shrinks_to(value.2, l2) && self.gen4.shrinks_to(value.3, l3)
                &&& candidates.len() == l0.len() + l1.len() + l2.len() + l3.len()
                &&& forall|j: int| 0 <= j < l0.len() ==> { let c = #[trigger] candidates[0 + j]; cloned(l0[j], c.0) && cloned(value.1, c.1) && cloned(value.2, c.2) && cloned(value.3, c.3) }
                &&& forall|j: int| 0 <= j < l1.len() ==> { let c = #[trigger] candidates[l0.len() + j]; cloned(value.0, c.0) && cloned(l1[j], c.1) && cloned(value.2, c.2) && cloned(value.3, c.3) }
                &&& forall|j: int| 0 <= j < l2.len() ==> { let c = #[trigger] candidates[l0.len() + l1.len() + j]; cloned(value.0, c.0) && cloned(value.1, c.1) && cloned(l2[j], c.2) && cloned(value.3, c.3) }
                &&& forall|j: int| 0 <= j < l3.len() ==> { let c = #[trigger] candidates[l0.len() + l1.len() + l2.len() + j]; cloned(value.0, c.0) && cloned(value.1, c.1) && cloned(value.2, c.2) && cloned(l3[j], c.3) }
            }
    }

    fn generate(&self, rng: &mut StdRng, config: &GeneratorConfig) -> (r: (T1, T2, T3, T4)) {
        (self.gen1.generate(rng, config), self.gen2.generate(rng, config), self.gen3.generate(rng, config), self.gen4.generate(rng, config))
    }

    fn shrink(&self, value: &(T1, T2, T3, T4)) -> (r: Vec<(T1, T2, T3, T4)>) {
        let mut shrinks: Vec<(T1, T2, T3, T4)> = Vec::new();
        let s0 = self.gen1.shrink(&value.0);
        let mut j: usize = 0;
        while j < s0.len()
            invariant
                j <= s0@.len(),
                shrinks@.len() == j,
                
                forall|q: int| 0 <= q < j ==> { let c = #[trigger] shrinks@[0 + q]; cloned(s0@[q], c.0) && cloned(value.1, c.1) && cloned(value.2, c.2) && cloned(value.3, c.3) },
            decreases s0@.len() - j,
        {
            let x = s0[j].clone();
            let t = (x, value.1.clone(), value.2.clone(), value.3.clone());
            shrinks.push(t);
            j = j + 1;
        }
        let s1 = self.gen2.shrink(&value.1);
        let mut j: usize = 0;
        while j < s1.len()
            invariant
                j <= s1@.len(),
                shrinks@.len() == s0@.len() + j,
                forall|p: int| 0 <= p < s0@.len() ==> { let c = #[trigger] shrinks@[0 + p]; cloned(s0@[p], c.0) && cloned(value.1, c.1) && cloned(value.2, c.2) && cloned(value.3, c.3) },
                forall|q: int| 0 <= q < j ==> { let c = #[trigger] shrinks@[s0@.len() + q]; cloned(value.0, c.0) && cloned(s1@[q], c.1) && cloned(value.2, c.2) && cloned(value.3, c.3) },
            decreases s1@.len() - j,
        {
            let x = s1[j].clone();
            let t = (value.0.clone(), x, value.2.clone(), value.3.clone());
            shrinks.push(t);
            j = j + 1;
        }
        let s2 = self.gen3.shrink(&value.2);
        let mut j: usize = 0;
        while j < s2.len()
            invariant
                j <= s2@.len(),
                shrinks@.len() == s0@.len() + s1@.len() + j,
                forall|p: int| 0 <= p < s0@.len() ==> { let c = #[trigger] shrinks@[0 + p]; cloned(s0@[p], c.0) && cloned(value.1, c.1) && cloned(value.2, c.2) && cloned(value.3, c.3) },
                forall|p: int| 0 <= p < s1@.len() ==> { let c = #[trigger] shrinks@[s0@.len() + p]; cloned(value.0, c.0) && cloned(s1@[p], c.1) && cloned(value.2, c.2) && cloned(value.3, c.3) },
                forall|q: int| 0 <= q < j ==> { let c = #[trigger] shrinks@[s0@.len() + s1@.len() + q]; cloned(value.0, c.0) && cloned(value.1, c.1) && cloned(s2@[q], c.2) && cloned(value.3, c.3) },
            decreases s2@.len() - j,
        {
            let x = s2[j].clone();
            let t = (value.0.clone(), value.1.clone(), x, value.3.clone());
            shrinks.push(t);
            j = j + 1;
        }
        let s3 = self.gen4.shrink(&value.3);
        let mut j: usize = 0;
        while j < s3.len()
            invariant
                j <= s3@.len(),
                shrinks@.len() == s0@.len() + s1@.len() + s2@.len() + j,
                forall|p: int| 0 <= p < s0@.len() ==> { let c = #[trigger] shrinks@[0 + p]; cloned(s0@[p], c.0) && cloned(value.1, c.1) && cloned(value.2, c.2) && cloned(value.3, c.3) },
                forall|p: int| 0 <= p < s1@.len() ==> { let c = #[trigger] shrinks@[s0@.len() + p]; cloned(value.0, c.0) && cloned(s1@[p], c.1) && cloned(value.2, c.2) && cloned(value.3, c.3) },
                forall|p: int| 0 <= p < s2@.len() ==> { let c = #[trigger] shrinks@[s0@.len() + s1@.len() + p]; cloned(value.0, c.0) && cloned(value.1, c.1) && cloned(s2@[p], c.2) && cloned(value.3, c.3) },
                forall|q: int| 0 <= q < j ==> { let c = #[trigger] shrinks@[s0@.len() + s1@.len() + s2@.len() + q]; cloned(value.0, c.0) && cloned(value.1, c.1) && cloned(value.2, c.2) && cloned(s3@[q], c.3) },
            decreases s3@.len() - j,
        {
            let x = s3[j].clone();
            let t = (value.0.clone(), value.1.clone(), value.2.clone(), x);
            shrinks.push(t);
            j = j + 1;
        }
        shrinks
    }
}

} // verus!

verus! {

/// The default strategy for booleans.
#[derive(Debug, Clone, Copy)]
pub struct BoolStrategy;

impl Generator<bool> for BoolStrategy {
    open spec fn can_generate(&self, config: GeneratorConfig) -> bool {
        BoolGenerator.can_generate(config)
    }

    open spec fn generates(&self, config: GeneratorConfig, value: bool) -> bool {
        BoolGenerator.generates(config, value)
    }

    open spec fn can_shrink(&self, value: bool) -> bool {
        BoolGenerator.can_shrink(value)
    }

    open spec fn shrinks_to(&self, value: bool, candidates: Seq<bool>) -> bool {
        BoolGenerator.shrinks_to(value, candidates)
    }

    fn generate(&self, rng: &mut StdRng, config: &GeneratorConfig) -> (r: bool) {
        BoolGenerator.generate(rng, config)
    }

    fn shrink(&self, value: &bool) -> (r: Vec<bool>) {
        BoolGenerator.shrink(value)
    }
}

/// The default strategy for `i32`: an integer generator over a range.
#[derive(Debug, Clone, Copy)]
pub struct I32Strategy {
    /// The generator in use.
    pub generator: IntGenerator<i32>,
}

impl I32Strategy {
    /// Integers in `min..=max`.
    pub fn new(min: i32, max: i32) -> (r: Self)
        ensures
            r.generator.bounds() == (min as int, max as int),
    {
        I32Strategy { generator: IntGenerator::new(min, max) }
    }

    /// Integers over the whole range of `i32`.
    pub fn full_range() -> (r: Self)
        ensures
            r.generator.bounds() == (i32::MIN as int, i32::MAX as int),
    {
        I32Strategy { generator: IntGenerator::<i32>::full_range() }
    }
}

impl Generator<i32> for I32Strategy {
    open spec fn can_generate(&self, config: GeneratorConfig) -> bool {
        self.generator.can_generate(config)
    }

    open spec fn generates(&self, config: GeneratorConfig, value: i32) -> bool {
        self.generator.generates(config, value)
    }

    open spec fn can_shrink(&self, value: i32) -> bool {
        self.generator.can_shrink(value)
    }

    open spec fn shrinks_to(&self, value: i32, candidates: Seq<i32>) -> bool {
        self.generator.shrinks_to(value, candidates)
    }

    fn generate(&self, rng: &mut StdRng, config: &GeneratorConfig) -> (r: i32) {
        self.generator.generate(rng, config)
    }

    fn shrink(&self, value: &i32) -> (r: Vec<i32>) {
        self.generator.shrink(value)
    }
}

/// The default strategy for `u32`: an integer generator over a range.
#[derive(Debug, Clone, Copy)]
pub struct U32Strategy {
    /// The generator in use.
    pub generator: IntGenerator<u32>,
}

impl U32Strategy {
    /// Integers in `min..=max`.
    pub fn new(min: u32, max: u32) -> (r: Self)
        ensures
            r.generator.bounds() == (min as int, max as int),
    {
        U32Strategy { generator: IntGenerator::new(min, max) }
    }

    /// Integers over the whole range of `u32`.
    pub fn full_range() -> (r: Self)
        ensures
            r.generator.bounds() == (0int, u32::MAX as int),
    {
        U32Strategy { generator: IntGenerator::<u32>::full_range() }
    }
}

impl Generator<u32> for U32Strategy {
    open spec fn can_generate(&self, config: GeneratorConfig) -> bool {
        self.generator.can_generate(config)
    }

    open spec fn generates(&self, config: GeneratorConfig, value: u32) -> bool {
        self.generator.generates(config, value)
    }

    open spec fn can_shrink(&self, value: u32) -> bool {
        self.generator.can_shrink(value)
    }

    open spec fn shrinks_to(&self, value: u32, candidates: Seq<u32>) -> bool {
        self.generator.shrinks_to(value, candidates)
    }

    fn generate(&self, rng: &mut StdRng, config: &GeneratorConfig) -> (r: u32) {
        self.generator.generate(rng, config)
    }

    fn shrink(&self, value: &u32) -> (r: Vec<u32>) {
        self.generator.shrink(value)
    }
}

/// The default strategy for characters: a character generator.
#[derive(Debug, Clone)]
pub struct CharStrategy {
    /// The generator in use.
    pub generator: CharGenerator,
}

impl CharStrategy {
    /// Printable ASCII characters.
    pub fn ascii_printable() -> (r: Self)
        ensures
            r.generator.view() == seq![(' ', '~')],
    {
        CharStrategy { generator: CharGenerator::ascii_printable() }
    }

    /// ASCII digits and letters.
    pub fn ascii_alphanumeric() -> (r: Self)
        ensures
            r.generator.view() == seq![('0', '9'), ('A', 'Z'), ('a', 'z')],
    {
        CharStrategy { generator: CharGenerator::ascii_alphanumeric() }
    }

    /// Characters from custom ranges.
    pub fn with_ranges(ranges: Vec<(char, char)>) -> (r: Self)
        ensures
            r.generator.view() == ranges@,
    {
        CharStrategy { generator: CharGenerator::with_ranges(ranges) }
    }
}

impl Generator<char> for CharStrategy {
    open spec fn can_generate(&self, config: GeneratorConfig) -> bool {
        self.generator.can_generate(config)
    }

    open spec fn generates(&self, config: GeneratorConfig, value: char) -> bool {
        self.generator.generates(config, value)
    }

    open spec fn can_shrink(&self, value: char) -> bool {
        self.generator.can_shrink(value)
    }

    open spec fn shrinks_to(&self, value: char, candidates: Seq<char>) -> bool {
        self.generator.shrinks_to(value, candidates)
    }

    fn generate(&self, rng: &mut StdRng, config: &GeneratorConfig) -> (r: char) {
        self.generator.generate(rng, config)
    }

    fn shrink(&self, value: &char) -> (r: Vec<char>) {
        self.generator.shrink(value)
    }
}

/// The default strategy for strings: a string generator.
#[derive(Debug, Clone)]
pub struct StringStrategy {
    /// The generator in use.
    pub generator: StringGenerator,
}

impl StringStrategy {
    /// Printable ASCII strings with lengths in `min_length..=max_length`.
    pub fn ascii_printable(min_length: usize, max_length: usize) -> (r: Self)
        ensures
            r.generator.char_generator.view() == seq![(' ', '~')],
            r.generator.min_length == min_length,
            r.generator.max_length == max_length,
    {
        StringStrategy { generator: StringGenerator::ascii_printable(min_length, max_length) }
    }

    /// ASCII alphanumeric strings with lengths in `min_length..=max_length`.
    pub fn ascii_alphanumeric(min_length: usize, max_length: usize) -> (r: Self)
        ensures
            r.generator.char_generator.view() == seq![('0', '9'), ('A', 'Z'), ('a', 'z')],
            r.generator.min_length == min_length,
            r.generator.max_length == max_length,
    {
        StringStrategy { generator: StringGenerator::ascii_alphanumeric(min_length, max_length) }
    }

    /// Strings of characters from `char_strategy`.
    pub fn with_char_strategy(char_strategy: CharStrategy, min_length: usize, max_length: usize) -> (r:
        Self)
        ensures
            r.generator.char_generator.view() == char_strategy.generator.view(),
            r.generator.min_length == min_length,
            r.generator.max_length == max_length,
    {
        StringStrategy {
            generator: StringGenerator::with_char_generator(
                char_strategy.generator,
                min_length,
                max_length,
            ),
        }
    }
}

impl Generator<String> for StringStrategy {
    open spec fn can_generate(&self, config: GeneratorConfig) -> bool {
        self.generator.can_generate(config)
    }

    open spec fn generates(&self, config: GeneratorConfig, value: String) -> bool {
        self.generator.generates(config, value)
    }

    open spec fn can_shrink(&self, value: String) -> bool {
        self.generator.can_shrink(value)
    }

    open spec fn shrinks_to(&self, value: String, candidates: Seq<String>) -> bool {
        self.generator.shrinks_to(value, candidates)
    }

    fn generate(&self, rng: &mut StdRng, config: &GeneratorConfig) -> (r: String) {
        self.generator.generate(rng, config)
    }

    fn shrink(&self, value: &String) -> (r: Vec<String>) {
        self.generator.shrink(value)
    }
}

} // verus!

verus! {

/// Probabilities are given in millionths: `PROBABILITY_SCALE` is certainty.
pub const PROBABILITY_SCALE: u32 = 1000000;

/// Whether a draw below `PROBABILITY_SCALE` may be under `p` (a draw can give `true`).
pub open spec fn may_hit(p: u32) -> bool {
    p > 0
}

/// Whether a draw below `PROBABILITY_SCALE` may be at least `p` (a draw can give `false`).
pub open spec fn may_miss(p: u32) -> bool {
    p < PROBABILITY_SCALE
}

/// A draw that is `true` with probability `p` millionths.
fn draw_under(rng: &mut StdRng, p: u32) -> (r: bool)
    ensures
        r ==> may_hit(p),
        !r ==> may_miss(p),
{
    let n: usize = 1000000;
    let x = random_index(rng, n);
    x < p as usize
}

/// Generator for `Option<T>`: `Some` of a generated value with a given probability,
/// otherwise `None`.
#[derive(Debug)]
pub struct OptionGenerator<T, G> {
    /// The generator of the values in `Some`.
    pub inner_gen: G,
    /// The probability of `Some`, in millionths (at most `PROBABILITY_SCALE`).
    pub some_probability: u32,
    /// Ties the generator to its value type.
    pub marker: core::marker::PhantomData<T>,
}

impl<T, G> OptionGenerator<T, G> {
    /// `Some` and `None` equally likely.
    pub fn new(inner_gen: G) -> (r: Self)
        ensures
            r.inner_gen == inner_gen,
            r.some_probability == PROBABILITY_SCALE / 2,
    {
        OptionGenerator { inner_gen, some_probability: 500000, marker: core::marker::PhantomData }
    }

    /// `Some` with probability `some_probability` millionths, clamped to certainty.
    pub fn with_probability(inner_gen: G, some_probability: u32) -> (r: Self)
        ensures
            r.inner_gen == inner_gen,
            r.some_probability == if some_probability <= PROBABILITY_SCALE {
                some_probability
            } else {
                PROBABILITY_SCALE
            },
    {
        let p = if some_probability <= 1000000 {
            some_probability
        } else {
            1000000
        };
        OptionGenerator { inner_gen, some_probability: p, marker: core::marker::PhantomData }
    }
}

/// Shrinking of an option: nothing for `None`; for `Some(v)`, `None` first, then `Some`
/// of each candidate of `v`.
pub open spec fn option_shrinks<T>(value: Option<T>, inner: Seq<T>, candidates: Seq<Option<T>>) -> bool {
    match value {
        None => candidates.len() == 0,
        Some(_) => candidates == seq![None::<T>] + inner.map_values(|x: T| Some(x)),
    }
}

impl<T, G: Generator<T>> Generator<Option<T>> for OptionGenerator<T, G> {
    open spec fn can_generate(&self, config: GeneratorConfig) -> bool {
        may_hit(self.some_probability) ==> self.inner_gen.can_generate(config)
    }

    open spec fn generates(&self, config: GeneratorConfig, value: Option<T>) -> bool {
        match value {
            Some(v) => may_hit(self.some_probability) && self.inner_gen.generates(config, v),
            None => may_miss(self.some_probability),
        }
    }

    open spec fn can_shrink(&self, value: Option<T>) -> bool {
        value matches Some(v) ==> self.inner_gen.can_shrink(v)
    }

    open spec fn shrinks_to(&self, value: Option<T>, candidates: Seq<Option<T>>) -> bool {
        match value {
            None => candidates.len() == 0,
            Some(v) => exists|inner: Seq<T>|
                #[trigger] self.inner_gen.shrinks_to(v, inner) && option_shrinks(value, inner, candidates),
        }
    }

    fn generate(&self, rng: &mut StdRng, config: &GeneratorConfig) -> (r: Option<T>) {
        if draw_under(rng, self.some_probability) {
            Some(self.inner_gen.generate(rng, config))
        } else {
            None
        }
    }

    fn shrink(&self, value: &Option<T>) -> (r: Vec<Option<T>>) {
        match value {
            None => Vec::new(),
            Some(v) => {
                let inner = self.inner_gen.shrink(v);
                let mut shrinks: Vec<Option<T>> = Vec::new();
                shrinks.push(None);
                let ghost whole = inner@;
                let mut rest = into_somes(inner);
                shrinks.append(&mut rest);
                assert(option_shrinks(*value, whole, shrinks@));
                shrinks
            }
        }
    }
}

/// The values, each wrapped in `Some`, in order.
fn into_somes<T>(items: Vec<T>) -> (r: Vec<Option<T>>)
    ensures
        r@ == items@.map_values(|x: T| Some(x)),
{
    let mut items = items;
    let ghost whole = items@;
    let mut rest: Vec<Option<T>> = Vec::new();
    while items.len() > 0
        invariant
            rest@.len() + items@.len() == whole.len(),
            items@ == whole.subrange(rest@.len() as int, whole.len() as int),
            forall|i: int| 0 <= i < rest@.len() ==> rest@[i] == Some(#[trigger] whole[i]),
        decreases items@.len(),
    {
        let ghost k = rest@.len();
        let x = items.remove(0);
        assert(x == whole[k as int]);
        rest.push(Some(x));
    }
    assert(rest@ =~= whole.map_values(|x: T| Some(x)));
    rest
}

/// The values, each wrapped in `Ok`, in order.
fn into_oks<T, E>(items: Vec<T>) -> (r: Vec<Result<T, E>>)
    ensures
        r@ == items@.map_values(|x: T| Ok::<T, E>(x)),
{
    let mut items = items;
    let ghost whole = items@;
    let mut rest: Vec<Result<T, E>> = Vec::new();
    while items.len() > 0
        invariant
            rest@.len() + items@.len() == whole.len(),
            items@ == whole.subrange(rest@.len() as int, whole.len() as int),
            forall|i: int| 0 <= i < rest@.len() ==> rest@[i] == Ok::<T, E>(#[trigger] whole[i]),
        decreases items@.len(),
    {
        let ghost k = rest@.len();
        let x = items.remove(0);
        assert(x == whole[k as int]);
        rest.push(Ok(x));
    }
    assert(rest@ =~= whole.map_values(|x: T| Ok::<T, E>(x)));
    rest
}

/// The values, each wrapped in `Err`, in order.
fn into_errs<T, E>(items: Vec<E>) -> (r: Vec<Result<T, E>>)
    ensures
        r@ == items@.map_values(|x: E| Err::<T, E>(x)),
{
    let mut items = items;
    let ghost whole = items@;
    let mut rest: Vec<Result<T, E>> = Vec::new();
    while items.len() > 0
        invariant
            rest@.len() + items@.len() == whole.len(),
            items@ == whole.subrange(rest@.len() as int, whole.len() as int),
            forall|i: int| 0 <= i < rest@.len() ==> rest@[i] == Err::<T, E>(#[trigger] whole[i]),
        decreases items@.len(),
    {
        let ghost k = rest@.len();
        let x = items.remove(0);
        assert(x == whole[k as int]);
        rest.push(Err(x));
    }
    assert(rest@ =~= whole.map_values(|x: E| Err::<T, E>(x)));
    rest
}

/// Generator for `Result<T, E>`: `Ok` of a generated value with a given probability,
/// otherwise `Err` of a generated error.
#[derive(Debug)]
pub struct ResultGenerator<T, E, TG, EG> {
    /// The generator of the values in `Ok`.
    pub ok_generator: TG,
    /// The generator of the errors in `Err`.
    pub err_generator: EG,
    /// The probability of `Ok`, in millionths (at most `PROBABILITY_SCALE`).
    pub ok_probability: u32,
    /// Ties the generator to its value types.
    pub marker: core::marker::PhantomData<(T, E)>,
}

impl<T, E, TG, EG> ResultGenerator<T, E, TG, EG> {
    /// `Ok` and `Err` equally likely.
    pub fn new(ok_generator: TG, err_generator: EG) -> (r: Self)
        ensures
            r.ok_generator == ok_generator,
            r.err_generator == err_generator,
            r.ok_probability == PROBABILITY_SCALE / 2,
    {
        ResultGenerator { ok_generator, err_generator, ok_probability: 500000, marker: core::marker::PhantomData }
    }

    /// `Ok` with probability `ok_probability` millionths, clamped to certainty.
    pub fn with_ok_probability(ok_generator: TG, err_generator: EG, ok_probability: u32) -> (r: Self)
        ensures
            r.ok_generator == ok_generator,
            r.err_generator == err_generator,
            r.ok_probability == if ok_probability <= PROBABILITY_SCALE {
                ok_probability
            } else {
                PROBABILITY_SCALE
            },
    {
        let p = if ok_probability <= 1000000 {
            ok_probability
        } else {
            1000000
        };
        ResultGenerator { ok_generator, err_generator, ok_probability: p, marker: core::marker::PhantomData }
    }
}

impl<T, E, TG: Generator<T>, EG: Generator<E>> Generator<Result<T, E>> for ResultGenerator<T, E, TG, EG> {
    open spec fn can_generate(&self, config: GeneratorConfig) -> bool {
        &&& may_hit(self.ok_probability) ==> self.ok_generator.can_generate(config)
        &&& may_miss(self.ok_probability) ==> self.err_generator.can_generate(config)
    }

    open spec fn generates(&self, config: GeneratorConfig, value: Result<T, E>) -> bool {
        match value {
            Ok(v) => may_hit(self.ok_probability) && self.ok_generator.generates(config, v),
            Err(e) => may_miss(self.ok_probability) && self.err_generator.generates(config, e),
        }
    }

    open spec fn can_shrink(&self, value: Result<T, E>) -> bool {
        match value {
            Ok(v) => self.ok_generator.can_shrink(v),
            Err(e) => self.err_generator.can_shrink(e),
        }
    }

    /// `Ok` of each candidate of the value, or `Err` of each candidate of the error.
    open spec fn shrinks_to(&self, value: Result<T, E>, candidates: Seq<Result<T, E>>) -> bool {
        match value {
            Ok(v) => exists|inner: Seq<T>|
                #[trigger] self.ok_generator.shrinks_to(v, inner) && candidates == inner.map_values(
                    |x: T| Ok::<T, E>(x),
                ),
            Err(e) => exists|inner: Seq<E>|
                #[trigger] self.err_generator.shrinks_to(e, inner) && candidates == inner.map_values(
                    |x: E| Err::<T, E>(x),
                ),
        }
    }

    fn generate(&self, rng: &mut StdRng, config: &GeneratorConfig) -> (r: Result<T, E>) {
        if draw_under(rng, self.ok_probability) {
            Ok(self.ok_generator.generate(rng, config))
        } else {
            Err(self.err_generator.generate(rng, config))
        }
    }

    fn shrink(&self, value: &Result<T, E>) -> (r: Vec<Result<T, E>>) {
        match value {
            Ok(v) => into_oks(self.ok_generator.shrink(v)),
            Err(e) => into_errs(self.err_generator.shrink(e)),
        }
    }
}

/// Clones of the values of `v`, in order.
fn clone_all<T: Clone>(v: &[T]) -> (r: Vec<T>)
    ensures
        clones_of(v@, r@),
{
    let mut out: Vec<T> = Vec::new();
    let mut j: usize = 0;
    while j < v.len()
        invariant
            j <= v@.len(),
            out@.len() == j,
            forall|k: int| 0 <= k < j ==> cloned(#[trigger] v@[k], out@[k]),
        decreases v@.len() - j,
    {
        let x = v[j].clone();
        out.push(x);
        j = j + 1;
    }
    out
}

/// The array holding the values of `v`, which has exactly `N` of them
/// (`TryFrom<Vec<T>>` for `[T; N]`, which succeeds on that length).
#[verifier::external_body]
fn array_of_vec<T, const N: usize>(v: Vec<T>) -> (r: [T; N])
    requires
        v@.len() == N,
    ensures
        r@ == v@,
{
    let a: Option<[T; N]> = v.try_into().ok();
    a.unwrap()
}

/// Whether each of `bs` holds clones of the values of the sequence at its place in `as_`.
pub open spec fn all_array_clones_of<T: Clone, const N: usize>(as_: Seq<Seq<T>>, bs: Seq<[T; N]>) -> bool {
    as_.len() == bs.len() && forall|k: int| 0 <= k < as_.len() ==> clones_of(#[trigger] as_[k], bs[k]@)
}

/// Generator for arrays of `N` values from an element generator.
#[derive(Debug)]
pub struct ArrayGenerator<T, G, const N: usize> {
    /// The generator of the elements.
    pub element_generator: G,
    /// Ties the generator to its element type.
    pub marker: core::marker::PhantomData<T>,
}

impl<T, G, const N: usize> ArrayGenerator<T, G, N> {
    /// A generator of arrays of `N` elements.
    pub fn new(element_generator: G) -> (r: Self)
        ensures
            r.element_generator == element_generator,
    {
        ArrayGenerator { element_generator, marker: core::marker::PhantomData }
    }
}

impl<T: Clone, G: Generator<T>, const N: usize> Generator<[T; N]> for ArrayGenerator<T, G, N> {
    open spec fn can_generate(&self, config: GeneratorConfig) -> bool {
        self.element_generator.can_generate(config)
    }

    open spec fn generates(&self, config: GeneratorConfig, value: [T; N]) -> bool {
        forall|i: int| 0 <= i < N ==> self.element_generator.generates(config, #[trigger] value@[i])
    }

    open spec fn can_shrink(&self, value: [T; N]) -> bool {
        forall|i: int| 0 <= i < N ==> self.element_generator.can_shrink(#[trigger] value@[i])
    }

    /// Each element in turn replaced by each of its candidates, the others cloned.
    open spec fn shrinks_to(&self, value: [T; N], candidates: Seq<[T; N]>) -> bool {
        exists|ls: Seq<Seq<T>>|
            {
                &&& ls.len() == N
                &&& forall|i: int|
                    0 <= i < N ==> self.element_generator.shrinks_to(value@[i], #[trigger] ls[i])
                &&& all_array_clones_of(
                    #[trigger] crate::shrink::element_variants(value@, ls, N as nat),
                    candidates,
                )
            }
    }

    fn generate(&self, rng: &mut StdRng, config: &GeneratorConfig) -> (r: [T; N]) {
        let mut out: Vec<T> = Vec::new();
        let mut i: usize = 0;
        while i < N
            invariant
                i <= N,
                out@.len() == i,
                self.element_generator.can_generate(*config),
                forall|k: int|
                    0 <= k < i ==> self.element_generator.generates(*config, #[trigger] out@[k]),
            decreases N - i,
        {
            let x = self.element_generator.generate(rng, config);
            out.push(x);
            i = i + 1;
        }
        array_of_vec(out)
    }

    fn shrink(&self, value: &[T; N]) -> (r: Vec<[T; N]>) {
        let ghost v = value@;
        assert(v.len() == N);
        let mut shrinks: Vec<[T; N]> = Vec::new();
        let ghost mut expected: Seq<Seq<T>> = seq![];
        let ghost mut ls: Seq<Seq<T>> = seq![];
        let mut i: usize = 0;
        while i < N
            invariant
                N == v.len(),
                v == value@,
                i <= N,
                ls.len() == i,
                forall|k: int|
                    0 <= k < i ==> self.element_generator.shrinks_to(v[k], #[trigger] ls[k]),
                forall|k: int| 0 <= k < N ==> self.element_generator.can_shrink(#[trigger] v[k]),
                expected == crate::shrink::element_variants(v, ls, i as nat),
                all_array_clones_of(expected, shrinks@),
            decreases N - i,
        {
            let element_shrinks = self.element_generator.shrink(&value[i]);
            let ghost l = element_shrinks@;
            let ghost base = expected;
            let mut j: usize = 0;
            while j < element_shrinks.len()
                invariant
                    N == v.len(),
                    v == value@,
                    i < N,
                    l == element_shrinks@,
                    j <= l.len(),
                    expected == base + l.take(j as int).map_values(|s: T| v.update(i as int, s)),
                    all_array_clones_of(expected, shrinks@),
                decreases l.len() - j,
            {
                let mut shrunk_vec = clone_all(value.as_slice());
                let e = element_shrinks[j].clone();
                shrunk_vec.set(i, e);
                let ghost sv = shrunk_vec@;
                let shrunk_arr: [T; N] = array_of_vec(shrunk_vec);
                let ghost prev = shrinks@;
                shrinks.push(shrunk_arr);
                proof {
                    let e2 = expected.push(v.update(i as int, l[j as int]));
                    assert(l.take(j + 1).map_values(|s: T| v.update(i as int, s)) =~= l.take(
                        j as int,
                    ).map_values(|s: T| v.update(i as int, s)).push(v.update(i as int, l[j as int])));
                    assert forall|k: int| 0 <= k < e2.len() implies clones_of(
                        #[trigger] e2[k],
                        shrinks@[k]@,
                    ) by {
                        if k < expected.len() {
                            assert(shrinks@[k] == prev[k]);
                        } else {
                            assert forall|q: int| 0 <= q < v.len() implies cloned(
                                #[trigger] v.update(i as int, l[j as int])[q],
                                shrunk_arr@[q],
                            ) by {
                                if q == i {
                                } else {
                                    assert(cloned(value@[q], sv[q]));
                                }
                            }
                        }
                    }
                    expected = e2;
                }
                j = j + 1;
            }
            proof {
                assert(l.take(j as int) =~= l);
                crate::shrink::lemma_element_variants_prefix(v, ls, ls.push(l), i as nat);
                ls = ls.push(l);
            }
            i = i + 1;
        }
        shrinks
    }
}

/// Vector shrinking shortens: when the vector is longer than the least length, the
/// candidates hold copies of the empty vector and of every prefix whose length is at least
/// the least length and below the vector's (the prefix without the last element among
/// them).
pub proof fn lemma_vec_shrink_has_prefixes<T: Clone, G: Generator<T>>(
    g: VecGenerator<T, G>,
    value: Vec<T>,
    candidates: Seq<Vec<T>>,
)
    requires
        g.shrinks_to(value, candidates),
        value@.len() > g.min_length,
    ensures
        exists|i: int| 0 <= i < candidates.len() && (#[trigger] candidates[i])@.len() == 0,
        forall|l: int|
            g.min_length <= l < value@.len() ==> exists|i: int|
                0 <= i < candidates.len() && clones_of(
                    #[trigger] value@.take(l),
                    (#[trigger] candidates[i])@,
                ),
{
    let ls = choose|ls: Seq<Seq<T>>|
        {
            &&& ls.len() == value@.len()
            &&& forall|i: int|
                0 <= i < ls.len() ==> g.element_generator.shrinks_to(value@[i], #[trigger] ls[i])
            &&& all_clones_of(
                #[trigger] truncations(value@, g.min_length as nat) + crate::shrink::element_variants(
                    value@,
                    ls,
                    value@.len(),
                ),
                candidates,
            )
        };
    let tr = truncations(value@, g.min_length as nat);
    let all = tr + crate::shrink::element_variants(value@, ls, value@.len());
    let n = value@.len() as int;
    assert(all[0] == tr[0]);
    assert(tr[0] == Seq::<T>::empty());
    assert(clones_of(all[0], candidates[0]@));
    assert(candidates[0]@.len() == 0);
    assert forall|l: int| g.min_length <= l < value@.len() implies exists|i: int|
        0 <= i < candidates.len() && clones_of(#[trigger] value@.take(l), (#[trigger] candidates[i])@) by {
        let k = n - 1 - l;
        let i = 1 + k;
        assert(tr[i] == value@.take(l));
        assert(all[i] == tr[i]);
        assert(clones_of(all[i], candidates[i]@));
    }
}

} // verus!
