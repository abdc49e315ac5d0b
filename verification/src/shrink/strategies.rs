//! Shrinking strategies for common kinds of values.

use vstd::prelude::*;
use crate::prim_int::{PrimInt, trunc_half};
use crate::text::{chars_of, lemma_string_views_push, string_from_range, string_views, string_without};
use crate::shrink::{
    Shrinkable, each_shrinks_to, element_variants, halves, lemma_vec_models_push, models,
    push_element_variants, push_empty, push_halves, push_removals, push_single_removals,
    removal_candidates, single_removals, tuple2_candidates, vec_models,
};

verus! {

/// The integer values of a sequence of primitive integers.
pub open spec fn int_values<T: PrimInt>(s: Seq<T>) -> Seq<int> {
    s.map_values(|x: T| x.int_value())
}

/// The midpoints visited by binary search from `cur` down toward `zero`.
pub open spec fn bisect_chain(cur: int, zero: int) -> Seq<int>
    decreases cur - zero,
{
    if cur > zero {
        let mid = trunc_half(cur + zero);
        if mid < cur && mid >= zero {
            seq![mid] + bisect_chain(mid, zero)
        } else {
            seq![]
        }
    } else {
        seq![]
    }
}

/// Candidates of binary-search shrinking of `value` toward `zero`.
pub open spec fn bisect_candidates(value: int, zero: int) -> Seq<int> {
    (if zero < value { seq![zero] } else { seq![] }) + bisect_chain(value, zero)
}

/// Every midpoint that binary search computes fits in the type.
pub open spec fn bisect_fits<T: PrimInt>(value: int, zero: int) -> bool {
    value <= zero || (T::lowest() <= 2 * zero + 1 && value + zero <= T::highest())
}

proof fn lemma_bisect_chain_bounds(cur: int, zero: int)
    ensures
        forall|i: int|
            0 <= i < bisect_chain(cur, zero).len() ==> zero <= #[trigger] bisect_chain(
                cur,
                zero,
            )[i] < cur,
    decreases cur - zero,
{
    if cur > zero {
        let mid = trunc_half(cur + zero);
        if mid < cur && mid >= zero {
            lemma_bisect_chain_bounds(mid, zero);
            assert forall|i: int|
                0 <= i < bisect_chain(cur, zero).len() implies zero <= #[trigger] bisect_chain(
                cur,
                zero,
            )[i] < cur by {
                if i > 0 {
                    assert(bisect_chain(cur, zero)[i] == bisect_chain(mid, zero)[i - 1]);
                }
            }
        }
    }
}

/// Binary search shrinking: `zero` when it is below `value`, then the successive
/// midpoints between `zero` and the current value.
pub fn binary_search_shrink<T: PrimInt>(value: &T, zero: T) -> (r: Vec<T>)
    requires
        bisect_fits::<T>(value.int_value(), zero.int_value()),
    ensures
        int_values(r@) == bisect_candidates(value.int_value(), zero.int_value()),
        forall|i: int|
            0 <= i < r@.len() ==> zero.int_value() <= #[trigger] r@[i].int_value()
                < value.int_value(),
{
    proof {
        lemma_bisect_chain_bounds(value.int_value(), zero.int_value());
    }
    let mut candidates: Vec<T> = Vec::new();
    if zero.less(*value) {
        candidates.push(zero);
    }
    let ghost prefix = int_values(candidates@);
    assert(prefix == (if zero.int_value() < value.int_value() {
        seq![zero.int_value()]
    } else {
        seq![]
    }));
    let mut current = *value;
    let mut searching = true;
    proof {
        value.lemma_range();
        zero.lemma_range();
    }
    while searching && zero.less(current)
        invariant
            zero.int_value() <= current.int_value() <= value.int_value() || current.int_value()
                == value.int_value(),
            bisect_fits::<T>(value.int_value(), zero.int_value()),
            searching ==> int_values(candidates@) + bisect_chain(
                current.int_value(),
                zero.int_value(),
            ) == bisect_candidates(value.int_value(), zero.int_value()),
            !searching ==> int_values(candidates@) == bisect_candidates(
                value.int_value(),
                zero.int_value(),
            ),
        decreases current.int_value() - zero.int_value(), if searching { 1int } else { 0int },
    {
        proof {
            current.lemma_range();
        }
        let sum = current.plus(zero);
        let mid = sum.half();
        if mid.less(current) && !mid.less(zero) {
            let ghost before = int_values(candidates@);
            candidates.push(mid);
            assert(int_values(candidates@) == before.push(mid.int_value()));
            assert(bisect_chain(current.int_value(), zero.int_value()) == seq![mid.int_value()]
                + bisect_chain(mid.int_value(), zero.int_value()));
            assert(before.push(mid.int_value()) + bisect_chain(mid.int_value(), zero.int_value())
                == before + (seq![mid.int_value()] + bisect_chain(
                mid.int_value(),
                zero.int_value(),
            )));
            current = mid;
        } else {
            assert(bisect_chain(current.int_value(), zero.int_value()) == Seq::<int>::empty());
            assert(int_values(candidates@) + Seq::<int>::empty() == int_values(candidates@));
            searching = false;
        }
    }
    if searching {
        assert(bisect_chain(current.int_value(), zero.int_value()) == Seq::<int>::empty());
        assert(int_values(candidates@) + Seq::<int>::empty() == int_values(candidates@));
    }
    assert forall|i: int| 0 <= i < candidates@.len() implies zero.int_value()
        <= #[trigger] candidates@[i].int_value() < value.int_value() by {
        assert(int_values(candidates@)[i] == candidates@[i].int_value());
        let b = bisect_candidates(value.int_value(), zero.int_value());
        if zero.int_value() < value.int_value() && i > 0 {
            assert(b[i] == bisect_chain(value.int_value(), zero.int_value())[i - 1]);
        } else if !(zero.int_value() < value.int_value()) {
            assert(b[i] == bisect_chain(value.int_value(), zero.int_value())[i]);
        }
    }
    candidates
}


/// Values visited by linear shrinking: repeated subtraction of `step` from `cur`
/// while it stays above `min`, keeping those not below `min`.
pub open spec fn linear_chain(cur: int, step: int, min: int) -> Seq<int>
    recommends
        step > 0,
    decreases if cur > min { cur - min } else { 0 },
{
    if step > 0 && cur > min {
        let next = cur - step;
        (if next >= min { seq![next] } else { seq![] }) + linear_chain(next, step, min)
    } else {
        seq![]
    }
}

/// Every subtraction of linear shrinking fits in the type.
pub open spec fn linear_fits<T: PrimInt>(value: int, step: int, min: int) -> bool {
    value <= min || T::lowest() <= min + 1 - step
}

/// Linear shrinking: subtract `step` repeatedly from `value`, keeping each result that
/// is not below `min`. A step that is not positive would never end the walk, so it is
/// left out.
pub fn linear_shrink<T: PrimInt>(value: &T, step: T, min: T) -> (r: Vec<T>)
    requires
        step.int_value() > 0,
        linear_fits::<T>(value.int_value(), step.int_value(), min.int_value()),
    ensures
        int_values(r@) == linear_chain(value.int_value(), step.int_value(), min.int_value()),
{
    let mut candidates: Vec<T> = Vec::new();
    let mut current = *value;
    proof {
        value.lemma_range();
        min.lemma_range();
        step.lemma_range();
    }
    assert(int_values(candidates@) == Seq::<int>::empty());
    assert(Seq::<int>::empty() + linear_chain(value.int_value(), step.int_value(), min.int_value())
        == linear_chain(value.int_value(), step.int_value(), min.int_value()));
    while min.less(current)
        invariant
            step.int_value() > 0,
            min.int_value() + 1 - step.int_value() <= current.int_value() <= value.int_value()
                || current.int_value() == value.int_value(),
            linear_fits::<T>(value.int_value(), step.int_value(), min.int_value()),
            int_values(candidates@) + linear_chain(
                current.int_value(),
                step.int_value(),
                min.int_value(),
            ) == linear_chain(value.int_value(), step.int_value(), min.int_value()),
        decreases if current.int_value() > min.int_value() {
            current.int_value() - min.int_value()
        } else {
            0
        },
    {
        proof {
            current.lemma_range();
        }
        let ghost before = int_values(candidates@);
        let ghost c = current.int_value();
        current = current.minus(step);
        let ghost n = current.int_value();
        if !current.less(min) {
            candidates.push(current);
            assert(int_values(candidates@) == before.push(n));
            assert(before.push(n) + linear_chain(n, step.int_value(), min.int_value()) == before
                + (seq![n] + linear_chain(n, step.int_value(), min.int_value())));
        } else {
            assert(before + (Seq::<int>::empty() + linear_chain(
                n,
                step.int_value(),
                min.int_value(),
            )) == before + linear_chain(n, step.int_value(), min.int_value()));
        }
    }
    assert(int_values(candidates@) + Seq::<int>::empty() == int_values(candidates@));
    candidates
}

/// Successive halvings of a positive value, down to zero.
pub open spec fn halvings(cur: int) -> Seq<int>
    decreases cur,
{
    if cur > 0 {
        seq![cur / 2] + halvings(cur / 2)
    } else {
        seq![]
    }
}

/// Successive halvings of a negative value, rounded toward zero, up to zero.
pub open spec fn negative_halvings(cur: int) -> Seq<int>
    decreases -cur,
{
    if cur < 0 {
        seq![trunc_half(cur)] + negative_halvings(trunc_half(cur))
    } else {
        seq![]
    }
}

/// Candidates of signed integer shrinking: zero, the halvings toward zero, and for a
/// negative value its positive counterpart where the type holds it.
pub open spec fn signed_candidates(v: int, negation_fits: bool) -> Seq<int> {
    (if v != 0 { seq![0int] } else { seq![] }) + if v > 0 {
        halvings(v)
    } else if v < 0 {
        negative_halvings(v) + (if negation_fits { seq![-v] } else { seq![] })
    } else {
        seq![]
    }
}

/// Candidates of unsigned integer shrinking: zero, then the halvings toward zero.
pub open spec fn unsigned_candidates(v: int) -> Seq<int> {
    (if v != 0 { seq![0int] } else { seq![] }) + halvings(v)
}

proof fn lemma_int_values_push<T: PrimInt>(s: Seq<T>, x: T)
    ensures
        int_values(s.push(x)) == int_values(s).push(x.int_value()),
{
    assert(int_values(s.push(x)) =~= int_values(s).push(x.int_value()));
}

/// Appends the halvings of a non-negative `value` to `candidates`.
fn push_halvings<T: PrimInt>(candidates: &mut Vec<T>, value: T)
    requires
        value.int_value() >= 0,
    ensures
        int_values(final(candidates)@) == int_values(old(candidates)@) + halvings(
            value.int_value(),
        ),
{
    let zero = T::zero();
    let mut current = value;
    let ghost start = int_values(candidates@);
    while zero.less(current)
        invariant
            current.int_value() >= 0,
            int_values(candidates@) + halvings(current.int_value()) == start + halvings(
                value.int_value(),
            ),
            zero.int_value() == 0,
        decreases current.int_value(),
    {
        let mid = current.half();
        let ghost prev = candidates@;
        candidates.push(mid);
        proof {
            lemma_int_values_push(prev, mid);
            assert(halvings(current.int_value()) == seq![mid.int_value()] + halvings(
                mid.int_value(),
            ));
            assert(int_values(prev).push(mid.int_value()) + halvings(mid.int_value())
                == int_values(prev) + (seq![mid.int_value()] + halvings(mid.int_value())));
        }
        current = mid;
    }
    assert(halvings(current.int_value()) == Seq::<int>::empty());
    assert(int_values(candidates@) + Seq::<int>::empty() == int_values(candidates@));
}

/// Appends the halvings of a non-positive `value`, rounded toward zero, to `candidates`.
fn push_negative_halvings<T: PrimInt>(candidates: &mut Vec<T>, value: T)
    requires
        value.int_value() <= 0,
    ensures
        int_values(final(candidates)@) == int_values(old(candidates)@) + negative_halvings(
            value.int_value(),
        ),
{
    let zero = T::zero();
    let mut current = value;
    let ghost start = int_values(candidates@);
    while current.less(zero)
        invariant
            current.int_value() <= 0,
            int_values(candidates@) + negative_halvings(current.int_value()) == start
                + negative_halvings(value.int_value()),
            zero.int_value() == 0,
        decreases -current.int_value(),
    {
        let mid = current.half();
        let ghost prev = candidates@;
        candidates.push(mid);
        proof {
            lemma_int_values_push(prev, mid);
            assert(negative_halvings(current.int_value()) == seq![mid.int_value()]
                + negative_halvings(mid.int_value()));
            assert(int_values(prev).push(mid.int_value()) + negative_halvings(mid.int_value())
                == int_values(prev) + (seq![mid.int_value()] + negative_halvings(
                mid.int_value(),
            )));
        }
        current = mid;
    }
    assert(negative_halvings(current.int_value()) == Seq::<int>::empty());
    assert(int_values(candidates@) + Seq::<int>::empty() == int_values(candidates@));
}

/// Whether the type holds the negation of `v`.
pub open spec fn negation_fits<T: PrimInt>(v: int) -> bool {
    T::lowest() <= -v <= T::highest()
}

/// Signed integer shrinking: zero first, then halvings toward zero, and for a negative
/// value its positive counterpart. The counterpart of the smallest value of a type does
/// not exist in the type and is not offered.
pub fn signed_int_shrink<T: PrimInt>(value: &T) -> (r: Vec<T>)
    ensures
        int_values(r@) == signed_candidates(
            value.int_value(),
            negation_fits::<T>(value.int_value()),
        ),
{
    let zero = T::zero();
    let mut candidates: Vec<T> = Vec::new();
    if !value.same(zero) {
        candidates.push(zero);
    }
    let ghost head = int_values(candidates@);
    assert(head =~= (if value.int_value() != 0 { seq![0int] } else { seq![] }));
    if zero.less(*value) {
        push_halvings(&mut candidates, *value);
    } else if value.less(zero) {
        push_negative_halvings(&mut candidates, *value);
        let ghost mid = candidates@;
        match value.checked_negate() {
            Some(positive) => {
                candidates.push(positive);
                proof {
                    lemma_int_values_push(mid, positive);
                    assert(head + (negative_halvings(value.int_value()) + seq![
                        -value.int_value(),
                    ]) == (head + negative_halvings(value.int_value())).push(
                        -value.int_value(),
                    ));
                }
            },
            None => {
                assert(head + (negative_halvings(value.int_value()) + Seq::<int>::empty()) == head
                    + negative_halvings(value.int_value()));
            },
        }
    } else {
        assert(head + Seq::<int>::empty() == head);
    }
    candidates
}

/// Unsigned integer shrinking: zero first, then halvings toward zero.
pub fn unsigned_int_shrink<T: PrimInt>(value: &T) -> (r: Vec<T>)
    requires
        value.int_value() >= 0,
    ensures
        int_values(r@) == unsigned_candidates(value.int_value()),
{
    let zero = T::zero();
    let mut candidates: Vec<T> = Vec::new();
    if !value.same(zero) {
        candidates.push(zero);
    }
    let ghost head = int_values(candidates@);
    assert(head =~= (if value.int_value() != 0 { seq![0int] } else { seq![] }));
    push_halvings(&mut candidates, *value);
    candidates
}

/// Candidates of boolean shrinking: `true` shrinks to `false`.
pub open spec fn bool_candidates(b: bool) -> Seq<bool> {
    if b {
        seq![false]
    } else {
        seq![]
    }
}

/// Boolean shrinking: `true` shrinks to `false`, `false` does not shrink.
pub fn bool_shrink(value: &bool) -> (r: Vec<bool>)
    ensures
        r@ == bool_candidates(*value),
{
    let mut candidates: Vec<bool> = Vec::new();
    if *value {
        candidates.push(false);
    }
    assert(candidates@ =~= bool_candidates(*value));
    candidates
}

/// Whether `code` is a Unicode scalar value.
pub open spec fn is_scalar(code: u32) -> bool {
    code <= 0x10FFFF && !(0xD800 <= code <= 0xDFFF)
}

/// The character of a scalar value (`char::from_u32`): `Some` exactly when `code` is a
/// Unicode scalar value.
#[verifier::external_body]
pub(crate) fn char_from_u32(code: u32) -> (r: Option<char>)
    ensures
        r is Some <==> is_scalar(code),
        r matches Some(c) ==> c == code as char,
{
    char::from_u32(code)
}

/// The simple characters that `c` shrinks to, in order of preference.
pub open spec fn simple_chars_below(c: char) -> Seq<char> {
    (if ('a' as u32) < (c as u32) { seq!['a'] } else { seq![] })
        + (if ('A' as u32) < (c as u32) { seq!['A'] } else { seq![] })
        + (if ('0' as u32) < (c as u32) { seq!['0'] } else { seq![] })
        + (if (' ' as u32) < (c as u32) { seq![' '] } else { seq![] })
        + (if ('\0' as u32) < (c as u32) { seq!['\0'] } else { seq![] })
}

/// The character of code `code / d`, when that is a smaller nonzero scalar value.
pub open spec fn code_fraction(code: u32, d: u32) -> Seq<char> {
    let s = (code / d) as u32;
    if s > 0 && s < code && is_scalar(s) {
        seq![s as char]
    } else {
        seq![]
    }
}

/// Candidates of character shrinking: simpler characters below `c`, then the
/// characters at a half, a quarter and an eighth of its code.
pub open spec fn char_candidates(c: char) -> Seq<char> {
    simple_chars_below(c) + if (c as u32) > 0 {
        code_fraction(c as u32, 2) + code_fraction(c as u32, 4) + code_fraction(c as u32, 8)
    } else {
        seq![]
    }
}

fn push_if_below(candidates: &mut Vec<char>, simple: char, c: char)
    ensures
        final(candidates)@ == old(candidates)@ + (if (simple as u32) < (c as u32) {
            seq![simple]
        } else {
            seq![]
        }),
{
    if (simple as u32) < (c as u32) {
        candidates.push(simple);
    }
    assert(final(candidates)@ =~= old(candidates)@ + (if (simple as u32) < (c as u32) {
        seq![simple]
    } else {
        seq![]
    }));
}

fn push_fraction(candidates: &mut Vec<char>, code: u32, d: u32)
    requires
        d > 0,
    ensures
        final(candidates)@ == old(candidates)@ + code_fraction(code, d),
{
    let step = code / d;
    if step > 0 && step < code {
        match char_from_u32(step) {
            Some(ch) => {
                candidates.push(ch);
            },
            None => {},
        }
    }
    assert(final(candidates)@ =~= old(candidates)@ + code_fraction(code, d));
}

/// Character shrinking: simpler characters first (`'a'`, `'A'`, `'0'`, `' '`, `'\0'`
/// when below `c`), then characters with smaller code points.
pub fn char_shrink(c: &char) -> (r: Vec<char>)
    ensures
        r@ == char_candidates(*c),
        forall|i: int| 0 <= i < r@.len() ==> (#[trigger] r@[i] as u32) < (*c as u32),
{
    let c = *c;
    let mut candidates: Vec<char> = Vec::new();
    push_if_below(&mut candidates, 'a', c);
    push_if_below(&mut candidates, 'A', c);
    push_if_below(&mut candidates, '0', c);
    push_if_below(&mut candidates, ' ', c);
    push_if_below(&mut candidates, '\0', c);
    let ghost simple = candidates@;
    assert(simple =~= simple_chars_below(c));
    let code = c as u32;
    if code > 0 {
        push_fraction(&mut candidates, code, 2);
        push_fraction(&mut candidates, code, 4);
        push_fraction(&mut candidates, code, 8);
        assert(candidates@ =~= char_candidates(c));
    } else {
        assert(candidates@ =~= char_candidates(c));
    }
    candidates
}

/// Candidates of string shrinking over characters `cs`: the empty string, the prefixes
/// from longest to shortest, the suffixes from longest to shortest, and for more than
/// two characters the string without its middle character.
pub open spec fn string_candidates(cs: Seq<char>) -> Seq<Seq<char>> {
    let n = cs.len() as int;
    let k = if n >= 1 { n - 1 } else { 0 };
    (if n > 0 { seq![Seq::<char>::empty()] } else { seq![] })
        + Seq::new(k as nat, |j: int| cs.subrange(0, n - 1 - j))
        + Seq::new(k as nat, |j: int| cs.subrange(j + 1, n))
        + (if n > 2 { seq![cs.remove(n / 2)] } else { seq![] })
}

/// String shrinking: the empty string, shorter prefixes, shorter suffixes, and the
/// string without its middle character.
pub fn string_shrink(s: &str) -> (r: Vec<String>)
    ensures
        string_views(r@) == string_candidates(s@),
{
    let chars = chars_of(s);
    let n = chars.len();
    let ghost cs = s@;
    let mut candidates: Vec<String> = Vec::new();
    if n > 0 {
        candidates.push(String::new());
    }
    let ghost k: int = if n >= 1 { n - 1 } else { 0 };
    let ghost head = (if n > 0 { seq![Seq::<char>::empty()] } else { seq![] });
    assert(string_views(candidates@) =~= head);
    let mut i: usize = if n >= 1 { n - 1 } else { 0 };
    while i >= 1
        invariant
            n == cs.len(),
            chars@ == cs,
            i <= k,
            k == (if n >= 1 { n - 1 } else { 0 }),
            string_views(candidates@) == head + Seq::new(
                (k - i) as nat,
                |j: int| cs.subrange(0, n - 1 - j),
            ),
        decreases i,
    {
        let p = string_from_range(&chars, 0, i);
        let ghost prev = candidates@;
        candidates.push(p);
        proof {
            lemma_string_views_push(prev, p);
        }
        assert(string_views(candidates@) =~= head + Seq::new(
            (k - i + 1) as nat,
            |j: int| cs.subrange(0, n - 1 - j),
        ));
        i = i - 1;
    }
    let ghost with_prefixes = string_views(candidates@);
    assert(with_prefixes =~= head + Seq::new(k as nat, |j: int| cs.subrange(0, n - 1 - j)));
    let mut i: usize = 1;
    while i < n
        invariant
            n == cs.len(),
            chars@ == cs,
            1 <= i <= n || (n == 0 && i == 1),
            k == (if n >= 1 { n - 1 } else { 0 }),
            string_views(candidates@) == with_prefixes + Seq::new(
                (i - 1) as nat,
                |j: int| cs.subrange(j + 1, n as int),
            ),
        decreases n - i,
    {
        let p = string_from_range(&chars, i, n);
        let ghost prev = candidates@;
        candidates.push(p);
        proof {
            lemma_string_views_push(prev, p);
        }
        assert(string_views(candidates@) =~= with_prefixes + Seq::new(
            i as nat,
            |j: int| cs.subrange(j + 1, n as int),
        ));
        i = i + 1;
    }
    let ghost with_suffixes = string_views(candidates@);
    assert(i - 1 == k);
    assert(with_suffixes =~= with_prefixes + Seq::new(
        k as nat,
        |j: int| cs.subrange(j + 1, n as int),
    ));
    if n > 2 {
        let m = string_without(&chars, n / 2);
        let ghost prev = candidates@;
        candidates.push(m);
        proof {
            lemma_string_views_push(prev, m);
        }
        assert(string_views(candidates@) =~= with_suffixes + seq![cs.remove((n / 2) as int)]);
    } else {
        assert(string_views(candidates@) =~= with_suffixes + Seq::<Seq<char>>::empty());
    }
    candidates
}

/// Collection shrinking: the empty collection (when there are elements), each
/// collection with one element removed, and the two halves (for more than two elements).
pub fn collection_shrink<T: Shrinkable>(collection: &[T]) -> (r: Vec<Vec<T>>)
    ensures
        vec_models(r@) == removal_candidates(models(collection@)),
{
    let mut candidates: Vec<Vec<T>> = Vec::new();
    assert(vec_models(candidates@) =~= Seq::<Seq<T::Model>>::empty());
    push_removals(&mut candidates, collection);
    candidates
}

/// The candidates of nested-collection shrinking: the empty collection, each item removed,
/// each item replaced by its candidates `ls`, and the two halves.
pub open spec fn nested_candidates<M>(m: Seq<M>, ls: Seq<Seq<M>>) -> Seq<Seq<M>> {
    seq![Seq::<M>::empty()] + single_removals(m) + element_variants(m, ls, m.len()) + halves(m)
}

/// Nested-collection shrinking: the empty collection, each item removed, each item
/// shrunk in place, and the two halves (for more than two items).
pub fn nested_collection_shrink<T: Shrinkable>(collection: &Vec<T>) -> (r: Vec<Vec<T>>)
    ensures
        exists|ls: Seq<Seq<T::Model>>|
            each_shrinks_to::<T>(models(collection@), ls) && vec_models(r@) == #[trigger] nested_candidates(
                models(collection@),
                ls,
            ),
{
    let mut candidates: Vec<Vec<T>> = Vec::new();
    let ghost m = models(collection@);
    assert(vec_models(candidates@) =~= Seq::<Seq<T::Model>>::empty());
    push_empty(&mut candidates);
    push_single_removals(&mut candidates, collection.as_slice());
    let ls = push_element_variants(&mut candidates, collection.as_slice());
    push_halves(&mut candidates, collection.as_slice());
    assert(vec_models(candidates@) =~= nested_candidates(m, ls@));
    candidates
}

/// Every pair of a candidate of the first component with one of the second, the first
/// component's candidates in the outer order.
pub open spec fn pair_product<M, N>(la: Seq<M>, lb: Seq<N>) -> Seq<(M, N)>
    decreases la.len(),
{
    if la.len() == 0 {
        seq![]
    } else {
        pair_product(la.drop_last(), lb) + lb.map_values(|b: N| (la.last(), b))
    }
}

/// Tuple shrinking with coordination: the first component shrunk, then the second, then
/// both together.
pub fn tuple_shrink<A: Shrinkable, B: Shrinkable>(tuple: &(A, B)) -> (r: Vec<(A, B)>)
    ensures
        exists|la: Seq<A::Model>, lb: Seq<B::Model>|
            A::shrinks_to(tuple.0.model(), la) && B::shrinks_to(tuple.1.model(), lb) && models(r@)
                == #[trigger] tuple2_candidates::<A, B>(tuple.model(), la, lb) + pair_product(la, lb),
{
    let ghost m = tuple.model();
    let sa = tuple.0.shrink();
    let sb = tuple.1.shrink();
    let ghost la = models(sa@);
    let ghost lb = models(sb@);
    let mut candidates: Vec<(A, B)> = Vec::new();
    let mut i: usize = 0;
    while i < sa.len()
        invariant
            m == tuple.model(),
            la == models(sa@),
            i <= sa@.len(),
            models(candidates@) == la.take(i as int).map_values(|x: A::Model| (x, m.1)),
        decreases sa@.len() - i,
    {
        let t = (sa[i].duplicate(), tuple.1.duplicate());
        let ghost prev = candidates@;
        candidates.push(t);
        assert(models(candidates@) =~= models(prev).push(t.model()));
        assert(la.take(i + 1).map_values(|x: A::Model| (x, m.1)) =~= la.take(i as int).map_values(
            |x: A::Model| (x, m.1),
        ).push((la[i as int], m.1)));
        i = i + 1;
    }
    assert(la.take(i as int) =~= la);
    let ghost part_a = models(candidates@);
    let mut j: usize = 0;
    while j < sb.len()
        invariant
            m == tuple.model(),
            lb == models(sb@),
            j <= sb@.len(),
            models(candidates@) == part_a + lb.take(j as int).map_values(|x: B::Model| (m.0, x)),
        decreases sb@.len() - j,
    {
        let t = (tuple.0.duplicate(), sb[j].duplicate());
        let ghost prev = candidates@;
        candidates.push(t);
        assert(models(candidates@) =~= models(prev).push(t.model()));
        assert(lb.take(j + 1).map_values(|x: B::Model| (m.0, x)) =~= lb.take(j as int).map_values(
            |x: B::Model| (m.0, x),
        ).push((m.0, lb[j as int])));
        j = j + 1;
    }
    assert(lb.take(j as int) =~= lb);
    let ghost single = models(candidates@);
    assert(single =~= tuple2_candidates::<A, B>(m, la, lb));
    let mut i: usize = 0;
    while i < sa.len()
        invariant
            la == models(sa@),
            lb == models(sb@),
            i <= sa@.len(),
            models(candidates@) == single + pair_product(la.take(i as int), lb),
        decreases sa@.len() - i,
    {
        let ghost outer = models(candidates@);
        let mut j: usize = 0;
        while j < sb.len()
            invariant
                la == models(sa@),
                lb == models(sb@),
                i < sa@.len(),
                j <= sb@.len(),
                models(candidates@) == outer + lb.take(j as int).map_values(
                    |b: B::Model| (la[i as int], b),
                ),
            decreases sb@.len() - j,
        {
            let t = (sa[i].duplicate(), sb[j].duplicate());
            let ghost prev = candidates@;
            candidates.push(t);
            assert(models(candidates@) =~= models(prev).push(t.model()));
            assert(lb.take(j + 1).map_values(|b: B::Model| (la[i as int], b)) =~= lb.take(
                j as int,
            ).map_values(|b: B::Model| (la[i as int], b)).push((la[i as int], lb[j as int])));
            j = j + 1;
        }
        assert(lb.take(j as int) =~= lb);
        assert(la.take(i + 1).drop_last() =~= la.take(i as int));
        i = i + 1;
    }
    assert(la.take(i as int) =~= la);
    candidates
}

/// Recursive shrinking: the candidates are the children that `get_children` gives.
pub fn recursive_shrink<T, F: Fn(&T) -> Vec<T>>(value: &T, get_children: F) -> (r: Vec<T>)
    requires
        call_requires(get_children, (value,)),
    ensures
        call_ensures(get_children, (value,), r),
{
    get_children(value)
}

/// The parts of coordinated shrinking: `a` and `a2` from two calls of `field1` on the
/// value, `b` from `field2` on the value, `bs[i]` from `field2` on `a2[i]`; the candidates
/// are `a`, then `b`, then every `bs[i]` in order.
pub open spec fn coordinated_parts<T, F1: Fn(&T) -> Vec<T>, F2: Fn(&T) -> Vec<T>>(
    field1: F1,
    field2: F2,
    value: T,
    a: Vec<T>,
    b: Vec<T>,
    a2: Vec<T>,
    bs: Seq<Vec<T>>,
    r: Seq<T>,
) -> bool {
    &&& call_ensures(field1, (&value,), a)
    &&& call_ensures(field2, (&value,), b)
    &&& call_ensures(field1, (&value,), a2)
    &&& bs.len() == a2@.len()
    &&& forall|i: int| 0 <= i < bs.len() ==> call_ensures(field2, (&a2@[i],), #[trigger] bs[i])
    &&& r == a@ + b@ + bs.map_values(|v: Vec<T>| v@).flatten()
}

/// Coordinated shrinking of two fields: the first field shrunk, the second field shrunk,
/// then the second field shrunk in each value with the first field shrunk.
pub fn coordinated_field_shrink<T, F1: Fn(&T) -> Vec<T>, F2: Fn(&T) -> Vec<T>>(
    value: &T,
    field1_shrink: F1,
    field2_shrink: F2,
) -> (r: Vec<T>)
    requires
        call_requires(field1_shrink, (value,)),
        forall|x: &T| #[trigger] call_requires(field2_shrink, (x,)),
    ensures
        exists|a: Vec<T>, b: Vec<T>, a2: Vec<T>, bs: Seq<Vec<T>>|
            #[trigger] coordinated_parts(field1_shrink, field2_shrink, *value, a, b, a2, bs, r@),
{
    let mut candidates: Vec<T> = Vec::new();
    let mut a = field1_shrink(value);
    let ghost a0 = a;
    candidates.append(&mut a);
    let mut b = field2_shrink(value);
    let ghost b0 = b;
    candidates.append(&mut b);
    let field1_shrunk = field1_shrink(value);
    let ghost head = candidates@;
    assert(head =~= a0@ + b0@);
    let ghost mut bs: Seq<Vec<T>> = seq![];
    let mut i: usize = 0;
    while i < field1_shrunk.len()
        invariant
            forall|x: &T| #[trigger] call_requires(field2_shrink, (x,)),
            i <= field1_shrunk@.len(),
            bs.len() == i,
            forall|k: int| 0 <= k < i ==> call_ensures(
                field2_shrink,
                (&field1_shrunk@[k],),
                #[trigger] bs[k],
            ),
            candidates@ == head + bs.map_values(|v: Vec<T>| v@).flatten(),
        decreases field1_shrunk@.len() - i,
    {
        let mut c = field2_shrink(&field1_shrunk[i]);
        let ghost c0 = c;
        let ghost prev = candidates@;
        candidates.append(&mut c);
        proof {
            assert(bs.push(c0).map_values(|v: Vec<T>| v@) =~= bs.map_values(|v: Vec<T>| v@).push(
                c0@,
            ));
            bs.map_values(|v: Vec<T>| v@).lemma_flatten_push(c0@);
            bs = bs.push(c0);
        }
        i = i + 1;
    }
    assert(coordinated_parts(
        field1_shrink,
        field2_shrink,
        *value,
        a0,
        b0,
        field1_shrunk,
        bs,
        candidates@,
    ));
    candidates
}

/// Every candidate of string shrinking is strictly shorter than the string; the empty
/// string, every proper prefix and every proper suffix are among them, and so, for more
/// than two characters, is the string without its middle character (at index `len / 2`).
pub proof fn lemma_string_shrink_candidates(cs: Seq<char>)
    ensures
        forall|i: int|
            0 <= i < string_candidates(cs).len() ==> (#[trigger] string_candidates(cs)[i]).len()
                < cs.len(),
        cs.len() > 0 ==> string_candidates(cs).contains(Seq::<char>::empty()),
        forall|l: int| 0 < l < cs.len() ==> #[trigger] string_candidates(cs).contains(cs.take(l)),
        forall|l: int| 0 < l < cs.len() ==> #[trigger] string_candidates(cs).contains(cs.skip(l)),
        cs.len() > 2 ==> string_candidates(cs).contains(cs.remove(cs.len() as int / 2)),
{
    let n = cs.len() as int;
    let k = if n >= 1 { n - 1 } else { 0 };
    let head = (if n > 0 { seq![Seq::<char>::empty()] } else { seq![] });
    let pre = Seq::new(k as nat, |j: int| cs.subrange(0, n - 1 - j));
    let suf = Seq::new(k as nat, |j: int| cs.subrange(j + 1, n));
    let mid = (if n > 2 { seq![cs.remove(n / 2)] } else { seq![] });
    let c = string_candidates(cs);
    assert(c == head + pre + suf + mid);
    assert forall|i: int| 0 <= i < c.len() implies (#[trigger] c[i]).len() < cs.len() by {
        if i < head.len() {
        } else if i < head.len() + pre.len() {
            assert(c[i] == pre[i - head.len()]);
        } else if i < head.len() + pre.len() + suf.len() {
            assert(c[i] == suf[i - head.len() - pre.len()]);
        } else {
            assert(c[i] == mid[i - head.len() - pre.len() - suf.len()]);
        }
    }
    if n > 0 {
        assert(c[0] == Seq::<char>::empty());
    }
    assert forall|l: int| 0 < l < cs.len() implies #[trigger] c.contains(cs.take(l)) by {
        let j = n - 1 - l;
        assert(c[head.len() + j] == pre[j]);
        assert(pre[j] =~= cs.take(l));
    }
    assert forall|l: int| 0 < l < cs.len() implies #[trigger] c.contains(cs.skip(l)) by {
        let j = l - 1;
        assert(c[head.len() + pre.len() + j] == suf[j]);
        assert(suf[j] =~= cs.skip(l));
    }
    if n > 2 {
        assert(c[(head.len() + pre.len() + suf.len()) as int] == cs.remove(n / 2));
    }
}

/// Signed integer shrinking moves toward zero: for a value other than zero, zero is a
/// candidate; for a negative value, its half rounded toward zero is one, and so is the half
/// of every negative candidate; every candidate but the positive counterpart is closer to
/// zero than the value. For a positive value, its half and the half of every positive
/// candidate are candidates, and every candidate is smaller than the value.
pub proof fn lemma_signed_candidates_toward_zero(v: int, negation_fits: bool)
    ensures
        v != 0 ==> signed_candidates(v, negation_fits).contains(0),
        v < 0 ==> signed_candidates(v, negation_fits).contains(-((-v) / 2)),
        v > 0 ==> signed_candidates(v, negation_fits).contains(v / 2),
        v < 0 ==> forall|i: int|
            0 <= i < signed_candidates(v, negation_fits).len() ==> {
                let c = #[trigger] signed_candidates(v, negation_fits)[i];
                &&& c == -v || (v < c <= 0)
                &&& c < 0 ==> signed_candidates(v, negation_fits).contains(-((-c) / 2))
            },
        v > 0 ==> forall|i: int|
            0 <= i < signed_candidates(v, negation_fits).len() ==> {
                let c = #[trigger] signed_candidates(v, negation_fits)[i];
                &&& 0 <= c < v
                &&& c > 0 ==> signed_candidates(v, negation_fits).contains(c / 2)
            },
{
    let c = signed_candidates(v, negation_fits);
    if v != 0 {
        assert(c[0] == 0);
    }
    if v < 0 {
        let nh = negative_halvings(v);
        let tail = (if negation_fits { seq![-v] } else { seq![] });
        assert(c == seq![0int] + (nh + tail));
        lemma_negative_halvings_chain(v);
        assert(c[1] == nh[0]);
        assert forall|i: int| 0 <= i < c.len() implies {
            let x = #[trigger] c[i];
            &&& x == -v || (v < x <= 0)
            &&& x < 0 ==> c.contains(-((-x) / 2))
        } by {
            if i == 0 {
            } else if i - 1 < nh.len() {
                assert(c[i] == nh[i - 1]);
                if c[i] < 0 {
                    let j = i - 1;
                    if j + 1 < nh.len() {
                        assert(c[i + 1] == nh[j + 1]);
                    } else {
                        assert(c[0] == 0);
                    }
                }
            } else {
                assert(c[i] == tail[i - 1 - nh.len()]);
            }
        }
    }
    if v > 0 {
        let h = halvings(v);
        assert(c == seq![0int] + h);
        lemma_halvings_chain(v);
        assert(c[1] == h[0]);
        assert forall|i: int| 0 <= i < c.len() implies {
            let x = #[trigger] c[i];
            &&& 0 <= x < v
            &&& x > 0 ==> c.contains(x / 2)
        } by {
            if i > 0 {
                assert(c[i] == h[i - 1]);
                if c[i] > 0 {
                    let j = i - 1;
                    if j + 1 < h.len() {
                        assert(c[i + 1] == h[j + 1]);
                    } else {
                        assert(c[0] == 0);
                    }
                }
            }
        }
    }
}

/// The negative halvings of `v` start at its half rounded toward zero, each is the half of
/// the one before, all lie strictly between `v` and one past zero, and the last is zero.
proof fn lemma_negative_halvings_chain(v: int)
    requires
        v < 0,
    ensures
        negative_halvings(v).len() >= 1,
        negative_halvings(v)[0] == -((-v) / 2),
        forall|j: int|
            0 <= j < negative_halvings(v).len() ==> v < #[trigger] negative_halvings(v)[j] <= 0,
        forall|j: int|
            0 <= j < negative_halvings(v).len() - 1 ==> negative_halvings(v)[j + 1] == -((-(
            #[trigger] negative_halvings(v)[j])) / 2),
        negative_halvings(v)[negative_halvings(v).len() - 1] == 0,
    decreases -v,
{
    let h = trunc_half(v);
    assert(h == -((-v) / 2));
    let rest = negative_halvings(h);
    assert(negative_halvings(v) == seq![h] + rest);
    if h < 0 {
        lemma_negative_halvings_chain(h);
        assert forall|j: int| 0 <= j < negative_halvings(v).len() implies v < #[trigger] negative_halvings(v)[j]
            <= 0 by {
            if j > 0 {
                assert(negative_halvings(v)[j] == rest[j - 1]);
            }
        }
        assert forall|j: int| 0 <= j < negative_halvings(v).len() - 1 implies negative_halvings(v)[j + 1]
            == -((-(#[trigger] negative_halvings(v)[j])) / 2) by {
            if j > 0 {
                assert(negative_halvings(v)[j] == rest[j - 1]);
                assert(negative_halvings(v)[j + 1] == rest[j]);
            } else {
                assert(negative_halvings(v)[1] == rest[0]);
            }
        }
        assert(negative_halvings(v)[negative_halvings(v).len() - 1] == rest[rest.len() - 1]);
    } else {
        assert(rest == Seq::<int>::empty());
    }
}

/// The halvings of a positive `v` start at its half, each is the half of the one before,
/// all lie in `0..v`, and the last is zero.
proof fn lemma_halvings_chain(v: int)
    requires
        v > 0,
    ensures
        halvings(v).len() >= 1,
        halvings(v)[0] == v / 2,
        forall|j: int| 0 <= j < halvings(v).len() ==> 0 <= #[trigger] halvings(v)[j] < v,
        forall|j: int|
            0 <= j < halvings(v).len() - 1 ==> halvings(v)[j + 1] == (#[trigger] halvings(v)[j]) / 2,
        halvings(v)[halvings(v).len() - 1] == 0,
    decreases v,
{
    let h = v / 2;
    let rest = halvings(h);
    assert(halvings(v) == seq![h] + rest);
    if h > 0 {
        lemma_halvings_chain(h);
        assert forall|j: int| 0 <= j < halvings(v).len() implies 0 <= #[trigger] halvings(v)[j] < v by {
            if j > 0 {
                assert(halvings(v)[j] == rest[j - 1]);
            }
        }
        assert forall|j: int| 0 <= j < halvings(v).len() - 1 implies halvings(v)[j + 1] == (
        #[trigger] halvings(v)[j]) / 2 by {
            if j > 0 {
                assert(halvings(v)[j] == rest[j - 1]);
                assert(halvings(v)[j + 1] == rest[j]);
            } else {
                assert(halvings(v)[1] == rest[0]);
            }
        }
        assert(halvings(v)[halvings(v).len() - 1] == rest[rest.len() - 1]);
    } else {
        assert(rest == Seq::<int>::empty());
    }
}

} // verus!
