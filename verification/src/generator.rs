//! The generator abstraction and simple generators.

use vstd::prelude::*;
use rand::rngs::StdRng;
use crate::config::GeneratorConfig;
use crate::rng::random_index;

verus! {

/// Generator of random test data of type `T`, with shrinking of generated values.
pub trait Generator<T>: Sized {
    /// Whether generation is possible under `config` (the ranges to draw from are not
    /// empty).
    spec fn can_generate(&self, config: GeneratorConfig) -> bool;

    /// Whether `value` is one that generation under `config` may give.
    spec fn generates(&self, config: GeneratorConfig, value: T) -> bool;

    /// Whether shrinking `value` is defined (its arithmetic stays in range).
    spec fn can_shrink(&self, value: T) -> bool;

    /// Whether `candidates` is a list that shrinking `value` may give, in order.
    spec fn shrinks_to(&self, value: T, candidates: Seq<T>) -> bool;

    /// A random value, drawn with `rng`.
    fn generate(&self, rng: &mut StdRng, config: &GeneratorConfig) -> (r: T)
        requires
            self.can_generate(*config),
        ensures
            self.generates(*config, r),
    ;

    /// The candidates for shrinking `value`, simplest first.
    fn shrink(&self, value: &T) -> (r: Vec<T>)
        requires
            self.can_shrink(*value),
        ensures
            self.shrinks_to(*value, r@),
    ;
}

/// A generator that always produces (a clone of) the same value.
#[derive(Debug, Clone)]
pub struct ConstantGenerator<T> {
    /// The value produced.
    pub value: T,
}

impl<T: Clone> ConstantGenerator<T> {
    /// A generator of `value`.
    pub fn new(value: T) -> (r: Self)
        ensures
            r.value == value,
    {
        ConstantGenerator { value }
    }
}

impl<T: Clone> Generator<T> for ConstantGenerator<T> {
    open spec fn can_generate(&self, config: GeneratorConfig) -> bool {
        true
    }

    open spec fn generates(&self, config: GeneratorConfig, value: T) -> bool {
        cloned(self.value, value)
    }

    open spec fn can_shrink(&self, value: T) -> bool {
        true
    }

    open spec fn shrinks_to(&self, value: T, candidates: Seq<T>) -> bool {
        candidates.len() == 0
    }

    fn generate(&self, rng: &mut StdRng, config: &GeneratorConfig) -> (r: T) {
        self.value.clone()
    }

    fn shrink(&self, value: &T) -> (r: Vec<T>) {
        Vec::new()
    }
}

/// A generator that chooses randomly among a non-empty list of values.
#[derive(Debug)]
pub struct OneOfGenerator<T> {
    values: Vec<T>,
}

impl<T> OneOfGenerator<T> {
    /// The values to choose from.
    pub closed spec fn view(&self) -> Seq<T> {
        self.values@
    }

    #[verifier::type_invariant]
    spec fn non_empty(&self) -> bool {
        self.values@.len() > 0
    }
}

impl<T: Clone> OneOfGenerator<T> {
    /// A generator choosing among `values`, which must not be empty.
    pub fn new(values: Vec<T>) -> (r: Self)
        requires
            values@.len() > 0,
        ensures
            r.view() == values@,
    {
        OneOfGenerator { values }
    }
}

impl<T: Clone> Generator<T> for OneOfGenerator<T> {
    open spec fn can_generate(&self, config: GeneratorConfig) -> bool {
        true
    }

    open spec fn generates(&self, config: GeneratorConfig, value: T) -> bool {
        exists|i: int| 0 <= i < self.view().len() && cloned(#[trigger] self.view()[i], value)
    }

    open spec fn can_shrink(&self, value: T) -> bool {
        true
    }

    open spec fn shrinks_to(&self, value: T, candidates: Seq<T>) -> bool {
        candidates.len() == 0
    }

    fn generate(&self, rng: &mut StdRng, config: &GeneratorConfig) -> (r: T) {
        proof {
            use_type_invariant(self);
        }
        let index = random_index(rng, self.values.len());
        let r = self.values[index].clone();
        assert(cloned(self.view()[index as int], r));
        r
    }

    fn shrink(&self, value: &T) -> (r: Vec<T>) {
        Vec::new()
    }
}

} // verus!
