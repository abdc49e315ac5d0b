//! A chainable configuration of property tests whose property is a closure.

use vstd::prelude::*;
use crate::config::{GeneratorConfig, TestConfig, is_default_test_config};
use crate::ergonomic::closure_property::{ClosureProperty, PropertyClosure, check_with_closure_config};
use crate::error::{TestFailure, TestSuccess};
use crate::execution::run_outcome;
use crate::generator::Generator;
use crate::time::Duration;

verus! {

/// A property test configured step by step, then run with a generator and a closure.
#[derive(Debug)]
pub struct ErgonomicPropertyTest<T> {
    /// The configuration of the test.
    pub config: TestConfig,
    /// Ties the test to its input type.
    pub marker: core::marker::PhantomData<T>,
}

impl<T> ErgonomicPropertyTest<T> {
    /// A test with the default configuration.
    pub fn new() -> (r: Self)
        ensures
            is_default_test_config(r.config),
    {
        ErgonomicPropertyTest { config: TestConfig::default(), marker: core::marker::PhantomData }
    }

    /// Sets the number of iterations.
    pub fn iterations(self, n: usize) -> (r: Self)
        ensures
            r.config == (TestConfig { iterations: n, ..self.config }),
    {
        let mut b = self;
        b.config.iterations = n;
        b
    }

    /// Sets the seed, for reproducible runs.
    pub fn seed(self, seed: u64) -> (r: Self)
        ensures
            r.config == (TestConfig { seed: Some(seed), ..self.config }),
    {
        let mut b = self;
        b.config.seed = Some(seed);
        b
    }

    /// Sets the maximum number of shrinking iterations.
    pub fn max_shrink_iterations(self, n: usize) -> (r: Self)
        ensures
            r.config == (TestConfig { max_shrink_iterations: n, ..self.config }),
    {
        let mut b = self;
        b.config.max_shrink_iterations = n;
        b
    }

    /// Sets the shrinking timeout.
    pub fn shrink_timeout(self, timeout: Duration) -> (r: Self)
        ensures
            r.config == (TestConfig { shrink_timeout: timeout, ..self.config }),
    {
        let mut b = self;
        b.config.shrink_timeout = timeout;
        b
    }

    /// Sets the size hint of generation.
    pub fn size_hint(self, hint: usize) -> (r: Self)
        ensures
            r.config == (TestConfig {
                generator_config: GeneratorConfig { size_hint: hint, ..self.config.generator_config },
                ..self.config
            }),
    {
        let mut b = self;
        b.config.generator_config.size_hint = hint;
        b
    }

    /// Sets the maximum depth of nested generated structures.
    pub fn max_depth(self, depth: usize) -> (r: Self)
        ensures
            r.config == (TestConfig {
                generator_config: GeneratorConfig { max_depth: depth, ..self.config.generator_config },
                ..self.config
            }),
    {
        let mut b = self;
        b.config.generator_config.max_depth = depth;
        b
    }

    /// Runs the test with `generator` and the property `closure`.
    pub fn run_with<G: Generator<T>, F: PropertyClosure<T>>(self, generator: G, closure: F) -> (r: Result<
        TestSuccess<T>,
        TestFailure<T>,
    >) where T: Clone + core::fmt::Debug + PartialEq
        requires
            generator.can_generate(self.config.generator_config),
            forall|x: T| #[trigger] closure.accepts(x),
            forall|x: T| #[trigger] generator.can_shrink(x),
        ensures
            run_outcome(generator, ClosureProperty { closure }, self.config, r),
    {
        check_with_closure_config(generator, closure, self.config)
    }
}

impl<T> Default for ErgonomicPropertyTest<T> {
    fn default() -> (r: Self)
        ensures
            is_default_test_config(r.config),
    {
        ErgonomicPropertyTest::new()
    }
}

/// A property test of `closure` with the default configuration, to configure step by step.
pub fn property<T, F: PropertyClosure<T>>(closure: F) -> (r: ErgonomicPropertyTestWithClosure<T, F>)
    ensures
        r.closure == closure,
        is_default_test_config(r.config),
{
    ErgonomicPropertyTestWithClosure {
        closure,
        config: TestConfig::default(),
        marker: core::marker::PhantomData,
    }
}

/// A property test of a closure, configured step by step, then run with a generator.
pub struct ErgonomicPropertyTestWithClosure<T, F> {
    /// The property.
    pub closure: F,
    /// The configuration of the test.
    pub config: TestConfig,
    /// Ties the test to its input type.
    pub marker: core::marker::PhantomData<T>,
}

impl<T, F: PropertyClosure<T>> ErgonomicPropertyTestWithClosure<T, F> {
    /// Sets the number of iterations.
    pub fn iterations(self, n: usize) -> (r: Self)
        ensures
            r.closure == self.closure,
            r.config == (TestConfig { iterations: n, ..self.config }),
    {
        let mut b = self;
        b.config.iterations = n;
        b
    }

    /// Sets the seed, for reproducible runs.
    pub fn seed(self, seed: u64) -> (r: Self)
        ensures
            r.closure == self.closure,
            r.config == (TestConfig { seed: Some(seed), ..self.config }),
    {
        let mut b = self;
        b.config.seed = Some(seed);
        b
    }

    /// Sets the maximum number of shrinking iterations.
    pub fn max_shrink_iterations(self, n: usize) -> (r: Self)
        ensures
            r.closure == self.closure,
            r.config == (TestConfig { max_shrink_iterations: n, ..self.config }),
    {
        let mut b = self;
        b.config.max_shrink_iterations = n;
        b
    }

    /// Sets the shrinking timeout.
    pub fn shrink_timeout(self, timeout: Duration) -> (r: Self)
        ensures
            r.closure == self.closure,
            r.config == (TestConfig { shrink_timeout: timeout, ..self.config }),
    {
        let mut b = self;
        b.config.shrink_timeout = timeout;
        b
    }

    /// Sets the size hint of generation.
    pub fn size_hint(self, hint: usize) -> (r: Self)
        ensures
            r.closure == self.closure,
            r.config == (TestConfig {
                generator_config: GeneratorConfig { size_hint: hint, ..self.config.generator_config },
                ..self.config
            }),
    {
        let mut b = self;
        b.config.generator_config.size_hint = hint;
        b
    }

    /// Sets the maximum depth of nested generated structures.
    pub fn max_depth(self, depth: usize) -> (r: Self)
        ensures
            r.closure == self.closure,
            r.config == (TestConfig {
                generator_config: GeneratorConfig { max_depth: depth, ..self.config.generator_config },
                ..self.config
            }),
    {
        let mut b = self;
        b.config.generator_config.max_depth = depth;
        b
    }

    /// Runs the test of the closure with `generator`.
    pub fn run_with<G: Generator<T>>(self, generator: G) -> (r: Result<TestSuccess<T>, TestFailure<T>>) where
        T: Clone + core::fmt::Debug + PartialEq,
        requires
            generator.can_generate(self.config.generator_config),
            forall|x: T| #[trigger] self.closure.accepts(x),
            forall|x: T| #[trigger] generator.can_shrink(x),
        ensures
            run_outcome(generator, ClosureProperty { closure: self.closure }, self.config, r),
    {
        check_with_closure_config(generator, self.closure, self.config)
    }
}

} // verus!
