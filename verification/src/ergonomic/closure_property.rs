//! Closures as properties.

use vstd::prelude::*;
use crate::config::{GeneratorConfig, TestConfig, is_default_test_config};
use crate::error::{PropertyError, TestFailure, TestSuccess};
use crate::execution::{check_with_config, run_outcome};
use crate::generator::Generator;
use crate::property::Property;

verus! {

/// A closure that can act as a property.
pub trait PropertyClosure<T> {
    /// What a passing call gives back.
    type Output;

    /// Whether the closure may be called on `input`.
    spec fn accepts(&self, input: T) -> bool;

    /// Whether `r` is an outcome that calling the closure on `input` may have.
    spec fn outcome(&self, input: T, r: Result<Self::Output, PropertyError>) -> bool;

    /// Calls the closure on `input`.
    fn call(&self, input: T) -> (r: Result<Self::Output, PropertyError>)
        requires
            self.accepts(input),
        ensures
            self.outcome(input, r),
    ;
}

/// The outcome of a boolean check: passing on `true`, a property failure with the
/// message `Property returned false` on `false`.
pub open spec fn bool_outcome(b: bool, r: Result<(), PropertyError>) -> bool {
    if b {
        r == Ok::<(), PropertyError>(())
    } else {
        r matches Err(PropertyError::PropertyFailed { message, context: None, iteration: None })
            && message@ == "Property returned false"@
    }
}

/// The result of a boolean check: `Ok` on `true`, a property failure on `false`.
pub fn bool_result(b: bool) -> (r: Result<(), PropertyError>)
    ensures
        bool_outcome(b, r),
{
    if b {
        Ok(())
    } else {
        Err(PropertyError::property_failed("Property returned false"))
    }
}

impl<T, F: Fn(T) -> bool> PropertyClosure<T> for F {
    type Output = ();

    open spec fn accepts(&self, input: T) -> bool {
        call_requires(*self, (input,))
    }

    open spec fn outcome(&self, input: T, r: Result<(), PropertyError>) -> bool {
        exists|b: bool| call_ensures(*self, (input,), b) && #[trigger] bool_outcome(b, r)
    }

    fn call(&self, input: T) -> (r: Result<(), PropertyError>) {
        let b = self(input);
        bool_result(b)
    }
}

/// A property made of a closure.
pub struct ClosureProperty<F> {
    /// The closure.
    pub closure: F,
}

impl<F> ClosureProperty<F> {
    /// A property made of `closure`.
    pub fn new(closure: F) -> (r: Self)
        ensures
            r.closure == closure,
    {
        ClosureProperty { closure }
    }
}

impl<T, F: PropertyClosure<T>> Property<T> for ClosureProperty<F> {
    type Output = F::Output;

    open spec fn accepts(&self, input: T) -> bool {
        self.closure.accepts(input)
    }

    open spec fn outcome(&self, input: T, r: Result<F::Output, PropertyError>) -> bool {
        self.closure.outcome(input, r)
    }

    fn test(&self, input: T) -> (r: Result<F::Output, PropertyError>) {
        self.closure.call(input)
    }
}

/// A closure property may be checked on an input exactly when its closure may be.
pub proof fn lemma_closure_property_accepts<T, F: PropertyClosure<T>>(p: ClosureProperty<F>, input: T)
    ensures
        Property::<T>::accepts(&p, input) == p.closure.accepts(input),
{
}

/// Checks a closure as a property, with the default configuration.
pub fn check_with_closure<T: Clone + core::fmt::Debug + PartialEq, G: Generator<T>, F: PropertyClosure<T>>(
    generator: G,
    closure: F,
) -> (r: Result<TestSuccess<T>, TestFailure<T>>)
    requires
        generator.can_generate(GeneratorConfig::spec_default()),
        forall|x: T| #[trigger] closure.accepts(x),
        forall|x: T| #[trigger] generator.can_shrink(x),
    ensures
        exists|c: TestConfig|
            #[trigger] is_default_test_config(c) && run_outcome(
                generator,
                ClosureProperty { closure },
                c,
                r,
            ),
{
    check_with_closure_config(generator, closure, TestConfig::default())
}

/// Checks a closure as a property, with a custom configuration.
pub fn check_with_closure_config<
    T: Clone + core::fmt::Debug + PartialEq,
    G: Generator<T>,
    F: PropertyClosure<T>,
>(generator: G, closure: F, config: TestConfig) -> (r: Result<TestSuccess<T>, TestFailure<T>>)
    requires
        generator.can_generate(config.generator_config),
        forall|x: T| #[trigger] closure.accepts(x),
        forall|x: T| #[trigger] generator.can_shrink(x),
    ensures
        run_outcome(generator, ClosureProperty { closure }, config, r),
{
    let property = ClosureProperty::new(closure);
    assert forall|x: T| #[trigger] property.accepts(x) by {
        assert(closure.accepts(x));
    }
    check_with_config(generator, property, config)
}

} // verus!
