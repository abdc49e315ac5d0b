//! The property abstraction: a check of one input that passes or fails with an error.

use vstd::prelude::*;
use crate::error::PropertyError;

verus! {

/// A property of inputs of type `T`, for users to implement.
pub trait Property<T> {
    /// What a passing check gives back.
    type Output;

    /// Whether the check may be made on `input`.
    spec fn accepts(&self, input: T) -> bool;

    /// Whether `r` is an outcome that checking `input` may have.
    spec fn outcome(&self, input: T, r: Result<Self::Output, PropertyError>) -> bool;

    /// Checks the property on `input`.
    fn test(&self, input: T) -> (r: Result<Self::Output, PropertyError>)
        requires
            self.accepts(input),
        ensures
            self.outcome(input, r),
    ;
}

} // verus!
