//! Ergonomic ways to write properties: closures and common patterns.

pub mod builder;
pub mod closure_property;
pub mod patterns;

pub use builder::{ErgonomicPropertyTest, ErgonomicPropertyTestWithClosure, property};
pub use closure_property::{
    ClosureProperty, PropertyClosure, check_with_closure, check_with_closure_config,
};
