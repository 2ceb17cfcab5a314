//! Typed client bindings for backend commands and events.
//!
//! A [`builder::Builder`] collects commands, events, named types and constants,
//! and renders them into one Typescript or JSDoc source file whose text is fixed
//! by the spec functions of this crate.
use vstd::prelude::*;

pub mod builder;
pub mod datatype;
pub mod document;
pub mod event;
pub mod js_ts;
pub mod naming;
pub mod typed_command;

verus! {

/// How a failing command reaches the caller of the generated bindings.
#[derive(Clone, Copy, Debug, PartialEq, Eq, Structural)]
pub enum ErrorHandlingMode {
    /// The error is thrown; the declared return type is the success type.
    Throw,
    /// The error is returned as the `error` case of a tagged result.
    Result,
}

impl Default for ErrorHandlingMode {
    fn default() -> (r: Self)
        ensures
            r == ErrorHandlingMode::Result,
    {
        ErrorHandlingMode::Result
    }
}

} // verus!
