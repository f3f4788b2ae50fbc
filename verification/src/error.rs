//! The failures that the library reports.
use vstd::prelude::*;

verus! {

/// Why an operation was refused.
#[derive(Clone, Copy, Debug, PartialEq, Eq, Structural)]
pub enum Error {
    /// Two values that must agree in shape, scalar type or device do not.
    Mismatch,
    /// A parameter's storage is shared and cannot be borrowed mutably.
    Shared,
    /// The operation is not implemented for the scalar type or the configuration given.
    Unimplemented,
    /// A variable was used with a graph that did not record it.
    Scope,
    /// The graph has already been walked backward.
    Consumed,
    /// A shape spans more elements than `usize` can count.
    TooLarge,
}

} // verus!
