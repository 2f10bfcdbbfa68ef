//! Root-finding scaffolding: the error taxonomy and the per-algorithm state
//! types that iterations carry. The iterations themselves work on
//! floating-point data and live outside this library.

use vstd::prelude::*;

pub mod bisection;
pub mod itp;

verus! {

/// Errors that may happen in a root-finding algorithm.
#[derive(Clone, Copy, Debug, PartialEq, Eq, Structural)]
pub enum RootsErr {
    /// A call to the function under investigation failed.
    FunctionFailed,
    /// The function values at the ends of the input range do not straddle
    /// zero.
    EndpointsNotStraddleYeq0,
}

/// State transferred between root-finding iterations.
pub trait RootFinderState: Sized {
    /// Create the initial state.
    fn new() -> Self;
}

} // verus!
