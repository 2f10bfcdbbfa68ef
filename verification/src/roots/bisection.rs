//! State for the bisection root-finding algorithm.

use vstd::prelude::*;

use super::RootFinderState;

verus! {

/// Bisection carries no state between iterations.
pub struct BisectionState {}

impl RootFinderState for BisectionState {
    fn new() -> BisectionState {
        BisectionState {  }
    }
}

} // verus!
