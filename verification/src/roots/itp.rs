//! State for the interpolate-truncate-project root-finding algorithm.

use vstd::prelude::*;

use super::RootFinderState;

verus! {

/// The ITP method carries no state between iterations.
pub struct ItpState {}

impl RootFinderState for ItpState {
    fn new() -> ItpState {
        ItpState {  }
    }
}

} // verus!
