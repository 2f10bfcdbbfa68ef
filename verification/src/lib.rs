//! Numeric computing library built around a dense N-dimensional tensor engine.
//!
//! The core is the [`la`] module: a tensor container generic over a numeric
//! element type, with pluggable index-to-offset order strategies, a zero-copy
//! transposed view, an in-place transposition algorithm for rectangular
//! matrices, and elementwise/matrix algebra on top.

use vstd::prelude::*;

pub mod constant;
pub mod la;
pub mod random;
pub mod roots;
pub mod simd;

verus! {

/// Identity on a signed 32-bit value.
pub fn foo(n: i32) -> (r: i32)
    ensures
        r == n,
{
    n
}

} // verus!
