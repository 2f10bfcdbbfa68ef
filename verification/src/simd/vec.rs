//! Flat-buffer vector operations: the kernel entry points the tensor engine
//! calls, dispatching to the specialized implementations.

use vstd::prelude::*;

use crate::la::tnsr::TnsrValType;
use crate::simd::x86::avx2;

verus! {

/// Left-fold of the squares of the elements, seeded with the zero element:
/// `(..(0 + s[0]*s[0]) + s[1]*s[1]..) + s[n-1]*s[n-1]`.
pub open spec fn sum_squares<T: TnsrValType>(s: Seq<T>) -> T
    decreases s.len(),
{
    if s.len() == 0 {
        T::v_zero()
    } else {
        sum_squares(s.drop_last()).v_add(s.last().v_mul(s.last()))
    }
}

/// Create a new storage vector with room for `size` elements and none stored.
pub fn new<T: TnsrValType>(size: usize) -> (r: Vec<T>)
    ensures
        r@.len() == 0,
{
    Vec::with_capacity(size)
}

/// Elementwise in-place sum: `az[k]` becomes `az[k] + bs[k]`.
pub fn add<T: TnsrValType>(az: &mut Vec<T>, bs: &[T])
    requires
        old(az)@.len() == bs@.len(),
    ensures
        final(az)@.len() == old(az)@.len(),
        forall|k: int| 0 <= k < final(az)@.len() ==> final(az)@[k] == old(az)@[k].v_add(bs@[k]),
{
    avx2::add(az, bs);
}

/// Square every element in place: `az[k]` becomes `az[k] * az[k]`.
pub fn pow2<T: TnsrValType>(az: &mut Vec<T>)
    ensures
        final(az)@.len() == old(az)@.len(),
        forall|k: int| 0 <= k < final(az)@.len() ==> final(az)@[k] == old(az)@[k].v_mul(old(az)@[k]),
{
    avx2::pow2(az);
}

/// The square root of the sum of squares of the elements.
pub fn norm<T: TnsrValType>(az: &[T]) -> (r: T)
    ensures
        r == sum_squares(az@).v_sqrt(),
{
    avx2::norm(az)
}

} // verus!
