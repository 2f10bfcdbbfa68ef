//! Elementwise kernels in the slot the AVX2 specializations occupy; the
//! bodies are portable loops with the same contracts a vectorized
//! implementation would have to meet.

use vstd::prelude::*;

use crate::la::tnsr::TnsrValType;
use crate::simd::vec::sum_squares;

verus! {

/// Combine the vectors elementwise in place with the given operation:
/// `az[k]` becomes `op(az[k], bs[k])`.
fn binary_op<T: TnsrValType, F: Fn(T, T) -> T>(op: F, az: &mut Vec<T>, bs: &[T])
    requires
        old(az)@.len() == bs@.len(),
        forall|x: T, y: T| #[trigger] call_requires(op, (x, y)),
    ensures
        final(az)@.len() == old(az)@.len(),
        forall|k: int|
            0 <= k < final(az)@.len() ==> call_ensures(op, (old(az)@[k], bs@[k]), #[trigger] final(az)@[k]),
{
    let mut i: usize = 0;
    while i < az.len()
        invariant
            0 <= i <= az@.len(),
            az@.len() == old(az)@.len(),
            az@.len() == bs@.len(),
            forall|x: T, y: T| #[trigger] call_requires(op, (x, y)),
            forall|k: int|
                0 <= k < i ==> call_ensures(op, (old(az)@[k], bs@[k]), #[trigger] az@[k]),
            forall|k: int| i <= k < az@.len() ==> az@[k] == old(az)@[k],
        decreases az@.len() - i,
    {
        let r: T = op(az[i], bs[i]);
        az[i] = r;
        i = i + 1;
    }
}

/// Elementwise in-place sum: `az[k]` becomes `az[k] + bs[k]`.
pub fn add<T: TnsrValType>(az: &mut Vec<T>, bs: &[T])
    requires
        old(az)@.len() == bs@.len(),
    ensures
        final(az)@.len() == old(az)@.len(),
        forall|k: int| 0 <= k < final(az)@.len() ==> final(az)@[k] == old(az)@[k].v_add(bs@[k]),
{
    let op = (|x: T, y: T| -> (r: T)
        ensures
            r == x.v_add(y),
        {
            x.add_val(y)
        });
    binary_op(op, az, bs);
    proof {
        assert forall|k: int| 0 <= k < az@.len() implies az@[k] == old(az)@[k].v_add(
            bs@[k],
        ) by {
            assert(call_ensures(op, (old(az)@[k], bs@[k]), az@[k]));
        }
    }
}

/// Square every element in place: `az[k]` becomes `az[k] * az[k]`.
pub fn pow2<T: TnsrValType>(az: &mut Vec<T>)
    ensures
        final(az)@.len() == old(az)@.len(),
        forall|k: int| 0 <= k < final(az)@.len() ==> final(az)@[k] == old(az)@[k].v_mul(old(az)@[k]),
{
    let mut i: usize = 0;
    while i < az.len()
        invariant
            0 <= i <= az@.len(),
            az@.len() == old(az)@.len(),
            forall|k: int| 0 <= k < i ==> az@[k] == old(az)@[k].v_mul(old(az)@[k]),
            forall|k: int| i <= k < az@.len() ==> az@[k] == old(az)@[k],
        decreases az@.len() - i,
    {
        let r: T = az[i].mul_val(az[i]);
        az[i] = r;
        i = i + 1;
    }
}

/// The square root of the sum of squares, accumulated left to right from the
/// zero element.
pub fn norm<T: TnsrValType>(az: &[T]) -> (r: T)
    ensures
        r == sum_squares(az@).v_sqrt(),
{
    let mut acc: T = T::zero();
    let mut i: usize = 0;
    proof {
        assert(az@.take(0).len() == 0);
    }
    while i < az.len()
        invariant
            0 <= i <= az@.len(),
            acc == sum_squares(az@.take(i as int)),
        decreases az@.len() - i,
    {
        proof {
            assert(az@.take(i + 1).drop_last() =~= az@.take(i as int));
            assert(az@.take(i + 1).last() == az@[i as int]);
        }
        acc = acc.add_val(az[i].mul_val(az[i]));
        i = i + 1;
    }
    proof {
        assert(az@.take(az@.len() as int) =~= az@);
    }
    acc.sqrt_val()
}

} // verus!
