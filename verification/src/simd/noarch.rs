//! Portable scalar kernels, written without any architecture-specific path.

use vstd::prelude::*;

use crate::la::tnsr::TnsrValType;

verus! {

/// Elementwise in-place sum: `az[k]` becomes `az[k] + bs[k]`.
pub fn add<T: TnsrValType>(az: &mut Vec<T>, bs: &[T])
    requires
        old(az)@.len() == bs@.len(),
    ensures
        final(az)@.len() == old(az)@.len(),
        forall|k: int| 0 <= k < final(az)@.len() ==> final(az)@[k] == old(az)@[k].v_add(bs@[k]),
{
    let mut i: usize = 0;
    while i < az.len()
        invariant
            0 <= i <= az@.len(),
            az@.len() == old(az)@.len(),
            az@.len() == bs@.len(),
            forall|k: int| 0 <= k < i ==> az@[k] == old(az)@[k].v_add(bs@[k]),
            forall|k: int| i <= k < az@.len() ==> az@[k] == old(az)@[k],
        decreases az@.len() - i,
    {
        let s: T = az[i].add_val(bs[i]);
        az[i] = s;
        i = i + 1;
    }
}

} // verus!
