//! Lottery sequences: a contiguous integer range in a randomly shuffled
//! order. The shuffle draws its indices from the `rand` crate; whatever the
//! draws were, the result is a rearrangement of the full range.

use vstd::prelude::*;
use vstd::seq_lib::group_to_multiset_ensures;
use vstd::seq_lib::to_multiset_update;

verus! {

/// Relies on `rand::random_range` over `0..n`: the drawn value always lies
/// in the (non-empty) range. Nothing else is promised of it.
#[verifier::external_body]
fn rand_below(n: usize) -> (r: usize)
    requires
        n >= 1,
    ensures
        r < n,
{
    rand::random_range(0..n)
}

/// The range `low..=high` in ascending order.
pub open spec fn range_seq(low: i64, high: i64) -> Seq<i64> {
    Seq::new((high + 1 - low) as nat, |k: int| (low + k) as i64)
}

/// Swapping two positions of a sequence leaves its multiset of elements
/// unchanged.
proof fn lemma_swap_multiset<T>(s: Seq<T>, a: int, b: int)
    requires
        0 <= a < s.len(),
        0 <= b < s.len(),
    ensures
        s.update(a, s[b]).update(b, s[a]).to_multiset() == s.to_multiset(),
{
    broadcast use group_to_multiset_ensures;
    broadcast use to_multiset_update;

    let s1 = s.update(a, s[b]);
    if a == b {
        assert(s1.update(b, s[a]) =~= s);
    } else {
        assert(s1[b] == s[b]);
        assert(s.to_multiset().count(s[a]) > 0);
        assert(s1.update(b, s[a]).to_multiset() =~= s.to_multiset());
    }
}

/// Create a lottery sequence: every integer from `low` through `high` once,
/// in a randomly shuffled order. Whatever indices the generator hands back,
/// the result holds exactly the elements of the range.
pub fn lottery(low: i64, high: i64) -> (r: Vec<i64>)
    requires
        low <= high,
        high < i64::MAX,
        high + 1 - low <= usize::MAX,
    ensures
        r@.len() == high + 1 - low,
        r@.to_multiset() == range_seq(low, high).to_multiset(),
        forall|k: int| 0 <= k < r@.len() ==> low <= #[trigger] r@[k] <= high,
{
    broadcast use group_to_multiset_ensures;

    let mut list: Vec<i64> = Vec::new();
    let mut val: i64 = low;
    while val <= high
        invariant
            low <= val <= high + 1,
            high < i64::MAX,
            high + 1 - low <= usize::MAX,
            list@.len() == val - low,
            forall|k: int| 0 <= k < list@.len() ==> list@[k] == low + k,
        decreases high + 1 - val,
    {
        list.push(val);
        val = val + 1;
    }
    proof {
        assert(list@ =~= range_seq(low, high));
    }
    let ghost base = list@;

    let range_len: usize = list.len();
    let mut len: usize = range_len;
    while len >= 2
        invariant
            0 <= len <= range_len,
            list@.len() == range_len,
            list@.to_multiset() == base.to_multiset(),
        decreases len,
    {
        let random_index: usize = rand_below(len);
        let ghost before = list@;
        let x: i64 = list[random_index];
        let y: i64 = list[len - 1];
        list[random_index] = y;
        list[len - 1] = x;
        proof {
            assert(list@ =~= before.update(random_index as int, y).update(len - 1, x));
            lemma_swap_multiset(before, random_index as int, len - 1);
        }
        len = len - 1;
    }
    proof {
        assert forall|k: int| 0 <= k < list@.len() implies low <= #[trigger] list@[k]
            <= high by {
            assert(list@.to_multiset().count(list@[k]) > 0);
            assert(list@.contains(list@[k]));
            assert(base.to_multiset().count(list@[k]) > 0);
            assert(base.contains(list@[k]));
            let w = choose|w: int| 0 <= w < base.len() && base[w] == list@[k];
            assert(base[w] == low + w);
        }
    }
    list
}

} // verus!
