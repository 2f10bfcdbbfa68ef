//! Index-to-offset order strategies and the transposition view flag.
//!
//! An order strategy maps a multi-index to an offset in the flat storage
//! buffer. The mapping is chosen once, at tensor construction, from the
//! layout kind (row-major or column-major) and the dimension count, and is
//! fixed for the tensor's lifetime.

use vstd::prelude::*;

verus! {

/// Layout kind: which index varies fastest in the flat buffer. Only dense
/// layouts are offered; a sparse backing store is deliberately not among
/// them.
#[derive(Clone, Copy, Debug, PartialEq, Eq, Structural)]
pub enum TnsrOrderType {
    /// Dense, last index varies fastest.
    RowMajor,
    /// Dense, first index varies fastest.
    ColMajor,
}

/// Product of all per-dimension extents: the flat buffer length.
pub open spec fn size_product(sz: Seq<usize>) -> int
    decreases sz.len(),
{
    if sz.len() == 0 {
        1
    } else {
        size_product(sz.drop_last()) * sz.last()
    }
}

/// Row-major offset of multi-index `i` under extents `sz`:
/// `(..((i0)*s1 + i1)*s2 + i2..)*s(k) + i(k)`.
pub open spec fn row_major_offset(i: Seq<usize>, sz: Seq<usize>) -> int
    decreases i.len(),
{
    if i.len() == 0 {
        0
    } else {
        row_major_offset(i.drop_last(), sz) * sz[i.len() - 1] + i.last()
    }
}

/// Column-major offset: the row-major offset with indices and extents
/// walked from the other end.
pub open spec fn col_major_offset(i: Seq<usize>, sz: Seq<usize>) -> int
    decreases i.len(),
{
    if i.len() == 0 {
        0
    } else {
        col_major_offset(i.skip(1), sz.skip(1)) * sz[0] + i[0]
    }
}

/// A multi-index is valid when every component is below its extent.
pub open spec fn index_in_bounds(i: Seq<usize>, sz: Seq<usize>) -> bool {
    &&& i.len() == sz.len()
    &&& forall|k: int| 0 <= k < i.len() ==> i[k] < sz[k]
}

/// Extents with a valid index are all positive, so every prefix product
/// divides into the full product and none exceeds it.
proof fn lemma_size_product_prefix(sz: Seq<usize>, j: int)
    requires
        0 <= j <= sz.len(),
        forall|k: int| 0 <= k < sz.len() ==> 1 <= sz[k],
    ensures
        1 <= size_product(sz.take(j)) <= size_product(sz),
    decreases sz.len() - j,
{
    if j == sz.len() {
        assert(sz.take(j) =~= sz);
        lemma_size_product_pos(sz);
    } else {
        lemma_size_product_prefix(sz, j + 1);
        assert(forall|k: int| 0 <= k < sz.take(j).len() ==> 1 <= sz.take(j)[k]);
        lemma_size_product_pos(sz.take(j));
        let p = size_product(sz.take(j));
        assert(sz.take(j + 1).drop_last() =~= sz.take(j));
        assert(size_product(sz.take(j + 1)) == p * sz[j]);
        assert(p <= p * sz[j]) by (nonlinear_arith)
            requires
                1 <= p,
                1 <= sz[j],
        ;
    }
}

/// A valid index maps into `[0, size_product(sz))` under the row-major order.
pub proof fn lemma_row_major_offset_bound(i: Seq<usize>, sz: Seq<usize>)
    requires
        index_in_bounds(i, sz),
    ensures
        0 <= row_major_offset(i, sz) < size_product(sz),
    decreases i.len(),
{
    if i.len() == 0 {
    } else {
        lemma_row_major_offset_bound(i.drop_last(), sz.drop_last());
        let n = row_major_offset(i.drop_last(), sz.drop_last());
        let p = size_product(sz.drop_last());
        let s = sz.last() as int;
        let v = i.last() as int;
        assert(row_major_offset(i.drop_last(), sz) == n) by {
            lemma_row_major_offset_ignores_last(i.drop_last(), sz);
        }
        assert(0 <= n * s + v < p * s) by (nonlinear_arith)
            requires
                0 <= n <= p - 1,
                0 <= v < s,
        ;
    }
}

/// The row-major offset reads only the first `i.len()` extents, so dropping
/// trailing extents does not change it.
proof fn lemma_row_major_offset_ignores_last(i: Seq<usize>, sz: Seq<usize>)
    requires
        i.len() < sz.len(),
    ensures
        row_major_offset(i, sz) == row_major_offset(i, sz.drop_last()),
    decreases i.len(),
{
    if i.len() == 0 {
    } else {
        lemma_row_major_offset_ignores_last(i.drop_last(), sz);
    }
}

/// A valid index maps into `[0, size_product(sz))` under the column-major
/// order.
pub proof fn lemma_col_major_offset_bound(i: Seq<usize>, sz: Seq<usize>)
    requires
        index_in_bounds(i, sz),
    ensures
        0 <= col_major_offset(i, sz) < size_product(sz),
    decreases i.len(),
{
    if i.len() == 0 {
    } else {
        lemma_col_major_offset_bound(i.skip(1), sz.skip(1));
        let n = col_major_offset(i.skip(1), sz.skip(1));
        let p = size_product(sz.skip(1));
        let s = sz[0] as int;
        let v = i[0] as int;
        lemma_size_product_skip(sz);
        assert(0 <= n * s + v < s * p) by (nonlinear_arith)
            requires
                0 <= n <= p - 1,
                0 <= v < s,
        ;
    }
}

/// The product of all extents splits off its first factor.
proof fn lemma_size_product_skip(sz: Seq<usize>)
    requires
        sz.len() >= 1,
    ensures
        size_product(sz) == sz[0] * size_product(sz.skip(1)),
    decreases sz.len(),
{
    if sz.len() == 1 {
        assert(sz.drop_last().len() == 0);
        assert(sz.skip(1).len() == 0);
        assert(size_product(sz.drop_last()) == 1);
        assert(size_product(sz.skip(1)) == 1);
        assert(size_product(sz) == 1 * sz.last());
        assert(sz.last() == sz[0]);
    } else {
        lemma_size_product_skip(sz.drop_last());
        assert(sz.drop_last().skip(1) =~= sz.skip(1).drop_last());
        assert(sz.drop_last()[0] == sz[0]);
        let q = size_product(sz.skip(1).drop_last());
        let s0 = sz[0] as int;
        let sl = sz.last() as int;
        assert(sz.skip(1).last() == sz.last());
        assert(size_product(sz.drop_last()) == s0 * q);
        assert(size_product(sz) == (s0 * q) * sl);
        assert(size_product(sz.skip(1)) == q * sl);
        assert((s0 * q) * sl == s0 * (q * sl)) by (nonlinear_arith);
    }
}

/// Controls a tensor's internal order: the layout kind together with the
/// dimensionality it was specialized for.
#[derive(Clone, Copy, Debug, PartialEq, Eq, Structural)]
pub struct TnsrOrder {
    /// Layout kind.
    pub kind: TnsrOrderType,
    /// Dimension count the mapping was chosen for.
    pub nr_dims: usize,
}

impl TnsrOrder {
    /// The offset this order assigns to a multi-index.
    pub open spec fn spec_pos(self, i: Seq<usize>, sz: Seq<usize>) -> int {
        match self.kind {
            TnsrOrderType::RowMajor => row_major_offset(i, sz),
            TnsrOrderType::ColMajor => col_major_offset(i, sz),
        }
    }

    /// Create a new order strategy with the given layout kind, specialized
    /// to the given dimension count.
    pub fn new(kind: TnsrOrderType, nr_dims: usize) -> (r: Self)
        ensures
            r.kind == kind,
            r.nr_dims == nr_dims,
    {
        TnsrOrder { kind, nr_dims }
    }

    /// Map a multi-index to its flat offset for this order's layout kind.
    pub fn val_pos(&self, i: &[usize], sz: &[usize]) -> (r: usize)
        requires
            i@.len() == self.nr_dims >= 1,
            index_in_bounds(i@, sz@),
            size_product(sz@) <= usize::MAX,
        ensures
            r == self.spec_pos(i@, sz@),
            r < size_product(sz@),
    {
        match self.kind {
            TnsrOrderType::RowMajor => {
                if i.len() == 1 {
                    self.row_major_1d(i, sz)
                } else if i.len() == 2 {
                    self.row_major_2d(i, sz)
                } else {
                    self.row_major_nd(i, sz)
                }
            }
            TnsrOrderType::ColMajor => {
                if i.len() == 1 {
                    self.col_major_1d(i, sz)
                } else if i.len() == 2 {
                    self.col_major_2d(i, sz)
                } else {
                    self.col_major_nd(i, sz)
                }
            }
        }
    }

    /// One-dimensional row-major offset: the index itself.
    pub fn row_major_1d(&self, i: &[usize], _sz: &[usize]) -> (r: usize)
        requires
            i@.len() == 1,
            index_in_bounds(i@, _sz@),
            size_product(_sz@) <= usize::MAX,
        ensures
            r == row_major_offset(i@, _sz@),
            r < size_product(_sz@),
    {
        proof {
            lemma_row_major_offset_bound(i@, _sz@);
            assert(i@.drop_last().len() == 0);
            assert(row_major_offset(i@.drop_last(), _sz@) == 0);
            assert(row_major_offset(i@, _sz@) == 0 * _sz@[0] + i@.last());
            assert(i@.last() == i@[0]);
        }
        i[0]
    }

    /// Two-dimensional row-major offset: `i0 * s1 + i1`.
    pub fn row_major_2d(&self, i: &[usize], sz: &[usize]) -> (r: usize)
        requires
            i@.len() == 2,
            index_in_bounds(i@, sz@),
            size_product(sz@) <= usize::MAX,
        ensures
            r == row_major_offset(i@, sz@),
            r < size_product(sz@),
    {
        proof {
            lemma_row_major_offset_bound(i@, sz@);
            assert(i@.drop_last().drop_last().len() == 0);
            assert(row_major_offset(i@.drop_last().drop_last(), sz@) == 0);
            assert(i@.drop_last().last() == i@[0]);
            assert(row_major_offset(i@.drop_last(), sz@) == 0 * sz@[0] + i@[0]);
            assert(row_major_offset(i@, sz@) == i@[0] * sz@[1] + i@[1]);
        }
        i[1] + i[0] * sz[1]
    }

    /// General row-major offset:
    /// `((..(i0)*s1 + i1)*s2 + i2..)*s(k) + i(k)`.
    pub fn row_major_nd(&self, i: &[usize], sz: &[usize]) -> (r: usize)
        requires
            i@.len() >= 1,
            index_in_bounds(i@, sz@),
            size_product(sz@) <= usize::MAX,
        ensures
            r == row_major_offset(i@, sz@),
            r < size_product(sz@),
    {
        proof {
            lemma_row_major_offset_bound(i@, sz@);
        }
        let mut n: usize = i[0];
        proof {
            assert(i@.take(1).drop_last().len() == 0);
            assert(row_major_offset(i@.take(1).drop_last(), sz@) == 0);
            assert(i@.take(1).last() == i@[0]);
            assert(row_major_offset(i@.take(1), sz@) == 0 * sz@[0] + i@[0]);
        }
        let mut j: usize = 1;
        while j < i.len()
            invariant
                1 <= j <= i@.len(),
                i@.len() == sz@.len(),
                index_in_bounds(i@, sz@),
                size_product(sz@) <= usize::MAX,
                n == row_major_offset(i@.take(j as int), sz@),
            decreases i@.len() - j,
        {
            proof {
                lemma_rm_prefix_bound(i@, sz@, j as int);
                lemma_rm_prefix_bound(i@, sz@, j + 1);
                assert(i@.take(j + 1).drop_last() =~= i@.take(j as int));
                assert(row_major_offset(i@.take(j + 1), sz@) == row_major_offset(
                    i@.take(j as int),
                    sz@,
                ) * sz@[j as int] + i@[j as int]);
            }
            n = n * sz[j] + i[j];
            j = j + 1;
        }
        proof {
            assert(i@.take(i@.len() as int) =~= i@);
        }
        n
    }

    /// One-dimensional column-major offset: the index itself.
    pub fn col_major_1d(&self, i: &[usize], _sz: &[usize]) -> (r: usize)
        requires
            i@.len() == 1,
            index_in_bounds(i@, _sz@),
            size_product(_sz@) <= usize::MAX,
        ensures
            r == col_major_offset(i@, _sz@),
            r < size_product(_sz@),
    {
        proof {
            lemma_col_major_offset_bound(i@, _sz@);
            assert(i@.skip(1).len() == 0);
            assert(col_major_offset(i@.skip(1), _sz@.skip(1)) == 0);
            assert(col_major_offset(i@, _sz@) == 0 * _sz@[0] + i@[0]);
        }
        i[0]
    }

    /// Two-dimensional column-major offset: `i0 + i1 * s0`.
    pub fn col_major_2d(&self, i: &[usize], sz: &[usize]) -> (r: usize)
        requires
            i@.len() == 2,
            index_in_bounds(i@, sz@),
            size_product(sz@) <= usize::MAX,
        ensures
            r == col_major_offset(i@, sz@),
            r < size_product(sz@),
    {
        proof {
            lemma_col_major_offset_bound(i@, sz@);
            assert(i@.skip(1).skip(1).len() == 0);
            assert(col_major_offset(i@.skip(1).skip(1), sz@.skip(1).skip(1)) == 0);
            assert(i@.skip(1)[0] == i@[1]);
            assert(sz@.skip(1)[0] == sz@[1]);
            assert(col_major_offset(i@.skip(1), sz@.skip(1)) == 0 * sz@[1] + i@[1]);
            assert(col_major_offset(i@, sz@) == i@[1] * sz@[0] + i@[0]);
        }
        i[0] + i[1] * sz[0]
    }

    /// General column-major offset: the row-major polynomial with indices
    /// and extents taken in reverse.
    pub fn col_major_nd(&self, i: &[usize], sz: &[usize]) -> (r: usize)
        requires
            i@.len() >= 1,
            index_in_bounds(i@, sz@),
            size_product(sz@) <= usize::MAX,
        ensures
            r == col_major_offset(i@, sz@),
            r < size_product(sz@),
    {
        proof {
            lemma_col_major_offset_bound(i@, sz@);
        }
        let len: usize = i.len();
        let mut n: usize = i[len - 1];
        proof {
            assert(i@.skip(len - 1).len() == 1);
            assert(i@.skip(len - 1).skip(1).len() == 0);
            assert(col_major_offset(i@.skip(len - 1).skip(1), sz@.skip(len - 1).skip(1)) == 0);
            assert(i@.skip(len - 1)[0] == i@[len - 1]);
            assert(sz@.skip(len - 1)[0] == sz@[len - 1]);
            assert(col_major_offset(i@.skip(len - 1), sz@.skip(len - 1)) == 0 * sz@[len - 1]
                + i@[len - 1]);
        }
        let mut j: usize = len - 1;
        while j > 0
            invariant
                0 <= j <= i@.len() - 1,
                i@.len() == sz@.len(),
                len == i@.len(),
                index_in_bounds(i@, sz@),
                size_product(sz@) <= usize::MAX,
                n == col_major_offset(i@.skip(j as int), sz@.skip(j as int)),
            decreases j,
        {
            proof {
                lemma_cm_suffix_bound(i@, sz@, j - 1);
                lemma_cm_suffix_bound(i@, sz@, j as int);
                assert(i@.skip(j - 1).skip(1) =~= i@.skip(j as int));
                assert(sz@.skip(j - 1).skip(1) =~= sz@.skip(j as int));
                assert(i@.skip(j - 1)[0] == i@[j - 1]);
                assert(sz@.skip(j - 1)[0] == sz@[j - 1]);
            }
            j = j - 1;
            n = n * sz[j] + i[j];
        }
        proof {
            assert(i@.skip(0) =~= i@);
            assert(sz@.skip(0) =~= sz@);
        }
        n
    }
}

/// A row-major offset over a prefix of a valid index stays within the full
/// buffer bound.
proof fn lemma_rm_prefix_bound(i: Seq<usize>, sz: Seq<usize>, j: int)
    requires
        index_in_bounds(i, sz),
        0 <= j <= i.len(),
    ensures
        0 <= row_major_offset(i.take(j), sz) < size_product(sz) + 1,
{
    assert(index_in_bounds(i.take(j), sz.take(j)));
    lemma_rm_take_agrees(i, sz, j);
    lemma_row_major_offset_bound(i.take(j), sz.take(j));
    assert(forall|k: int| 0 <= k < sz.len() ==> 1 <= sz[k]);
    lemma_size_product_prefix(sz, j);
}

/// The row-major offset of a prefix is the same whether computed against
/// the truncated or the full extents.
proof fn lemma_rm_take_agrees(i: Seq<usize>, sz: Seq<usize>, j: int)
    requires
        0 <= j <= i.len(),
        i.len() <= sz.len(),
    ensures
        row_major_offset(i.take(j), sz) == row_major_offset(i.take(j), sz.take(j)),
    decreases j,
{
    if j == 0 {
    } else {
        lemma_rm_take_agrees(i, sz, j - 1);
        assert(i.take(j).drop_last() =~= i.take(j - 1));
        if j < sz.len() {
        }
        lemma_rm_sz_prefix(i.take(j), sz, j);
    }
}

/// The row-major offset reads only the first `i.len()` extents.
proof fn lemma_rm_sz_prefix(i: Seq<usize>, sz: Seq<usize>, j: int)
    requires
        i.len() <= j <= sz.len(),
    ensures
        row_major_offset(i, sz) == row_major_offset(i, sz.take(j)),
    decreases i.len(),
{
    if i.len() == 0 {
    } else {
        lemma_rm_sz_prefix(i.drop_last(), sz, j);
        assert(sz.take(j)[i.len() - 1] == sz[i.len() - 1]);
    }
}

/// A column-major offset over a suffix of a valid index stays within the
/// full buffer bound.
proof fn lemma_cm_suffix_bound(i: Seq<usize>, sz: Seq<usize>, j: int)
    requires
        index_in_bounds(i, sz),
        0 <= j <= i.len(),
    ensures
        0 <= col_major_offset(i.skip(j), sz.skip(j)) < size_product(sz) + 1,
{
    assert(index_in_bounds(i.skip(j), sz.skip(j)));
    lemma_col_major_offset_bound(i.skip(j), sz.skip(j));
    lemma_size_product_suffix(sz, j);
}

/// With positive extents, the product over a suffix is at most the product
/// over the whole.
proof fn lemma_size_product_suffix(sz: Seq<usize>, j: int)
    requires
        0 <= j <= sz.len(),
        forall|k: int| 0 <= k < sz.len() ==> 1 <= sz[k],
    ensures
        1 <= size_product(sz.skip(j)) <= size_product(sz),
    decreases j,
{
    if j == 0 {
        assert(sz.skip(0) =~= sz);
        lemma_size_product_pos(sz);
    } else {
        lemma_size_product_suffix(sz, j - 1);
        lemma_size_product_skip(sz.skip(j - 1));
        assert(sz.skip(j - 1).skip(1) =~= sz.skip(j));
        let p = size_product(sz.skip(j));
        let s = sz.skip(j - 1)[0] as int;
        lemma_size_product_pos(sz.skip(j));
        assert(p <= s * p) by (nonlinear_arith)
            requires
                1 <= p,
                1 <= s,
        ;
    }
}

/// The product of positive extents is positive.
proof fn lemma_size_product_pos(sz: Seq<usize>)
    requires
        forall|k: int| 0 <= k < sz.len() ==> 1 <= sz[k],
    ensures
        1 <= size_product(sz),
    decreases sz.len(),
{
    if sz.len() == 0 {
    } else {
        lemma_size_product_pos(sz.drop_last());
        let p = size_product(sz.drop_last());
        let s = sz.last() as int;
        assert(1 <= p * s) by (nonlinear_arith)
            requires
                1 <= p,
                1 <= s,
        ;
    }
}

/// For a two-element index the row-major polynomial is `i0 * s1 + i1`.
pub proof fn lemma_rm2_value(i: Seq<usize>, sz: Seq<usize>)
    requires
        i.len() == 2,
        sz.len() >= 2,
    ensures
        row_major_offset(i, sz) == i[0] * sz[1] + i[1],
{
    assert(i.drop_last().drop_last().len() == 0);
    assert(row_major_offset(i.drop_last().drop_last(), sz) == 0);
    assert(i.drop_last().last() == i[0]);
    assert(row_major_offset(i.drop_last(), sz) == 0 * sz[0] + i[0]);
    assert(row_major_offset(i, sz) == i[0] * sz[1] + i[1]);
}

/// For two extents the buffer length is their product.
pub proof fn lemma_size_product2(sz: Seq<usize>)
    requires
        sz.len() == 2,
    ensures
        size_product(sz) == sz[0] * sz[1],
{
    assert(sz.drop_last().drop_last().len() == 0);
    assert(size_product(sz.drop_last().drop_last()) == 1);
    assert(sz.drop_last().last() == sz[0]);
    assert(size_product(sz.drop_last()) == 1 * sz[0]);
    assert(size_product(sz) == sz[0] * sz[1]);
}

/// Distinct valid row/column pairs map to distinct row-major offsets.
pub proof fn lemma_offset2_injective(s1: int, r1: int, c1: int, r2: int, c2: int)
    requires
        0 <= c1 < s1,
        0 <= c2 < s1,
        0 <= r1,
        0 <= r2,
        r1 * s1 + c1 == r2 * s1 + c2,
    ensures
        r1 == r2,
        c1 == c2,
{
    assert(r1 == r2 && c1 == c2) by (nonlinear_arith)
        requires
            0 <= c1 < s1,
            0 <= c2 < s1,
            0 <= r1,
            0 <= r2,
            r1 * s1 + c1 == r2 * s1 + c2,
    ;
}

/// Law: the row-major mapping is injective on valid indices; with its range
/// bound, valid indices map one-to-one into `[0, size_product(sz))`.
pub proof fn lemma_row_major_offset_injective(i1: Seq<usize>, i2: Seq<usize>, sz: Seq<usize>)
    requires
        index_in_bounds(i1, sz),
        index_in_bounds(i2, sz),
        row_major_offset(i1, sz) == row_major_offset(i2, sz),
    ensures
        i1 =~= i2,
    decreases sz.len(),
{
    if sz.len() == 0 {
    } else {
        lemma_row_major_offset_ignores_last(i1.drop_last(), sz);
        lemma_row_major_offset_ignores_last(i2.drop_last(), sz);
        let n1 = row_major_offset(i1.drop_last(), sz.drop_last());
        let n2 = row_major_offset(i2.drop_last(), sz.drop_last());
        assert(index_in_bounds(i1.drop_last(), sz.drop_last()));
        assert(index_in_bounds(i2.drop_last(), sz.drop_last()));
        lemma_row_major_offset_bound(i1.drop_last(), sz.drop_last());
        lemma_row_major_offset_bound(i2.drop_last(), sz.drop_last());
        lemma_offset2_injective(
            sz.last() as int,
            n1,
            i1.last() as int,
            n2,
            i2.last() as int,
        );
        lemma_row_major_offset_injective(i1.drop_last(), i2.drop_last(), sz.drop_last());
        assert forall|t: int| 0 <= t < i1.len() implies i1[t] == i2[t] by {
            if t < i1.len() - 1 {
                assert(i1.drop_last()[t] == i2.drop_last()[t]);
            }
        }
    }
}

/// Law: the column-major mapping is injective on valid indices; with its
/// range bound, valid indices map one-to-one into `[0, size_product(sz))`.
pub proof fn lemma_col_major_offset_injective(i1: Seq<usize>, i2: Seq<usize>, sz: Seq<usize>)
    requires
        index_in_bounds(i1, sz),
        index_in_bounds(i2, sz),
        col_major_offset(i1, sz) == col_major_offset(i2, sz),
    ensures
        i1 =~= i2,
    decreases sz.len(),
{
    if sz.len() == 0 {
    } else {
        let n1 = col_major_offset(i1.skip(1), sz.skip(1));
        let n2 = col_major_offset(i2.skip(1), sz.skip(1));
        assert(index_in_bounds(i1.skip(1), sz.skip(1)));
        assert(index_in_bounds(i2.skip(1), sz.skip(1)));
        lemma_col_major_offset_bound(i1.skip(1), sz.skip(1));
        lemma_col_major_offset_bound(i2.skip(1), sz.skip(1));
        lemma_offset2_injective(sz[0] as int, n1, i1[0] as int, n2, i2[0] as int);
        lemma_col_major_offset_injective(i1.skip(1), i2.skip(1), sz.skip(1));
        assert forall|t: int| 0 <= t < i1.len() implies i1[t] == i2[t] by {
            if t >= 1 {
                assert(i1.skip(1)[t - 1] == i2.skip(1)[t - 1]);
            }
        }
    }
}

/// A logical view of a tensor: the transposition flag reinterprets row and
/// column meaning without touching the buffer.
#[derive(Clone, Copy, Debug, PartialEq, Eq, Structural)]
pub struct TnsrView {
    /// When set, matrix accessors swap the roles of row and column.
    pub transposed: bool,
}

} // verus!
