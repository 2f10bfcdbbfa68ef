//! Tensor container and the numeric element trait it is generic over.

use vstd::prelude::*;

pub mod matrix;
pub mod order;
pub mod tensor;
pub mod vector;

pub use self::order::{TnsrOrder, TnsrOrderType, TnsrView};
pub use self::tensor::Tensor;
pub use self::vector::Vector;
use self::order::size_product;

verus! {

/// Failures of the algebraic matrix operations.
#[derive(Clone, Copy, Debug, PartialEq, Eq, Structural)]
pub enum TnsrErr {
    /// An operand does not have the dimension count the operation needs.
    IllegalNrDimentions {
        /// The dimension count the operation works on.
        expect: usize,
        /// The dimension count the operand actually has.
        nr_dims: usize,
    },
    /// The operands' shapes do not agree.
    DimentionsMismatch,
}

/// Scientific-notation rendering of an `i64`, as produced by the standard
/// library's exponential formatter with width 10 and 3 fractional digits.
/// The result depends on the value alone.
pub uninterp spec fn i64_sci_str(x: i64) -> Seq<char>;

/// Mathematical floor of the square root: the greatest `r >= 0` with
/// `r * r <= x`, and `0` for negative inputs.
pub open spec fn i64_sqrt(x: i64) -> i64
    decreases x,
{
    if x < 1 {
        0
    } else {
        let r = i64_sqrt((x - 1) as i64);
        if (r + 1) * (r + 1) <= x {
            (r + 1) as i64
        } else {
            r
        }
    }
}

/// The integer square root is characterized by the two bounds
/// `i64_sqrt(x)^2 <= x < (i64_sqrt(x) + 1)^2`.
pub proof fn lemma_i64_sqrt_bounds(x: i64)
    requires
        x >= 0,
    ensures
        0 <= i64_sqrt(x) <= x,
        i64_sqrt(x) * i64_sqrt(x) <= x,
        x < (i64_sqrt(x) + 1) * (i64_sqrt(x) + 1),
    decreases x,
{
    if x < 1 {
    } else {
        lemma_i64_sqrt_bounds((x - 1) as i64);
        let r = i64_sqrt((x - 1) as i64);
        assert(r <= x - 1);
        if (r + 1) * (r + 1) <= x {
            assert(r + 1 <= x) by (nonlinear_arith)
                requires
                    0 <= r,
                    (r + 1) * (r + 1) <= x,
            ;
            assert(x == (r + 1) * (r + 1));
            assert((r + 1) * (r + 1) < (r + 2) * (r + 2)) by (nonlinear_arith)
                requires
                    0 <= r,
            ;
        }
    }
}

/// Two non-negative integer square roots of the same value coincide.
pub proof fn lemma_isqrt_unique(x: int, r1: int, r2: int)
    requires
        0 <= r1,
        0 <= r2,
        r1 * r1 <= x < (r1 + 1) * (r1 + 1),
        r2 * r2 <= x < (r2 + 1) * (r2 + 1),
    ensures
        r1 == r2,
{
    assert(r1 == r2) by (nonlinear_arith)
        requires
            0 <= r1,
            0 <= r2,
            r1 * r1 <= x < (r1 + 1) * (r1 + 1),
            r2 * r2 <= x < (r2 + 1) * (r2 + 1),
    ;
}

/// Interface every tensor element type provides: arithmetic with exact
/// specification-level counterparts, an equality test, a square root for
/// vector norms, and a fixed-width scientific rendering for matrix display.
pub trait TnsrValType: Sized + Copy {
    /// The additive identity, used to zero-fill new tensors and to seed
    /// multiply accumulations.
    spec fn v_zero() -> Self;

    /// What `add_val` returns.
    spec fn v_add(self, rhs: Self) -> Self;

    /// What `mul_val` returns.
    spec fn v_mul(self, rhs: Self) -> Self;

    /// What `sqrt_val` returns.
    spec fn v_sqrt(self) -> Self;

    /// What `eq_val` returns.
    spec fn v_eq(self, rhs: Self) -> bool;

    /// What `fmt_val` returns.
    spec fn v_fmt(self) -> Seq<char>;

    /// The element equality test holds between a value and itself.
    proof fn lemma_eq_reflexive(self)
        ensures
            self.v_eq(self),
    ;

    /// The additive identity as a runtime value.
    fn zero() -> (r: Self)
        ensures
            r == Self::v_zero(),
    ;

    /// Element addition.
    fn add_val(self, rhs: Self) -> (r: Self)
        ensures
            r == self.v_add(rhs),
    ;

    /// Element multiplication.
    fn mul_val(self, rhs: Self) -> (r: Self)
        ensures
            r == self.v_mul(rhs),
    ;

    /// Element square root.
    fn sqrt_val(self) -> (r: Self)
        ensures
            r == self.v_sqrt(),
    ;

    /// Element equality test.
    fn eq_val(self, rhs: Self) -> (r: bool)
        ensures
            r == self.v_eq(rhs),
    ;

    /// Fixed-width scientific rendering of the element.
    fn fmt_val(self) -> (r: String)
        ensures
            r@ == self.v_fmt(),
    ;
}

impl TnsrValType for i64 {
    open spec fn v_zero() -> i64 {
        0
    }

    open spec fn v_add(self, rhs: i64) -> i64 {
        self.wrapping_add(rhs)
    }

    open spec fn v_mul(self, rhs: i64) -> i64 {
        self.wrapping_mul(rhs)
    }

    open spec fn v_sqrt(self) -> i64 {
        i64_sqrt(self)
    }

    open spec fn v_eq(self, rhs: i64) -> bool {
        self == rhs
    }

    open spec fn v_fmt(self) -> Seq<char> {
        i64_sci_str(self)
    }

    proof fn lemma_eq_reflexive(self) {
    }

    fn zero() -> (r: i64) {
        0
    }

    fn add_val(self, rhs: i64) -> (r: i64) {
        self.wrapping_add(rhs)
    }

    fn mul_val(self, rhs: i64) -> (r: i64) {
        self.wrapping_mul(rhs)
    }

    fn sqrt_val(self) -> (r: i64) {
        if self <= 0 {
            proof {
                if self == 0 {
                    lemma_i64_sqrt_bounds(0);
                    lemma_isqrt_unique(0, i64_sqrt(0) as int, 0);
                }
            }
            return 0;
        }
        let mut lo: i64 = 0;
        let mut hi: i64 = 3037000500;
        proof {
            assert(3037000500i64 * 3037000500i64 > i64::MAX) by (nonlinear_arith);
        }
        while lo + 1 < hi
            invariant
                0 <= lo < hi <= 3037000500,
                lo * lo <= self,
                self < hi * hi,
            decreases hi - lo,
        {
            let mid: i64 = lo + (hi - lo) / 2;
            assert(lo < mid < hi);
            assert(mid * mid <= 3037000499i64 * 3037000499i64) by (nonlinear_arith)
                requires
                    0 < mid <= 3037000499i64,
            ;
            assert(3037000499i64 * 3037000499i64 < i64::MAX) by (nonlinear_arith);
            if mid * mid <= self {
                lo = mid;
            } else {
                hi = mid;
            }
        }
        proof {
            lemma_i64_sqrt_bounds(self);
            lemma_isqrt_unique(self as int, lo as int, i64_sqrt(self) as int);
        }
        lo
    }

    fn eq_val(self, rhs: i64) -> (r: bool) {
        self == rhs
    }

    fn fmt_val(self) -> (r: String) {
        i64_fmt_sci(self)
    }
}

/// Relies on the standard library's `LowerExp` formatting of `i64` (width 10,
/// 3 fractional digits): the rendering is a pure function of the value.
#[verifier::external_body]
fn i64_fmt_sci(x: i64) -> (r: String)
    ensures
        r@ == i64_sci_str(x),
{
    format!("{:10.3e}", x)
}

/// N-dimensional tensor: a flat, exclusively owned buffer together with the
/// per-dimension extents, the order strategy fixed at construction, and the
/// transposition view flag.
pub struct Tnsr<T: TnsrValType> {
    /// Flat data storage; its length is the product of all extents.
    pub v: Vec<T>,
    nr_dims: usize,
    sizes: Vec<usize>,
    order: TnsrOrder,
    view: TnsrView,
}

impl<T: TnsrValType> Tnsr<T> {
    /// The flat storage buffer as a sequence.
    pub closed spec fn spec_buf(self) -> Seq<T> {
        self.v@
    }

    /// The per-dimension extents as stored, ignoring the view.
    pub closed spec fn spec_sizes(self) -> Seq<usize> {
        self.sizes@
    }

    /// The stored dimension count.
    pub closed spec fn spec_nr_dims(self) -> int {
        self.nr_dims as int
    }

    /// The order strategy chosen at construction.
    pub closed spec fn spec_order(self) -> TnsrOrder {
        self.order
    }

    /// The current view.
    pub closed spec fn spec_view(self) -> TnsrView {
        self.view
    }

    /// Structural well-formedness: the dimension count matches the extents,
    /// the buffer holds exactly one element per index combination, and the
    /// order strategy is the row-major one the constructors install.
    pub open spec fn wf(self) -> bool {
        &&& self.spec_nr_dims() == self.spec_sizes().len()
        &&& self.spec_sizes().len() >= 1
        &&& self.spec_buf().len() == size_product(self.spec_sizes())
        &&& size_product(self.spec_sizes()) <= usize::MAX
        &&& self.spec_order() == (TnsrOrder {
            kind: TnsrOrderType::RowMajor,
            nr_dims: self.spec_nr_dims() as usize,
        })
    }

    /// Create a new one-dimensional tensor of the given size, zero-filled,
    /// in the untransposed view.
    pub fn new_vector(size: usize) -> (r: Self)
        ensures
            r.wf(),
            r.spec_sizes() =~= seq![size],
            r.spec_view().transposed == false,
            r.spec_buf().len() == size,
            forall|k: int| 0 <= k < size ==> r.spec_buf()[k] == T::v_zero(),
    {
        let mut v: Vec<T> = Vec::new();
        while v.len() < size
            invariant
                v@.len() <= size,
                forall|k: int| 0 <= k < v@.len() ==> v@[k] == T::v_zero(),
            decreases size - v@.len(),
        {
            v.push(T::zero());
        }
        let mut sizes: Vec<usize> = Vec::new();
        sizes.push(size);
        let t = Tnsr {
            v,
            nr_dims: 1,
            sizes,
            order: TnsrOrder::new(TnsrOrderType::RowMajor, 1),
            view: TnsrView { transposed: false },
        };
        proof {
            assert(t.spec_sizes().drop_last().len() == 0);
            assert(size_product(t.spec_sizes().drop_last()) == 1);
            assert(size_product(t.spec_sizes()) == 1 * size);
        }
        t
    }

    /// Create a new two-dimensional tensor of the given extents, zero-filled,
    /// in the untransposed view.
    pub fn new_matrix(nr_rows: usize, nr_cols: usize) -> (r: Self)
        requires
            nr_rows * nr_cols <= usize::MAX,
        ensures
            r.wf(),
            r.spec_sizes() =~= seq![nr_rows, nr_cols],
            r.spec_view().transposed == false,
            r.spec_buf().len() == nr_rows * nr_cols,
            forall|k: int| 0 <= k < r.spec_buf().len() ==> r.spec_buf()[k] == T::v_zero(),
    {
        let n: usize = nr_rows * nr_cols;
        let mut v: Vec<T> = Vec::new();
        while v.len() < n
            invariant
                v@.len() <= n,
                forall|k: int| 0 <= k < v@.len() ==> v@[k] == T::v_zero(),
            decreases n - v@.len(),
        {
            v.push(T::zero());
        }
        let mut sizes: Vec<usize> = Vec::new();
        sizes.push(nr_rows);
        sizes.push(nr_cols);
        let t = Tnsr {
            v,
            nr_dims: 2,
            sizes,
            order: TnsrOrder::new(TnsrOrderType::RowMajor, 2),
            view: TnsrView { transposed: false },
        };
        proof {
            assert(t.spec_sizes().drop_last().drop_last().len() == 0);
            assert(size_product(t.spec_sizes().drop_last().drop_last()) == 1);
            assert(size_product(t.spec_sizes().drop_last()) == 1 * nr_rows);
            assert(size_product(t.spec_sizes()) == (1 * nr_rows) * nr_cols);
        }
        t
    }

    /// Create a new tensor with the given extents, zero-filled, in the
    /// untransposed view. The buffer length is the product of the extents.
    pub fn new_tensor(sizes: &[usize]) -> (r: Self)
        requires
            sizes@.len() >= 1,
            size_product(sizes@) <= usize::MAX,
        ensures
            r.wf(),
            r.spec_sizes() =~= sizes@,
            r.spec_view().transposed == false,
            r.spec_buf().len() == size_product(sizes@),
            forall|k: int| 0 <= k < r.spec_buf().len() ==> r.spec_buf()[k] == T::v_zero(),
    {
        let n: usize = size_product_exec(sizes);
        let mut v: Vec<T> = Vec::new();
        while v.len() < n
            invariant
                v@.len() <= n,
                forall|k: int| 0 <= k < v@.len() ==> v@[k] == T::v_zero(),
            decreases n - v@.len(),
        {
            v.push(T::zero());
        }
        let mut szs: Vec<usize> = Vec::new();
        let mut j: usize = 0;
        while j < sizes.len()
            invariant
                0 <= j <= sizes@.len(),
                szs@ =~= sizes@.take(j as int),
            decreases sizes@.len() - j,
        {
            szs.push(sizes[j]);
            j = j + 1;
        }
        proof {
            assert(szs@ =~= sizes@);
        }
        Tnsr {
            v,
            nr_dims: sizes.len(),
            sizes: szs,
            order: TnsrOrder::new(TnsrOrderType::RowMajor, sizes.len()),
            view: TnsrView { transposed: false },
        }
    }

    /// Borrow the raw storage vector.
    pub fn raw(&self) -> (r: &Vec<T>)
        ensures
            r@ =~= self.spec_buf(),
    {
        &self.v
    }

    /// Read the buffer at a flat offset.
    pub fn buf_at(&self, pos: usize) -> (r: T)
        requires
            pos < self.spec_buf().len(),
        ensures
            r == self.spec_buf()[pos as int],
    {
        self.v[pos]
    }

    /// Write the buffer at a flat offset, leaving shape, order and view
    /// untouched.
    pub(crate) fn set_buf_at(&mut self, pos: usize, val: T)
        requires
            pos < old(self).spec_buf().len(),
        ensures
            final(self).spec_buf() == old(self).spec_buf().update(pos as int, val),
            final(self).spec_sizes() == old(self).spec_sizes(),
            final(self).spec_nr_dims() == old(self).spec_nr_dims(),
            final(self).spec_order() == old(self).spec_order(),
            final(self).spec_view() == old(self).spec_view(),
    {
        self.v[pos] = val;
    }

    /// Whether the view currently swaps row and column meaning.
    pub fn transposed(&self) -> (r: bool)
        ensures
            r == self.spec_view().transposed,
    {
        self.view.transposed
    }

    /// The value a view toggle leaves behind: the same buffer, extents and
    /// order, with the opposite transposition flag.
    pub closed spec fn spec_transpose_view(self) -> Tnsr<T> {
        Tnsr { view: TnsrView { transposed: !self.view.transposed }, ..self }
    }

    /// What the view toggle changes and what it keeps: only the flag moves,
    /// and toggling twice restores the original value exactly.
    pub proof fn lemma_spec_transpose_view(self)
        ensures
            self.spec_transpose_view().spec_buf() == self.spec_buf(),
            self.spec_transpose_view().spec_sizes() == self.spec_sizes(),
            self.spec_transpose_view().spec_nr_dims() == self.spec_nr_dims(),
            self.spec_transpose_view().spec_order() == self.spec_order(),
            self.spec_transpose_view().spec_view().transposed == !self.spec_view().transposed,
            self.spec_transpose_view().spec_transpose_view() == self,
    {
    }

    /// Replace the view flag, leaving everything else untouched. Setting it
    /// to the opposite of the current flag yields exactly the toggled value.
    pub(crate) fn set_transposed_to_view(&mut self, t: bool)
        ensures
            final(self).spec_view().transposed == t,
            final(self).spec_buf() == old(self).spec_buf(),
            final(self).spec_sizes() == old(self).spec_sizes(),
            final(self).spec_nr_dims() == old(self).spec_nr_dims(),
            final(self).spec_order() == old(self).spec_order(),
            t == !old(self).spec_view().transposed ==> *final(self) == old(
                self,
            ).spec_transpose_view(),
    {
        self.view.transposed = t;
    }

    /// The stored extent of one dimension, ignoring the view.
    pub fn size_at(&self, k: usize) -> (r: usize)
        requires
            k < self.spec_sizes().len(),
        ensures
            r == self.spec_sizes()[k as int],
    {
        self.sizes[k]
    }

    /// The order strategy.
    pub(crate) fn order_ref(&self) -> (r: &TnsrOrder)
        ensures
            *r == self.spec_order(),
    {
        &self.order
    }

    /// The stored extents as a slice.
    pub(crate) fn sizes_slice(&self) -> (r: &[usize])
        ensures
            r@ == self.spec_sizes(),
    {
        self.sizes.as_slice()
    }

    /// The buffer as a slice.
    pub(crate) fn buf_slice(&self) -> (r: &[T])
        ensures
            r@ == self.spec_buf(),
    {
        self.v.as_slice()
    }

    /// The stored dimension count as a runtime value.
    pub(crate) fn dims_count(&self) -> (r: usize)
        ensures
            r == self.spec_nr_dims(),
    {
        self.nr_dims
    }

    /// The buffer length as a runtime value.
    pub(crate) fn buf_len(&self) -> (r: usize)
        ensures
            r == self.spec_buf().len(),
    {
        self.v.len()
    }

    /// Swap the two stored extents of a two-dimensional tensor. The buffer
    /// is untouched; its length still matches because the product of the
    /// extents is unchanged.
    pub(crate) fn swap_sizes2(&mut self)
        requires
            old(self).wf(),
            old(self).spec_nr_dims() == 2,
        ensures
            final(self).wf(),
            final(self).spec_nr_dims() == 2,
            final(self).spec_sizes() =~= seq![
                old(self).spec_sizes()[1],
                old(self).spec_sizes()[0],
            ],
            final(self).spec_buf() == old(self).spec_buf(),
            final(self).spec_view() == old(self).spec_view(),
            final(self).spec_order() == old(self).spec_order(),
    {
        let s0: usize = self.sizes[0];
        let s1: usize = self.sizes[1];
        self.sizes[0] = s1;
        self.sizes[1] = s0;
        proof {
            order::lemma_size_product2(old(self).spec_sizes());
            order::lemma_size_product2(self.spec_sizes());
            assert(self.spec_sizes() =~= seq![s1, s0]);
            assert(s1 * s0 == s0 * s1) by (nonlinear_arith);
        }
    }

    /// Run the vector kernel's elementwise sum over the flat buffer.
    pub(crate) fn kernel_add(&mut self, bs: &[T])
        requires
            old(self).spec_buf().len() == bs@.len(),
        ensures
            final(self).spec_buf().len() == old(self).spec_buf().len(),
            forall|k: int|
                0 <= k < final(self).spec_buf().len() ==> final(self).spec_buf()[k] == old(
                    self,
                ).spec_buf()[k].v_add(bs@[k]),
            final(self).spec_sizes() == old(self).spec_sizes(),
            final(self).spec_nr_dims() == old(self).spec_nr_dims(),
            final(self).spec_order() == old(self).spec_order(),
            final(self).spec_view() == old(self).spec_view(),
    {
        crate::simd::vec::add(&mut self.v, bs);
    }
}

/// The product of all extents decomposes around any split point.
pub proof fn lemma_size_product_split(sz: Seq<usize>, j: int)
    requires
        0 <= j <= sz.len(),
    ensures
        size_product(sz) == size_product(sz.take(j)) * size_product(sz.skip(j)),
    decreases sz.len() - j,
{
    if j == sz.len() {
        assert(sz.take(j) =~= sz);
        assert(sz.skip(j).len() == 0);
    } else {
        lemma_size_product_split(sz, j + 1);
        let a = size_product(sz.take(j));
        let s = sz[j] as int;
        let b = size_product(sz.skip(j + 1));
        assert(sz.take(j + 1).drop_last() =~= sz.take(j));
        assert(size_product(sz.take(j + 1)) == a * s);
        assert(sz.skip(j)[0] == sz[j]);
        assert(sz.skip(j).skip(1) =~= sz.skip(j + 1));
        lemma_size_product_first(sz.skip(j));
        assert(size_product(sz.skip(j)) == s * b);
        assert((a * s) * b == a * (s * b)) by (nonlinear_arith);
    }
}

/// The product of all extents splits off its first factor.
proof fn lemma_size_product_first(sz: Seq<usize>)
    requires
        sz.len() >= 1,
    ensures
        size_product(sz) == sz[0] * size_product(sz.skip(1)),
    decreases sz.len(),
{
    if sz.len() == 1 {
        assert(sz.drop_last().len() == 0);
        assert(sz.skip(1).len() == 0);
        assert(size_product(sz.drop_last()) == 1);
        assert(size_product(sz.skip(1)) == 1);
        assert(size_product(sz) == 1 * sz.last());
        assert(sz.last() == sz[0]);
    } else {
        lemma_size_product_first(sz.drop_last());
        assert(sz.drop_last().skip(1) =~= sz.skip(1).drop_last());
        assert(sz.drop_last()[0] == sz[0]);
        let q = size_product(sz.skip(1).drop_last());
        let s0 = sz[0] as int;
        let sl = sz.last() as int;
        assert(sz.skip(1).last() == sz.last());
        assert(size_product(sz.drop_last()) == s0 * q);
        assert(size_product(sz) == (s0 * q) * sl);
        assert(size_product(sz.skip(1)) == q * sl);
        assert((s0 * q) * sl == s0 * (q * sl)) by (nonlinear_arith);
    }
}

/// Compute the product of the extents. When a partial product no longer fits
/// in `usize`, a later extent must be zero (the full product fits by
/// precondition), so the result is zero.
fn size_product_exec(sizes: &[usize]) -> (r: usize)
    requires
        size_product(sizes@) <= usize::MAX,
    ensures
        r == size_product(sizes@),
{
    let mut p: usize = 1;
    let mut j: usize = 0;
    proof {
        assert(sizes@.take(0).len() == 0);
        assert(size_product(sizes@.take(0)) == 1);
    }
    while j < sizes.len()
        invariant
            0 <= j <= sizes@.len(),
            size_product(sizes@) <= usize::MAX,
            p == size_product(sizes@.take(j as int)),
        decreases sizes@.len() - j,
    {
        let s: usize = sizes[j];
        proof {
            assert(sizes@.take(j + 1).drop_last() =~= sizes@.take(j as int));
            assert(size_product(sizes@.take(j + 1)) == p * s);
        }
        match p.checked_mul(s) {
            Some(q) => {
                p = q;
                j = j + 1;
            }
            None => {
                proof {
                    lemma_size_product_split(sizes@, j + 1);
                    let a = size_product(sizes@.take(j + 1));
                    let b = size_product(sizes@.skip(j + 1));
                    lemma_size_product_nonneg(sizes@.skip(j + 1));
                    assert(a > usize::MAX);
                    if b >= 1 {
                        assert(a * b >= a * 1) by (nonlinear_arith)
                            requires
                                a >= 0,
                                b >= 1,
                        ;
                        assert(false);
                    }
                    assert(b == 0);
                    assert(a * 0 == 0) by (nonlinear_arith);
                    assert(size_product(sizes@) == 0);
                }
                return 0;
            }
        }
    }
    proof {
        assert(sizes@.take(sizes@.len() as int) =~= sizes@);
    }
    p
}

/// The product of extents is never negative.
proof fn lemma_size_product_nonneg(sz: Seq<usize>)
    ensures
        size_product(sz) >= 0,
    decreases sz.len(),
{
    if sz.len() == 0 {
    } else {
        lemma_size_product_nonneg(sz.drop_last());
        let p = size_product(sz.drop_last());
        let s = sz.last() as int;
        assert(p * s >= 0) by (nonlinear_arith)
            requires
                p >= 0,
                s >= 0,
        ;
    }
}

impl<T: TnsrValType> Clone for Tnsr<T> {
    /// Deep-copy the buffer and the extents; the clone carries the same view
    /// and an order strategy reconstructed for its dimensionality.
    fn clone(&self) -> (r: Self)
        ensures
            r.spec_buf() =~= self.spec_buf(),
            r.spec_sizes() =~= self.spec_sizes(),
            r.spec_nr_dims() == self.spec_nr_dims(),
            r.spec_order() == self.spec_order(),
            r.spec_view() == self.spec_view(),
    {
        let mut v: Vec<T> = Vec::new();
        let mut k: usize = 0;
        while k < self.v.len()
            invariant
                0 <= k <= self.v@.len(),
                v@ =~= self.v@.take(k as int),
            decreases self.v@.len() - k,
        {
            v.push(self.v[k]);
            k = k + 1;
        }
        let mut sizes: Vec<usize> = Vec::new();
        let mut j: usize = 0;
        while j < self.sizes.len()
            invariant
                0 <= j <= self.sizes@.len(),
                sizes@ =~= self.sizes@.take(j as int),
            decreases self.sizes@.len() - j,
        {
            sizes.push(self.sizes[j]);
            j = j + 1;
        }
        proof {
            assert(v@ =~= self.v@);
            assert(sizes@ =~= self.sizes@);
        }
        Tnsr {
            v,
            nr_dims: self.nr_dims,
            sizes,
            order: TnsrOrder::new(self.order.kind, self.order.nr_dims),
            view: self.view,
        }
    }
}

} // verus!
