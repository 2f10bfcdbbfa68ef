//! Matrix capability: view-aware access and algebra over a two-dimensional
//! tensor.
//!
//! Every accessor consults the view flag first: when the view is transposed,
//! the roles of row and column are swapped before the order strategy maps the
//! pair to a buffer offset, and the reported extents swap accordingly.

use vstd::prelude::*;
use vstd::string::StringExecFns;

pub mod transpose;

use self::transpose::{transpose_in_place, transpose_square};
use super::order::{
    index_in_bounds, lemma_offset2_injective, lemma_rm2_value, lemma_size_product2,
};
use super::{Tnsr, TnsrErr, TnsrValType};

verus! {

impl<T: TnsrValType> Tnsr<T> {
    /// A well-formed tensor usable through the matrix capability.
    pub open spec fn is_matrix(self) -> bool {
        &&& self.wf()
        &&& self.spec_nr_dims() == 2
    }

    /// The row count a caller observes, after the view.
    pub open spec fn spec_nr_rows(self) -> int {
        if self.spec_view().transposed {
            self.spec_sizes()[1] as int
        } else {
            self.spec_sizes()[0] as int
        }
    }

    /// The column count a caller observes, after the view.
    pub open spec fn spec_nr_cols(self) -> int {
        if self.spec_view().transposed {
            self.spec_sizes()[0] as int
        } else {
            self.spec_sizes()[1] as int
        }
    }

    /// The buffer offset backing the observed position `(row, col)`: the
    /// view decides which of the pair plays the storage row.
    pub open spec fn mat_off(self, row: int, col: int) -> int {
        if self.spec_view().transposed {
            col * self.spec_sizes()[1] + row
        } else {
            row * self.spec_sizes()[1] + col
        }
    }

    /// The element a caller observes at `(row, col)`, after the view.
    pub open spec fn mat_at(self, row: int, col: int) -> T {
        self.spec_buf()[self.mat_off(row, col)]
    }

    /// Observed positions map into the buffer.
    pub proof fn lemma_mat_off_bound(self, row: int, col: int)
        requires
            self.is_matrix(),
            self.mat_index_ok(row, col),
        ensures
            0 <= self.mat_off(row, col) < self.spec_buf().len(),
    {
        lemma_size_product2(self.spec_sizes());
        let s0 = self.spec_sizes()[0] as int;
        let s1 = self.spec_sizes()[1] as int;
        if self.spec_view().transposed {
            assert(0 <= col * s1 + row < s0 * s1) by (nonlinear_arith)
                requires
                    0 <= col < s0,
                    0 <= row < s1,
            ;
        } else {
            assert(0 <= row * s1 + col < s0 * s1) by (nonlinear_arith)
                requires
                    0 <= row < s0,
                    0 <= col < s1,
            ;
        }
    }

    /// A row/column pair that may be observed through the view.
    pub open spec fn mat_index_ok(self, row: int, col: int) -> bool {
        &&& 0 <= row < self.spec_nr_rows()
        &&& 0 <= col < self.spec_nr_cols()
    }

    /// `other` holds the transpose of `self`: the observed shapes are
    /// swapped and every observed element at `(i, j)` here tests equal to
    /// `(j, i)` there.
    pub open spec fn spec_is_transpose(self, other: Tnsr<T>) -> bool {
        &&& self.spec_nr_rows() == other.spec_nr_cols()
        &&& self.spec_nr_cols() == other.spec_nr_rows()
        &&& forall|i: int, j: int|
            self.mat_index_ok(i, j) ==> self.mat_at(i, j).v_eq(other.mat_at(j, i))
    }

    /// Number of rows, after the view.
    pub fn nr_rows(&self) -> (r: usize)
        requires
            self.is_matrix(),
        ensures
            r == self.spec_nr_rows(),
    {
        if self.transposed() {
            self.size_at(1)
        } else {
            self.size_at(0)
        }
    }

    /// Number of columns, after the view.
    pub fn nr_cols(&self) -> (r: usize)
        requires
            self.is_matrix(),
        ensures
            r == self.spec_nr_cols(),
    {
        if self.transposed() {
            self.size_at(0)
        } else {
            self.size_at(1)
        }
    }

    /// The buffer offset backing the observed position `(row, col)`.
    pub fn get_raw_pos(&self, row: usize, col: usize) -> (r: usize)
        requires
            self.is_matrix(),
            self.mat_index_ok(row as int, col as int),
        ensures
            r == if self.spec_view().transposed {
                col * self.spec_sizes()[1] + row
            } else {
                row * self.spec_sizes()[1] + col
            },
            r < self.spec_buf().len(),
    {
        let rowt: usize = if self.transposed() {
            col
        } else {
            row
        };
        let colt: usize = if self.transposed() {
            row
        } else {
            col
        };
        let idx: [usize; 2] = [rowt, colt];
        proof {
            assert(idx@ =~= seq![rowt, colt]);
            assert(index_in_bounds(idx@, self.spec_sizes()));
            lemma_rm2_value(idx@, self.spec_sizes());
        }
        let pos: usize = self.order_ref().val_pos(&idx, self.sizes_slice());
        pos
    }

    /// Element at the observed position `(row, col)`. The caller must keep
    /// the indices in bounds; no runtime check is made.
    pub fn get(&self, row: usize, col: usize) -> (r: T)
        requires
            self.is_matrix(),
            self.mat_index_ok(row as int, col as int),
        ensures
            r == self.mat_at(row as int, col as int),
    {
        let pos: usize = self.get_raw_pos(row, col);
        self.buf_at(pos)
    }

    /// Write `val` at the observed position `(row, col)`. All other observed
    /// elements, the shape and the view stay as they were.
    pub fn set(&mut self, row: usize, col: usize, val: T)
        requires
            old(self).is_matrix(),
            old(self).mat_index_ok(row as int, col as int),
        ensures
            final(self).is_matrix(),
            final(self).spec_sizes() == old(self).spec_sizes(),
            final(self).spec_view() == old(self).spec_view(),
            final(self).mat_at(row as int, col as int) == val,
            forall|i: int, j: int|
                old(self).mat_index_ok(i, j) && !(i == row && j == col) ==> final(self).mat_at(
                    i,
                    j,
                ) == old(self).mat_at(i, j),
    {
        let pos: usize = self.get_raw_pos(row, col);
        self.set_buf_at(pos, val);
        proof {
            let s1 = old(self).spec_sizes()[1] as int;
            let old_m = *old(self);
            assert(self.spec_buf() =~= old_m.spec_buf().update(pos as int, val));
            assert forall|i: int, j: int|
                old_m.mat_index_ok(i, j) && !(i == row && j == col) implies self.mat_at(i, j)
                == old_m.mat_at(i, j) by {
                old_m.lemma_mat_off_bound(i, j);
                let off = old_m.mat_off(i, j);
                if off == pos {
                    if old_m.spec_view().transposed {
                        lemma_offset2_injective(s1, j, i, col as int, row as int);
                    } else {
                        lemma_offset2_injective(s1, i, j, row as int, col as int);
                    }
                    assert(false);
                }
            }
        }
    }

    /// Toggle the transposition view: an O(1) reinterpretation of row and
    /// column meaning that never touches the buffer.
    pub fn transpose_view(&mut self)
        ensures
            *final(self) == old(self).spec_transpose_view(),
            final(self).spec_view().transposed == !old(self).spec_view().transposed,
            final(self).spec_buf() == old(self).spec_buf(),
            final(self).spec_sizes() == old(self).spec_sizes(),
            final(self).spec_nr_dims() == old(self).spec_nr_dims(),
            final(self).spec_order() == old(self).spec_order(),
    {
        let t: bool = self.transposed();
        self.set_transposed_to_view(!t);
    }

    /// Whether `other` is the transpose of `self`: the observed shapes are
    /// swapped and every element of `self` at `(i, j)` tests equal to
    /// `other`'s at `(j, i)`. Exact element equality, no tolerance.
    pub fn is_transpose(&self, other: &Tnsr<T>) -> (r: bool)
        requires
            self.is_matrix(),
            other.is_matrix(),
        ensures
            r == self.spec_is_transpose(*other),
    {
        if self.nr_rows() != other.nr_cols() || self.nr_cols() != other.nr_rows() {
            return false;
        }
        let rows: usize = self.nr_rows();
        let cols: usize = self.nr_cols();
        let mut i: usize = 0;
        while i < rows
            invariant
                0 <= i <= rows,
                self.is_matrix(),
                other.is_matrix(),
                rows == self.spec_nr_rows(),
                cols == self.spec_nr_cols(),
                self.spec_nr_rows() == other.spec_nr_cols(),
                self.spec_nr_cols() == other.spec_nr_rows(),
                forall|a: int, b: int|
                    0 <= a < i && 0 <= b < cols ==> self.mat_at(a, b).v_eq(other.mat_at(b, a)),
            decreases rows - i,
        {
            let mut j: usize = 0;
            while j < cols
                invariant
                    0 <= i < rows,
                    0 <= j <= cols,
                    self.is_matrix(),
                    other.is_matrix(),
                    rows == self.spec_nr_rows(),
                    cols == self.spec_nr_cols(),
                    self.spec_nr_rows() == other.spec_nr_cols(),
                    self.spec_nr_cols() == other.spec_nr_rows(),
                    forall|a: int, b: int|
                        0 <= a < i && 0 <= b < cols ==> self.mat_at(a, b).v_eq(other.mat_at(b, a)),
                    forall|b: int|
                        0 <= b < j ==> self.mat_at(i as int, b).v_eq(other.mat_at(b, i as int)),
                decreases cols - j,
            {
                if !self.get(i, j).eq_val(other.get(j, i)) {
                    proof {
                        assert(self.mat_index_ok(i as int, j as int));
                        assert(!self.mat_at(i as int, j as int).v_eq(
                            other.mat_at(j as int, i as int),
                        ));
                    }
                    return false;
                }
                j = j + 1;
            }
            i = i + 1;
        }
        true
    }

    /// Allocate and return the transpose: a fresh matrix of swapped observed
    /// shape, untransposed view, whose element at `(j, i)` is this matrix's
    /// observed element at `(i, j)`.
    pub fn make_transposed(&self) -> (r: Tnsr<T>)
        requires
            self.is_matrix(),
        ensures
            r.is_matrix(),
            r.spec_view().transposed == false,
            r.spec_nr_rows() == self.spec_nr_cols(),
            r.spec_nr_cols() == self.spec_nr_rows(),
            forall|i: int, j: int|
                self.mat_index_ok(i, j) ==> r.mat_at(j, i) == self.mat_at(i, j),
    {
        proof {
            lemma_size_product2(self.spec_sizes());
            let s0 = self.spec_sizes()[0] as int;
            let s1 = self.spec_sizes()[1] as int;
            assert(s1 * s0 == s0 * s1) by (nonlinear_arith);
        }
        let rows: usize = self.nr_rows();
        let cols: usize = self.nr_cols();
        let mut at: Tnsr<T> = Tnsr::<T>::new_matrix(cols, rows);
        let mut i: usize = 0;
        while i < rows
            invariant
                0 <= i <= rows,
                self.is_matrix(),
                rows == self.spec_nr_rows(),
                cols == self.spec_nr_cols(),
                at.is_matrix(),
                at.spec_view().transposed == false,
                at.spec_nr_rows() == cols,
                at.spec_nr_cols() == rows,
                forall|a: int, b: int|
                    0 <= a < i && 0 <= b < cols ==> at.mat_at(b, a) == self.mat_at(a, b),
            decreases rows - i,
        {
            let mut j: usize = 0;
            while j < cols
                invariant
                    0 <= i < rows,
                    0 <= j <= cols,
                    self.is_matrix(),
                    rows == self.spec_nr_rows(),
                    cols == self.spec_nr_cols(),
                    at.is_matrix(),
                    at.spec_view().transposed == false,
                    at.spec_nr_rows() == cols,
                    at.spec_nr_cols() == rows,
                    forall|a: int, b: int|
                        0 <= a < i && 0 <= b < cols ==> at.mat_at(b, a) == self.mat_at(a, b),
                    forall|b: int| 0 <= b < j ==> at.mat_at(b, i as int) == self.mat_at(i as int, b),
                decreases cols - j,
            {
                let x: T = self.get(i, j);
                at.set(j, i, x);
                j = j + 1;
            }
            i = i + 1;
        }
        at
    }

    /// Transpose the matrix in place: afterwards the observed shape is
    /// swapped and the observed element at `(i, j)` is what `(j, i)` held.
    /// A square matrix is done by pairwise swaps; a rectangular one by the
    /// permutation-cycle rearrangement.
    pub fn transpose(&mut self)
        requires
            old(self).is_matrix(),
        ensures
            final(self).is_matrix(),
            final(self).spec_view() == old(self).spec_view(),
            final(self).spec_order() == old(self).spec_order(),
            final(self).spec_nr_rows() == old(self).spec_nr_cols(),
            final(self).spec_nr_cols() == old(self).spec_nr_rows(),
            forall|i: int, j: int|
                final(self).mat_index_ok(i, j) ==> final(self).mat_at(i, j) == old(self).mat_at(
                    j,
                    i,
                ),
    {
        if self.nr_rows() == self.nr_cols() {
            transpose_square(self);
        } else {
            transpose_in_place(self);
        }
    }

    /// Scalar multiplication: every buffer element becomes `x * factor`.
    /// Because it touches every element uniformly, the view has no effect.
    pub fn scale(&mut self, factor: T)
        requires
            old(self).wf(),
        ensures
            final(self).wf(),
            final(self).spec_sizes() == old(self).spec_sizes(),
            final(self).spec_view() == old(self).spec_view(),
            final(self).spec_order() == old(self).spec_order(),
            final(self).spec_buf().len() == old(self).spec_buf().len(),
            forall|k: int|
                0 <= k < final(self).spec_buf().len() ==> final(self).spec_buf()[k] == old(
                    self,
                ).spec_buf()[k].v_mul(factor),
    {
        let n: usize = self.buf_len();
        let mut k: usize = 0;
        while k < n
            invariant
                0 <= k <= n,
                self.wf(),
                self.spec_sizes() == old(self).spec_sizes(),
                self.spec_view() == old(self).spec_view(),
                self.spec_order() == old(self).spec_order(),
                self.spec_buf().len() == old(self).spec_buf().len(),
                n == self.spec_buf().len(),
                forall|t: int|
                    0 <= t < k ==> self.spec_buf()[t] == old(self).spec_buf()[t].v_mul(factor),
                forall|t: int| k <= t < n ==> self.spec_buf()[t] == old(self).spec_buf()[t],
            decreases n - k,
        {
            let x: T = self.buf_at(k);
            self.set_buf_at(k, x.mul_val(factor));
            k = k + 1;
        }
    }

    /// Whether `add` accepts the pair: both operands two-dimensional with
    /// the same observed shape.
    pub open spec fn add_compatible(self, rhs: Tnsr<T>) -> bool {
        &&& self.spec_nr_dims() == 2
        &&& rhs.spec_nr_dims() == 2
        &&& self.spec_nr_rows() == rhs.spec_nr_rows()
        &&& self.spec_nr_cols() == rhs.spec_nr_cols()
    }

    /// Matrix addition: `self[i][j]` becomes `self[i][j] + rhs[i][j]`, read
    /// and written through each operand's own view. Fails, leaving `self`
    /// untouched, when an operand is not two-dimensional or the observed
    /// shapes differ. When neither operand is in a transposed view the
    /// elementwise pass is delegated to the vector kernel over the flat
    /// buffers; otherwise it goes element by element through the views.
    pub fn add(&mut self, rhs: &Tnsr<T>) -> (r: Result<(), TnsrErr>)
        requires
            old(self).wf(),
            rhs.wf(),
        ensures
            final(self).wf(),
            final(self).spec_sizes() == old(self).spec_sizes(),
            final(self).spec_view() == old(self).spec_view(),
            final(self).spec_order() == old(self).spec_order(),
            r is Ok <==> old(self).add_compatible(*rhs),
            old(self).spec_nr_dims() != 2 ==> r == Err::<(), TnsrErr>(
                TnsrErr::IllegalNrDimentions {
                    expect: 2,
                    nr_dims: old(self).spec_nr_dims() as usize,
                },
            ),
            old(self).spec_nr_dims() == 2 && rhs.spec_nr_dims() != 2 ==> r == Err::<(), TnsrErr>(
                TnsrErr::IllegalNrDimentions { expect: 2, nr_dims: rhs.spec_nr_dims() as usize },
            ),
            old(self).spec_nr_dims() == 2 && rhs.spec_nr_dims() == 2 && !old(self).add_compatible(
                *rhs,
            ) ==> r == Err::<(), TnsrErr>(TnsrErr::DimentionsMismatch),
            !old(self).add_compatible(*rhs) ==> final(self).spec_buf() == old(self).spec_buf(),
            old(self).add_compatible(*rhs) ==> forall|i: int, j: int|
                old(self).mat_index_ok(i, j) ==> final(self).mat_at(i, j) == old(self).mat_at(
                    i,
                    j,
                ).v_add(rhs.mat_at(i, j)),
    {
        if self.dims_count() != 2 {
            return Err(TnsrErr::IllegalNrDimentions { expect: 2, nr_dims: self.dims_count() });
        }
        if rhs.dims_count() != 2 {
            return Err(TnsrErr::IllegalNrDimentions { expect: 2, nr_dims: rhs.dims_count() });
        }
        if self.nr_rows() != rhs.nr_rows() || self.nr_cols() != rhs.nr_cols() {
            return Err(TnsrErr::DimentionsMismatch);
        }
        if !self.transposed() && !rhs.transposed() {
            proof {
                lemma_size_product2(self.spec_sizes());
                lemma_size_product2(rhs.spec_sizes());
            }
            let ghost old_m = *self;
            proof {
                assert(old_m.spec_sizes() =~= rhs.spec_sizes());
            }
            self.kernel_add(rhs.buf_slice());
            proof {
                assert forall|i: int, j: int| old_m.mat_index_ok(i, j) implies self.mat_at(i, j)
                    == old_m.mat_at(i, j).v_add(rhs.mat_at(i, j)) by {
                    old_m.lemma_mat_off_bound(i, j);
                    rhs.lemma_mat_off_bound(i, j);
                }
            }
            return Ok(());
        }
        let rows: usize = self.nr_rows();
        let cols: usize = self.nr_cols();
        let mut i: usize = 0;
        while i < rows
            invariant
                0 <= i <= rows,
                self.wf(),
                rhs.wf(),
                self.spec_nr_dims() == 2,
                rhs.spec_nr_dims() == 2,
                self.spec_sizes() == old(self).spec_sizes(),
                self.spec_view() == old(self).spec_view(),
                self.spec_order() == old(self).spec_order(),
                rows == self.spec_nr_rows(),
                cols == self.spec_nr_cols(),
                rows == rhs.spec_nr_rows(),
                cols == rhs.spec_nr_cols(),
                old(self).spec_nr_rows() == rows,
                old(self).spec_nr_cols() == cols,
                forall|a: int, b: int|
                    0 <= a < i && 0 <= b < cols ==> self.mat_at(a, b) == old(self).mat_at(
                        a,
                        b,
                    ).v_add(rhs.mat_at(a, b)),
                forall|a: int, b: int|
                    i <= a < rows && 0 <= b < cols ==> self.mat_at(a, b) == old(self).mat_at(a, b),
            decreases rows - i,
        {
            let mut j: usize = 0;
            while j < cols
                invariant
                    0 <= i < rows,
                    0 <= j <= cols,
                    self.wf(),
                    rhs.wf(),
                    self.spec_nr_dims() == 2,
                    rhs.spec_nr_dims() == 2,
                    self.spec_sizes() == old(self).spec_sizes(),
                    self.spec_view() == old(self).spec_view(),
                    self.spec_order() == old(self).spec_order(),
                    rows == self.spec_nr_rows(),
                    cols == self.spec_nr_cols(),
                    rows == rhs.spec_nr_rows(),
                    cols == rhs.spec_nr_cols(),
                    old(self).spec_nr_rows() == rows,
                    old(self).spec_nr_cols() == cols,
                    forall|a: int, b: int|
                        0 <= a < i && 0 <= b < cols ==> self.mat_at(a, b) == old(self).mat_at(
                            a,
                            b,
                        ).v_add(rhs.mat_at(a, b)),
                    forall|b: int|
                        0 <= b < j ==> self.mat_at(i as int, b) == old(self).mat_at(
                            i as int,
                            b,
                        ).v_add(rhs.mat_at(i as int, b)),
                    forall|b: int|
                        j <= b < cols ==> self.mat_at(i as int, b) == old(self).mat_at(i as int, b),
                    forall|a: int, b: int|
                        i < a < rows && 0 <= b < cols ==> self.mat_at(a, b) == old(self).mat_at(
                            a,
                            b,
                        ),
                decreases cols - j,
            {
                let s: T = self.get(i, j).add_val(rhs.get(i, j));
                self.set(i, j, s);
                j = j + 1;
            }
            i = i + 1;
        }
        Ok(())
    }

    /// Whether `mul` accepts the pair: both operands two-dimensional and the
    /// observed inner dimensions agree.
    pub open spec fn mul_compatible(self, rhs: Tnsr<T>) -> bool {
        &&& self.spec_nr_dims() == 2
        &&& rhs.spec_nr_dims() == 2
        &&& self.spec_nr_cols() == rhs.spec_nr_rows()
    }

    /// Running sum of the first `k` products along the inner dimension of
    /// the product entry at `(row, col)`, seeded with the zero element:
    /// `(..(0 + a(row,0)*b(0,col)) + ..) + a(row,k-1)*b(k-1,col)`.
    pub open spec fn spec_dot(self, rhs: Tnsr<T>, row: int, col: int, k: int) -> T
        decreases k,
    {
        if k <= 0 {
            T::v_zero()
        } else {
            self.spec_dot(rhs, row, col, k - 1).v_add(
                self.mat_at(row, k - 1).v_mul(rhs.mat_at(k - 1, col)),
            )
        }
    }

    /// Matrix multiplication: allocates and returns the product, whose entry
    /// at `(row, col)` is the sum over the inner dimension of
    /// `self[row][k] * rhs[k][col]`, both operands read through their views.
    /// Fails when an operand is not two-dimensional or the observed inner
    /// dimensions differ.
    pub fn mul(&self, rhs: &Tnsr<T>) -> (res: Result<Tnsr<T>, TnsrErr>)
        requires
            self.wf(),
            rhs.wf(),
            self.mul_compatible(*rhs) ==> self.spec_nr_rows() * rhs.spec_nr_cols() <= usize::MAX,
        ensures
            res is Ok <==> self.mul_compatible(*rhs),
            self.spec_nr_dims() != 2 ==> res == Err::<Tnsr<T>, TnsrErr>(
                TnsrErr::IllegalNrDimentions { expect: 2, nr_dims: self.spec_nr_dims() as usize },
            ),
            self.spec_nr_dims() == 2 && rhs.spec_nr_dims() != 2 ==> res == Err::<Tnsr<T>, TnsrErr>(
                TnsrErr::IllegalNrDimentions { expect: 2, nr_dims: rhs.spec_nr_dims() as usize },
            ),
            self.spec_nr_dims() == 2 && rhs.spec_nr_dims() == 2 && !self.mul_compatible(*rhs)
                ==> res == Err::<Tnsr<T>, TnsrErr>(TnsrErr::DimentionsMismatch),
            self.mul_compatible(*rhs) ==> (res matches Ok(m) && m.is_matrix()
                && m.spec_view().transposed == false && m.spec_nr_rows() == self.spec_nr_rows()
                && m.spec_nr_cols() == rhs.spec_nr_cols() && (forall|a: int, b: int|
                m.mat_index_ok(a, b) ==> m.mat_at(a, b) == self.spec_dot(
                    *rhs,
                    a,
                    b,
                    self.spec_nr_cols(),
                ))),
    {
        if self.dims_count() != 2 {
            return Err(TnsrErr::IllegalNrDimentions { expect: 2, nr_dims: self.dims_count() });
        }
        if rhs.dims_count() != 2 {
            return Err(TnsrErr::IllegalNrDimentions { expect: 2, nr_dims: rhs.dims_count() });
        }
        if self.nr_cols() != rhs.nr_rows() {
            return Err(TnsrErr::DimentionsMismatch);
        }
        let rows: usize = self.nr_rows();
        let cols: usize = rhs.nr_cols();
        let inner: usize = self.nr_cols();
        let mut a_x_b: Tnsr<T> = Tnsr::<T>::new_matrix(rows, cols);
        let mut r: usize = 0;
        while r < rows
            invariant
                0 <= r <= rows,
                self.is_matrix(),
                rhs.is_matrix(),
                rows == self.spec_nr_rows(),
                cols == rhs.spec_nr_cols(),
                inner == self.spec_nr_cols(),
                inner == rhs.spec_nr_rows(),
                a_x_b.is_matrix(),
                a_x_b.spec_view().transposed == false,
                a_x_b.spec_nr_rows() == rows,
                a_x_b.spec_nr_cols() == cols,
                forall|a: int, b: int|
                    0 <= a < r && 0 <= b < cols ==> a_x_b.mat_at(a, b) == self.spec_dot(
                        *rhs,
                        a,
                        b,
                        inner as int,
                    ),
            decreases rows - r,
        {
            let mut c: usize = 0;
            while c < cols
                invariant
                    0 <= r < rows,
                    0 <= c <= cols,
                    self.is_matrix(),
                    rhs.is_matrix(),
                    rows == self.spec_nr_rows(),
                    cols == rhs.spec_nr_cols(),
                    inner == self.spec_nr_cols(),
                    inner == rhs.spec_nr_rows(),
                    a_x_b.is_matrix(),
                    a_x_b.spec_view().transposed == false,
                    a_x_b.spec_nr_rows() == rows,
                    a_x_b.spec_nr_cols() == cols,
                    forall|a: int, b: int|
                        0 <= a < r && 0 <= b < cols ==> a_x_b.mat_at(a, b) == self.spec_dot(
                            *rhs,
                            a,
                            b,
                            inner as int,
                        ),
                    forall|b: int|
                        0 <= b < c ==> a_x_b.mat_at(r as int, b) == self.spec_dot(
                            *rhs,
                            r as int,
                            b,
                            inner as int,
                        ),
                decreases cols - c,
            {
                let mut sum_products: T = T::zero();
                let mut k: usize = 0;
                while k < inner
                    invariant
                        0 <= k <= inner,
                        0 <= r < rows,
                        0 <= c < cols,
                        self.is_matrix(),
                        rhs.is_matrix(),
                        rows == self.spec_nr_rows(),
                        cols == rhs.spec_nr_cols(),
                        inner == self.spec_nr_cols(),
                        inner == rhs.spec_nr_rows(),
                        sum_products == self.spec_dot(*rhs, r as int, c as int, k as int),
                    decreases inner - k,
                {
                    sum_products = sum_products.add_val(self.get(r, k).mul_val(rhs.get(k, c)));
                    k = k + 1;
                }
                a_x_b.set(r, c, sum_products);
                c = c + 1;
            }
            r = r + 1;
        }
        Ok(a_x_b)
    }

    /// The rendering of the observed cells `lo..hi` of row `i`: each element
    /// in the fixed-width scientific form, each followed by a comma and a
    /// space.
    pub open spec fn fmt_cells(self, i: int, lo: int, hi: int) -> Seq<char>
        decreases hi - lo,
    {
        if hi <= lo {
            Seq::<char>::empty()
        } else {
            self.fmt_cells(i, lo, hi - 1) + self.mat_at(i, hi - 1).v_fmt() + ", "@
        }
    }

    /// The rendering of observed row `i`: every cell when there are fewer
    /// than ten columns, else the first four, an ellipsis, and the last four.
    pub open spec fn fmt_row_spec(self, i: int) -> Seq<char> {
        if self.spec_nr_cols() < 10 {
            self.fmt_cells(i, 0, self.spec_nr_cols())
        } else {
            self.fmt_cells(i, 0, 4) + "... "@ + self.fmt_cells(
                i,
                self.spec_nr_cols() - 4,
                self.spec_nr_cols(),
            )
        }
    }

    /// The renderings of observed rows `lo..hi`, each on a line of its own.
    pub open spec fn fmt_rows(self, lo: int, hi: int) -> Seq<char>
        decreases hi - lo,
    {
        if hi <= lo {
            Seq::<char>::empty()
        } else {
            self.fmt_rows(lo, hi - 1) + self.fmt_row_spec(hi - 1) + "\n"@
        }
    }

    /// The rendered rows: all of them when there are fewer than sixteen,
    /// else the first seven, an ellipsis line, and the last seven.
    pub open spec fn fmt_body(self) -> Seq<char> {
        if self.spec_nr_rows() < 16 {
            self.fmt_rows(0, self.spec_nr_rows())
        } else {
            self.fmt_rows(0, 7) + "...\n"@ + self.fmt_rows(
                self.spec_nr_rows() - 7,
                self.spec_nr_rows(),
            )
        }
    }

    /// The full matrix rendering: a `colsxrows` header line, then the rows.
    pub open spec fn fmt_spec(self) -> Seq<char> {
        dec_str(self.spec_nr_cols() as nat) + "x"@ + dec_str(self.spec_nr_rows() as nat) + "\n"@
            + self.fmt_body()
    }

    /// Render the observed cells `lo..hi` of row `i`.
    fn fmt_cells_exec(&self, i: usize, lo: usize, hi: usize) -> (r: String)
        requires
            self.is_matrix(),
            i < self.spec_nr_rows(),
            hi <= self.spec_nr_cols(),
        ensures
            r@ == self.fmt_cells(i as int, lo as int, hi as int),
    {
        let mut s: String = String::new();
        let mut j: usize = lo;
        if hi <= lo {
            return s;
        }
        while j < hi
            invariant
                lo <= j <= hi,
                self.is_matrix(),
                i < self.spec_nr_rows(),
                hi <= self.spec_nr_cols(),
                s@ == self.fmt_cells(i as int, lo as int, j as int),
            decreases hi - j,
        {
            let cell: String = self.get(i, j).fmt_val();
            s.append(cell.as_str());
            s.append(", ");
            proof {
                assert(s@ =~= self.fmt_cells(i as int, lo as int, j + 1));
            }
            j = j + 1;
        }
        s
    }

    /// Render one observed row, truncated to the first and last four cells
    /// when the matrix has ten or more columns.
    fn fmt_row(&self, i: usize) -> (r: String)
        requires
            self.is_matrix(),
            i < self.spec_nr_rows(),
        ensures
            r@ == self.fmt_row_spec(i as int),
    {
        let cols: usize = self.nr_cols();
        if cols < 10 {
            self.fmt_cells_exec(i, 0, cols)
        } else {
            let mut s: String = self.fmt_cells_exec(i, 0, 4);
            s.append("... ");
            let tail: String = self.fmt_cells_exec(i, cols - 4, cols);
            s.append(tail.as_str());
            proof {
                assert(s@ =~= self.fmt_row_spec(i as int));
            }
            s
        }
    }

    /// Render the matrix for display: a header line holding the observed
    /// column count, `x`, and the observed row count, then one line per
    /// observed row; rows and cells are truncated around ellipses once the
    /// matrix has sixteen or more rows or ten or more columns.
    pub fn fmt_matrix(&self) -> (r: String)
        requires
            self.is_matrix(),
        ensures
            r@ == self.fmt_spec(),
    {
        let rows: usize = self.nr_rows();
        let mut s: String = usize_dec(self.nr_cols());
        s.append("x");
        let rs: String = usize_dec(rows);
        s.append(rs.as_str());
        s.append("\n");
        if rows < 16 {
            let mut i: usize = 0;
            while i < rows
                invariant
                    0 <= i <= rows,
                    self.is_matrix(),
                    rows == self.spec_nr_rows(),
                    s@ == dec_str(self.spec_nr_cols() as nat) + "x"@ + dec_str(
                        self.spec_nr_rows() as nat,
                    ) + "\n"@ + self.fmt_rows(0, i as int),
                decreases rows - i,
            {
                let row: String = self.fmt_row(i);
                s.append(row.as_str());
                s.append("\n");
                proof {
                    assert(s@ =~= dec_str(self.spec_nr_cols() as nat) + "x"@ + dec_str(
                        self.spec_nr_rows() as nat,
                    ) + "\n"@ + self.fmt_rows(0, i + 1));
                }
                i = i + 1;
            }
            proof {
                assert(s@ =~= self.fmt_spec());
            }
            s
        } else {
            let ghost header = dec_str(self.spec_nr_cols() as nat) + "x"@ + dec_str(
                self.spec_nr_rows() as nat,
            ) + "\n"@;
            let mut i: usize = 0;
            while i < 7
                invariant
                    0 <= i <= 7,
                    self.is_matrix(),
                    rows == self.spec_nr_rows(),
                    rows >= 16,
                    header == dec_str(self.spec_nr_cols() as nat) + "x"@ + dec_str(
                        self.spec_nr_rows() as nat,
                    ) + "\n"@,
                    s@ == header + self.fmt_rows(0, i as int),
                decreases 7 - i,
            {
                let row: String = self.fmt_row(i);
                s.append(row.as_str());
                s.append("\n");
                proof {
                    assert(s@ =~= header + self.fmt_rows(0, i + 1));
                }
                i = i + 1;
            }
            s.append("...\n");
            let mut i: usize = rows - 7;
            while i < rows
                invariant
                    rows - 7 <= i <= rows,
                    self.is_matrix(),
                    rows == self.spec_nr_rows(),
                    rows >= 16,
                    header == dec_str(self.spec_nr_cols() as nat) + "x"@ + dec_str(
                        self.spec_nr_rows() as nat,
                    ) + "\n"@,
                    s@ == header + self.fmt_rows(0, 7) + "...\n"@ + self.fmt_rows(
                        rows - 7,
                        i as int,
                    ),
                decreases rows - i,
            {
                let row: String = self.fmt_row(i);
                s.append(row.as_str());
                s.append("\n");
                proof {
                    assert(s@ =~= header + self.fmt_rows(0, 7) + "...\n"@ + self.fmt_rows(
                        rows - 7,
                        i + 1,
                    ));
                }
                i = i + 1;
            }
            proof {
                assert(s@ =~= self.fmt_spec());
            }
            s
        }
    }
}

/// The decimal digit characters.
pub open spec fn digit_char(d: int) -> char {
    if d == 0 {
        '0'
    } else if d == 1 {
        '1'
    } else if d == 2 {
        '2'
    } else if d == 3 {
        '3'
    } else if d == 4 {
        '4'
    } else if d == 5 {
        '5'
    } else if d == 6 {
        '6'
    } else if d == 7 {
        '7'
    } else if d == 8 {
        '8'
    } else {
        '9'
    }
}

/// The decimal rendering of a number, most significant digit first.
pub open spec fn dec_str(x: nat) -> Seq<char>
    decreases x,
{
    if x < 10 {
        seq![digit_char(x as int)]
    } else {
        dec_str(x / 10).push(digit_char((x % 10) as int))
    }
}

/// One decimal digit as a string.
fn digit_str(d: usize) -> (r: String)
    requires
        d < 10,
    ensures
        r@ =~= seq![digit_char(d as int)],
{
    proof {
        reveal_strlit("0");
        reveal_strlit("1");
        reveal_strlit("2");
        reveal_strlit("3");
        reveal_strlit("4");
        reveal_strlit("5");
        reveal_strlit("6");
        reveal_strlit("7");
        reveal_strlit("8");
        reveal_strlit("9");
    }
    let s: &str = if d == 0 {
        "0"
    } else if d == 1 {
        "1"
    } else if d == 2 {
        "2"
    } else if d == 3 {
        "3"
    } else if d == 4 {
        "4"
    } else if d == 5 {
        "5"
    } else if d == 6 {
        "6"
    } else if d == 7 {
        "7"
    } else if d == 8 {
        "8"
    } else {
        "9"
    };
    String::from_str(s)
}

/// The decimal rendering of a number as a runtime string.
fn usize_dec(x: usize) -> (r: String)
    ensures
        r@ == dec_str(x as nat),
    decreases x,
{
    if x < 10 {
        digit_str(x)
    } else {
        let mut s: String = usize_dec(x / 10);
        let d: String = digit_str(x % 10);
        s.append(d.as_str());
        proof {
            assert(s@ =~= dec_str(x as nat));
        }
        s
    }
}

/// Law: the transposition view is an involution. Toggling the view twice
/// restores the original value exactly, buffer included, and a single toggle
/// yields a matrix that `is_transpose` accepts against the original.
pub proof fn lemma_transpose_view_involution<T: TnsrValType>(m: Tnsr<T>)
    requires
        m.is_matrix(),
    ensures
        m.spec_transpose_view().spec_transpose_view() == m,
        m.spec_transpose_view().spec_buf() == m.spec_buf(),
        m.spec_is_transpose(m.spec_transpose_view()),
{
    m.lemma_spec_transpose_view();
    let t = m.spec_transpose_view();
    assert forall|i: int, j: int| m.mat_index_ok(i, j) implies m.mat_at(i, j).v_eq(
        t.mat_at(j, i),
    ) by {
        assert(t.mat_at(j, i) == m.mat_at(i, j));
        m.mat_at(i, j).lemma_eq_reflexive();
    }
}

/// Law: a matrix whose observed elements are the transposed reading of
/// another's — the state in which `transpose` and `make_transposed` leave
/// their result — is accepted by `is_transpose` against that other matrix.
/// In particular the in-place and the allocating transpose agree with the
/// equality check on every matrix.
pub proof fn lemma_transposed_is_transpose<T: TnsrValType>(a: Tnsr<T>, b: Tnsr<T>)
    requires
        a.is_matrix(),
        b.is_matrix(),
        b.spec_nr_rows() == a.spec_nr_cols(),
        b.spec_nr_cols() == a.spec_nr_rows(),
        forall|i: int, j: int| b.mat_index_ok(i, j) ==> b.mat_at(i, j) == a.mat_at(j, i),
    ensures
        b.spec_is_transpose(a),
{
    assert forall|i: int, j: int| b.mat_index_ok(i, j) implies b.mat_at(i, j).v_eq(
        a.mat_at(j, i),
    ) by {
        b.mat_at(i, j).lemma_eq_reflexive();
    }
}

} // verus!
