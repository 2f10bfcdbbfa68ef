//! The N-dimensional tensor capability: dimension introspection.

use vstd::prelude::*;

use super::order::size_product;
use super::{Tnsr, TnsrValType};

verus! {

/// An N-dimensional tensor: introspection over its dimensions. Algebra
/// beyond two dimensions is not part of this capability.
pub trait Tensor<T: TnsrValType>: Sized {
    /// Whether the value is in a state this capability may be used on.
    spec fn t_wf(&self) -> bool;

    /// The per-dimension extents.
    spec fn t_sizes(&self) -> Seq<usize>;

    /// Number of dimensions.
    fn nr_dims(&self) -> (r: usize)
        requires
            self.t_wf(),
        ensures
            r == self.t_sizes().len(),
    ;

    /// The extent of each dimension.
    fn sizes(&self) -> (r: &[usize])
        requires
            self.t_wf(),
        ensures
            r@ == self.t_sizes(),
    ;

    /// The extent of one dimension, or `None` when the index is not a
    /// dimension of this tensor.
    fn dim(&self, dim_index: usize) -> (r: Option<usize>)
        requires
            self.t_wf(),
        ensures
            r == if dim_index < self.t_sizes().len() {
                Some(self.t_sizes()[dim_index as int])
            } else {
                None::<usize>
            },
    ;
}

impl<T: TnsrValType> Tensor<T> for Tnsr<T> {
    open spec fn t_wf(&self) -> bool {
        self.wf()
    }

    open spec fn t_sizes(&self) -> Seq<usize> {
        self.spec_sizes()
    }

    fn nr_dims(&self) -> (r: usize) {
        self.dims_count()
    }

    fn sizes(&self) -> (r: &[usize]) {
        self.sizes_slice()
    }

    fn dim(&self, dim_index: usize) -> (r: Option<usize>) {
        if dim_index < self.dims_count() {
            Some(self.size_at(dim_index))
        } else {
            None
        }
    }
}

/// A well-formed one-dimensional tensor's buffer holds exactly as many
/// elements as its single extent says.
pub proof fn lemma_vector_buf_len<T: TnsrValType>(t: Tnsr<T>)
    requires
        t.wf(),
        t.spec_nr_dims() == 1,
    ensures
        t.spec_buf().len() == t.spec_sizes()[0],
{
    let sz = t.spec_sizes();
    assert(sz.drop_last().len() == 0);
    assert(size_product(sz.drop_last()) == 1);
    assert(size_product(sz) == 1 * sz.last());
    assert(sz.last() == sz[0]);
}

} // verus!
