//! The vector capability: positional access and the Euclidean norm over a
//! one-dimensional tensor.

use vstd::prelude::*;

use super::order::index_in_bounds;
use super::tensor::lemma_vector_buf_len;
use super::{Tnsr, TnsrValType};
use crate::simd;
use crate::simd::vec::sum_squares;

verus! {

/// A vector as a one-dimensional tensor.
pub trait Vector<T: TnsrValType>: Sized {
    /// Whether the value is in a state this capability may be used on.
    spec fn vec_wf(&self) -> bool;

    /// The elements, in position order.
    spec fn vec_elems(&self) -> Seq<T>;

    /// The vector's length.
    fn size(&self) -> (r: usize)
        requires
            self.vec_wf(),
        ensures
            r == self.vec_elems().len(),
    ;

    /// Element at a position. The caller must keep the position in bounds;
    /// no runtime check is made.
    fn get(&self, pos: usize) -> (r: T)
        requires
            self.vec_wf(),
            pos < self.vec_elems().len(),
        ensures
            r == self.vec_elems()[pos as int],
    ;

    /// Write an element at a position; every other element stays.
    fn set(&mut self, pos: usize, val: T)
        requires
            old(self).vec_wf(),
            pos < old(self).vec_elems().len(),
        ensures
            final(self).vec_wf(),
            final(self).vec_elems() == old(self).vec_elems().update(pos as int, val),
    ;

    /// The norm (length, magnitude) of the vector:
    /// `sqrt(v[0]*v[0] + v[1]*v[1] + ..)`, delegated to the vector kernel.
    fn norm(&self) -> (r: T)
        requires
            self.vec_wf(),
        ensures
            r == sum_squares(self.vec_elems()).v_sqrt(),
    ;
}

impl<T: TnsrValType> Vector<T> for Tnsr<T> {
    open spec fn vec_wf(&self) -> bool {
        &&& self.wf()
        &&& self.spec_nr_dims() == 1
    }

    open spec fn vec_elems(&self) -> Seq<T> {
        self.spec_buf()
    }

    fn size(&self) -> (r: usize) {
        proof {
            lemma_vector_buf_len(*self);
        }
        self.size_at(0)
    }

    fn get(&self, pos: usize) -> (r: T) {
        proof {
            lemma_vector_buf_len(*self);
        }
        let idx: [usize; 1] = [pos];
        proof {
            assert(idx@ =~= seq![pos]);
            assert(index_in_bounds(idx@, self.spec_sizes()));
        }
        let p: usize = self.order_ref().val_pos(&idx, self.sizes_slice());
        proof {
            assert(idx@.drop_last().len() == 0);
            assert(super::order::row_major_offset(idx@.drop_last(), self.spec_sizes()) == 0);
            assert(super::order::row_major_offset(idx@, self.spec_sizes()) == 0
                * self.spec_sizes()[0] + pos);
        }
        self.buf_at(p)
    }

    fn set(&mut self, pos: usize, val: T) {
        proof {
            lemma_vector_buf_len(*old(self));
        }
        let idx: [usize; 1] = [pos];
        proof {
            assert(idx@ =~= seq![pos]);
            assert(index_in_bounds(idx@, self.spec_sizes()));
        }
        let p: usize = self.order_ref().val_pos(&idx, self.sizes_slice());
        proof {
            assert(idx@.drop_last().len() == 0);
            assert(super::order::row_major_offset(idx@.drop_last(), self.spec_sizes()) == 0);
            assert(super::order::row_major_offset(idx@, self.spec_sizes()) == 0
                * self.spec_sizes()[0] + pos);
        }
        self.set_buf_at(p, val);
    }

    fn norm(&self) -> (r: T) {
        simd::vec::norm(self.buf_slice())
    }
}

} // verus!
