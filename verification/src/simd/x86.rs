//! Kernels specialized for x86 processors.

pub mod avx2;
