//! Linear algebra: the tensor engine.

pub mod tnsr;

pub use tnsr::TnsrValType;
pub use tnsr::{Tensor, Vector};
pub use tnsr::{TnsrOrder, TnsrOrderType, TnsrView};
