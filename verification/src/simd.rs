//! Vector kernels: the elementwise passes over flat buffers that the tensor
//! engine delegates to. Each kernel carries an exact elementwise contract, so
//! the engine is correct with any implementation that meets it.

pub mod noarch;
pub mod vec;
pub mod x86;
