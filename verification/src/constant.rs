//! Physical-constant machinery: unit bookkeeping for the MKS system.

pub mod mks;
