//! Routing kernels.

pub mod muskingum;
