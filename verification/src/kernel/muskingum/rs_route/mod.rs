//! The lane-parallel kernel.

pub mod lane_laws;
pub mod mc_kernel_simd;
pub mod step_laws;
