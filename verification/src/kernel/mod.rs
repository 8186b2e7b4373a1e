//! Launching kernels on a graphics device.

pub mod dequant;
pub mod gemm;
pub mod gemv;
pub mod loader;
pub mod ops;
