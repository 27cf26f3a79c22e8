//! A dense-matrix multiplication engine with interchangeable execution
//! strategies: a host reference loop and three accelerator kernels (naive,
//! tiled with local memory, and tiled with per-thread work coarsening).
//!
//! The element type is generic: callers supply the additive identity and the
//! add/multiply operations as closures, and every contract pins the result
//! down as a chain of those operations over the operands.

pub mod args;
pub mod basic;
pub mod device;
pub mod easy;
pub mod error;
pub mod hard;
pub mod kernels;
pub mod matrix;
pub mod medium;
pub mod multiplier;
pub mod pipeline;
pub mod sources;
pub mod timing;
