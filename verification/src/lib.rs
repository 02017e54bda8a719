//! Typed intermediate representation for compute kernels, a stride-layout
//! classifier, and the tiling-2D launch planner that turns a tiled
//! matrix-multiplication request into a concrete, hardware-valid dispatch
//! plan, with structured errors for an external autotuning search.

pub mod codec;
pub mod error;
pub mod ir;
pub mod layout;
pub mod tiling2d;
