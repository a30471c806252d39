//! Inference runtime for gradient-boosted decision tree ensembles stored in
//! the binary tree-ensemble model layout.
//!
//! Floating-point values never appear in this crate: every 32-bit float of the
//! model and of a feature vector is held as its IEEE-754 binary32 bit pattern
//! in a `u32`. Two such patterns are compared as `<` on `f32` compares them
//! (see `float_bits`). Summing leaf values is left to the caller, who receives
//! the bit patterns of the reached leaves in tree order.
mod bytes;
pub mod decode;
pub mod float_bits;
pub mod fvec;
pub mod model;

pub use fvec::FVec;
pub use model::{XGBModel, XGBNode, XGBTree};
