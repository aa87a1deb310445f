//! Tensors: conversions, iteration and operators.
pub mod convert;
pub mod iter;
pub mod ops;
