//! The libtorch wrapper layer.
pub mod scalar;
pub mod tensor;
