//! Shape, layout and architecture logic of a PyTorch binding library,
//! verified with Verus.
pub mod device;
pub mod error;
pub mod format;
pub mod kind;
pub mod nn;
pub mod tensor;
pub mod vision;
pub mod wrappers;

pub use device::Device;
pub use error::TchError;
pub use kind::Kind;
pub use wrappers::tensor::Reduction;
