//! Computer vision models and datasets.
pub mod cifar;
pub mod dataset;
pub mod inception;
pub mod mobilenet;
pub mod squeezenet;
