//! Neural-network building blocks.
pub mod init;
pub mod layers;
pub mod optimizer;
pub mod path;
pub mod sparse;
