//! The errors of the library.
use vstd::prelude::*;

verus! {

/// The error of `ndarray` when an array cannot take a given shape.
#[verifier::external_type_specification]
#[verifier::external_body]
pub struct ExShapeError(ndarray::ShapeError);

/// Errors reported by the library.
#[derive(Debug)]
pub enum TchError {
    /// Invalid conversion.
    Convert(String),
    /// Incoherent element kind.
    Kind(String),
    /// Invalid shape.
    Shape(String),
    /// Invalid array shape or layout, reported by `ndarray`.
    NdArray(ndarray::ShapeError),
    /// An element kind code that libtorch does not use.
    UnknownKind(libc::c_int),
    /// An error reported by libtorch.
    Torch(String),
}

impl TchError {
    /// The message of a `Convert`, `Kind`, `Shape` or `Torch` error.
    pub open spec fn message(self) -> Seq<char> {
        match self {
            TchError::Convert(m) => m@,
            TchError::Kind(m) => m@,
            TchError::Shape(m) => m@,
            TchError::Torch(m) => m@,
            _ => Seq::empty(),
        }
    }
}

} // verus!
