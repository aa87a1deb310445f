//! Operators on tensors: the kind of the result of `scalar / tensor`.
use crate::kind::{is_floating_or_complex, Kind};
use vstd::prelude::*;

verus! {

/// The kind a scalar takes when divided by a tensor of kind `rhs`, as
/// PyTorch promotes wrapped numbers: the tensor's kind when it is
/// floating-point or complex, `Float` otherwise, so that integer and bool
/// tensors get true division (`2 / int_tensor` gives floats).
pub fn scalar_div_kind(rhs: Kind) -> (k: Kind)
    ensures
        k == if is_floating_or_complex(rhs) {
            rhs
        } else {
            Kind::Float
        },
{
    match rhs {
        Kind::Half | Kind::BFloat16 | Kind::Float | Kind::Double | Kind::ComplexHalf
        | Kind::ComplexFloat | Kind::ComplexDouble => rhs,
        _ => Kind::Float,
    }
}

} // verus!
