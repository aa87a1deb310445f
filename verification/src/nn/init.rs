//! Variable initialization: the shape arithmetic behind the initializers.
use crate::error::TchError;
use vstd::prelude::*;

verus! {

/// The product of a sequence of dimensions, folded from the left.
pub open spec fn dims_product(dims: Seq<i64>) -> int
    decreases dims.len(),
{
    if dims.len() == 0 {
        1
    } else {
        dims_product(dims.drop_last()) * dims.last()
    }
}

/// Every running product of `dims`, taken left to right, fits in an `i64`.
pub open spec fn running_products_fit(dims: Seq<i64>) -> bool {
    forall|k: int|
        0 <= k <= dims.len() ==> i64::MIN <= #[trigger] dims_product(dims.take(k)) <= i64::MAX
}

/// The dimensions that follow the first `n` ones (none when there are at
/// most `n`).
pub open spec fn dims_after(dims: Seq<i64>, n: int) -> Seq<i64> {
    if dims.len() <= n {
        Seq::empty()
    } else {
        dims.skip(n)
    }
}

/// Number of features as input or output of a layer.
/// In Kaiming initialization, choosing `FanIn` preserves
/// the magnitude of the variance of the weights in the
/// forward pass, choosing `FanOut` preserves this
/// magnitude in the backward pass.
#[derive(Debug, Copy, Clone, PartialEq, Eq, Structural)]
pub enum FanInOut {
    FanIn,
    FanOut,
}

/// The fan value of a weight tensor of shape `dims`: the size of the
/// input (resp. output) dimension times the receptive field size, the
/// product of all dimensions after the first two.
pub open spec fn fan_value(fan: FanInOut, dims: Seq<i64>) -> int {
    let receptive = dims_product(dims_after(dims, 2));
    match fan {
        FanInOut::FanIn => if dims.len() < 2 { 1 } else { dims[1] * receptive },
        FanInOut::FanOut => if dims.len() == 0 { 1 } else { dims[0] * receptive },
    }
}

/// What the computation of `fan_value` needs from machine integers.
pub open spec fn fan_fits(fan: FanInOut, dims: Seq<i64>) -> bool {
    &&& running_products_fit(dims_after(dims, 2))
    &&& i64::MIN <= fan_value(fan, dims) <= i64::MAX
}

/// Computes the product of `dims[from..]`, left to right.
fn product_from(dims: &[i64], from: usize) -> (p: i64)
    requires
        running_products_fit(dims_after(dims@, from as int)),
    ensures
        p == dims_product(dims_after(dims@, from as int)),
{
    if from >= dims.len() {
        return 1;
    }
    let ghost rest = dims@.skip(from as int);
    let mut p: i64 = 1;
    let mut i: usize = from;
    assert(rest.take(0) =~= Seq::<i64>::empty());
    while i < dims.len()
        invariant
            from <= i <= dims.len(),
            rest == dims@.skip(from as int),
            running_products_fit(rest),
            p == dims_product(rest.take(i - from)),
        decreases dims.len() - i,
    {
        let ghost k: int = i - from + 1;
        assert(rest.take(k).drop_last() =~= rest.take(k - 1));
        assert(rest.take(k).last() == dims@[i as int]);
        assert(i64::MIN <= dims_product(rest.take(k)) <= i64::MAX);
        p = p * dims[i];
        i = i + 1;
    }
    assert(rest.take(dims.len() - from) =~= rest);
    p
}

impl FanInOut {
    /// Compute the fan-in or fan-out value for a weight tensor of
    /// the specified dimensions.
    /// <https://github.com/pytorch/pytorch/blob/dbeacf11820e336e803bb719b7aaaf2125ae4d9c/torch/nn/init.py#L284>
    pub fn for_weight_dims(&self, dims: &[i64]) -> (fan: i64)
        requires
            fan_fits(*self, dims@),
        ensures
            fan == fan_value(*self, dims@),
    {
        let receptive_field_size: i64 = product_from(dims, 2);
        match self {
            FanInOut::FanIn => {
                if dims.len() < 2 {
                    1
                } else {
                    dims[1] * receptive_field_size
                }
            },
            FanInOut::FanOut => {
                if dims.len() == 0 {
                    1
                } else {
                    dims[0] * receptive_field_size
                }
            },
        }
    }
}

/// Whether a Kaiming initialization draws from a normal or a uniform
/// distribution.
#[derive(Debug, Copy, Clone, PartialEq, Eq, Structural)]
pub enum NormalOrUniform {
    Normal,
    Uniform,
}

/// How an orthogonal initialization draws a weight of a given shape: as a
/// `rows x cols` matrix, the first dimension against all the others,
/// transposed when it has fewer rows than columns so that the QR
/// factorization runs on a tall matrix, then reshaped back.
#[derive(Debug, Clone, Copy, PartialEq, Eq, Structural)]
pub struct OrthogonalShape {
    pub rows: i64,
    pub cols: i64,
    pub transposed: bool,
}

/// The message of an orthogonal initialization of a tensor of fewer than
/// two dimensions.
pub open spec fn orthogonal_rank_message() -> Seq<char> {
    "Only tensors with 2 or more dimensions are supported"@
}

/// The matrix on which an orthogonal initialization of a weight of shape
/// `dims` works.
pub fn orthogonal_shape(dims: &[i64]) -> (r: Result<OrthogonalShape, TchError>)
    requires
        running_products_fit(dims_after(dims@, 1)),
    ensures
        r is Ok <==> dims@.len() >= 2,
        r matches Ok(s) ==> {
            &&& s.rows == dims@[0]
            &&& s.cols == dims_product(dims@.skip(1))
            &&& s.transposed == (s.rows < s.cols)
        },
        r matches Err(e) ==> e is Shape && e.message() == orthogonal_rank_message(),
{
    if dims.len() < 2 {
        return Err(TchError::Shape(String::from_str("Only tensors with 2 or more dimensions are supported")));
    }
    let rows = dims[0];
    let cols: i64 = product_from(dims, 1);
    Ok(OrthogonalShape { rows, cols, transposed: rows < cols })
}

/// The product of the dimensions is the first one times the product of
/// the others.
proof fn lemma_dims_product_first(dims: Seq<i64>)
    requires
        dims.len() >= 1,
    ensures
        dims_product(dims) == dims[0] * dims_product(dims.skip(1)),
    decreases dims.len(),
{
    if dims.len() == 1 {
        assert(dims.drop_last() =~= Seq::<i64>::empty());
        assert(dims.skip(1) =~= Seq::<i64>::empty());
    } else {
        let init = dims.drop_last();
        lemma_dims_product_first(init);
        assert(dims.skip(1).drop_last() =~= init.skip(1));
        assert(dims.skip(1).last() == dims.last());
        let a = dims[0] as int;
        let b = dims_product(init.skip(1));
        let c = dims.last() as int;
        assert(a * b * c == a * (b * c)) by (nonlinear_arith);
    }
}

/// Law: the matrix an orthogonal initialization draws holds as many
/// elements as the weight, so that reshaping it back gives a weight of the
/// requested shape.
pub proof fn lemma_orthogonal_shape_numel(dims: Seq<i64>)
    requires
        dims.len() >= 2,
    ensures
        dims[0] * dims_product(dims.skip(1)) == dims_product(dims),
{
    lemma_dims_product_first(dims);
}

/// `dims` with its first two dimensions swapped.
pub open spec fn swap_first_two(dims: Seq<i64>) -> Seq<i64> {
    dims.update(0, dims[1]).update(1, dims[0])
}

/// Law: swapping the first two dimensions of a weight swaps its fan-in and
/// its fan-out, and the fan-in times the first dimension equals the
/// fan-out times the second (both are the number of elements). Where
/// `fan_fits` holds, these fans are what `for_weight_dims` returns.
pub proof fn lemma_fan_swap(dims: Seq<i64>)
    requires
        dims.len() >= 2,
    ensures
        fan_value(FanInOut::FanIn, swap_first_two(dims)) == fan_value(FanInOut::FanOut, dims),
        fan_value(FanInOut::FanOut, swap_first_two(dims)) == fan_value(FanInOut::FanIn, dims),
        fan_value(FanInOut::FanIn, dims) * dims[0] == fan_value(FanInOut::FanOut, dims) * dims[1],
{
    let d2 = swap_first_two(dims);
    assert(dims_after(d2, 2) =~= dims_after(dims, 2));
    let r = dims_product(dims_after(dims, 2));
    let a = dims[0] as int;
    let b = dims[1] as int;
    assert(b * r * a == a * r * b) by (nonlinear_arith);
}

} // verus!
