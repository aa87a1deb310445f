//! Conversions between tensors and Rust values: the shape checks and the
//! reshaping of the flat data read from a tensor.
use crate::error::TchError;
use crate::format::{decimal, decimal_string};
use crate::wrappers::tensor::{check_dims, rank_message};
use vstd::prelude::*;

verus! {

/// The message of a conversion to a flat vector of a tensor that is not
/// one-dimensional.
pub open spec fn flat_vec_message(ndims: nat) -> Seq<char> {
    "Attempting to convert a Tensor with "@ + decimal(ndims) + " dimensions to flat vector"@
}

/// The length of the flat vector holding a tensor of shape `shape`: the
/// tensor must be one-dimensional.
pub fn vec1_len(shape: &[i64]) -> (r: Result<usize, TchError>)
    ensures
        r is Ok <==> shape@.len() == 1,
        r matches Ok(n) ==> n == shape@[0] as usize,
        r matches Err(e) ==> e is Convert && e.message() == flat_vec_message(shape@.len()),
{
    if shape.len() != 1 {
        let mut m = String::from_str("Attempting to convert a Tensor with ");
        let n = decimal_string(shape.len() as u64);
        m.append(n.as_str());
        m.append(" dimensions to flat vector");
        return Err(TchError::Convert(m));
    }
    Ok(shape[0] as usize)
}

/// The rows and columns of the nested vector holding a two-dimensional
/// tensor of shape `shape`.
pub fn vec2_shape(shape: &[i64]) -> (r: Result<(usize, usize), TchError>)
    ensures
        r is Ok <==> shape@.len() == 2,
        r matches Ok(d) ==> d == (shape@[0] as usize, shape@[1] as usize),
        r matches Err(e) ==> e is Shape && e.message() == rank_message(2, shape@),
{
    check_dims(shape, 2)?;
    Ok((shape[0] as usize, shape[1] as usize))
}

/// The three dimensions of the nested vector holding a three-dimensional
/// tensor of shape `shape`.
pub fn vec3_shape(shape: &[i64]) -> (r: Result<(usize, usize, usize), TchError>)
    ensures
        r is Ok <==> shape@.len() == 3,
        r matches Ok(d) ==> d == (shape@[0] as usize, shape@[1] as usize, shape@[2] as usize),
        r matches Err(e) ==> e is Shape && e.message() == rank_message(3, shape@),
{
    check_dims(shape, 3)?;
    Ok((shape[0] as usize, shape[1] as usize, shape[2] as usize))
}

/// The message of a conversion to a scalar of a tensor that does not hold
/// exactly one element.
pub open spec fn single_element_message(numel: nat) -> Seq<char> {
    "expected exactly one element, got "@ + decimal(numel)
}

/// Checks that a tensor of `numel` elements converts to a scalar.
pub fn check_single_element(numel: usize) -> (r: Result<(), TchError>)
    ensures
        r is Ok <==> numel == 1,
        r matches Err(e) ==> e is Convert && e.message() == single_element_message(numel as nat),
{
    if numel != 1 {
        let mut m = String::from_str("expected exactly one element, got ");
        let n = decimal_string(numel as u64);
        m.append(n.as_str());
        return Err(TchError::Convert(m));
    }
    Ok(())
}

proof fn lemma_row_bounds(i: int, rows: int, cols: int)
    by (nonlinear_arith)
    requires
        0 <= i < rows,
        cols >= 0,
    ensures
        (i + 1) * cols <= rows * cols,
        (i + 1) * cols == i * cols + cols,
        i * cols >= 0,
{
}

/// Splits row-major data into `rows` rows of `cols` elements.
pub fn split_rows<T: Copy>(data: &[T], rows: usize, cols: usize) -> (out: Vec<Vec<T>>)
    requires
        data@.len() == rows * cols,
    ensures
        out@.len() == rows,
        forall|i: int|
            0 <= i < rows ==> #[trigger] out@[i]@ == data@.subrange(i * cols, (i + 1) * cols),
{
    let mut out: Vec<Vec<T>> = Vec::new();
    let mut i: usize = 0;
    let mut base: usize = 0;
    while i < rows
        invariant
            data@.len() == rows * cols,
            data@.len() == data.len(),
            i <= rows,
            base == i * cols,
            out@.len() == i,
            forall|k: int|
                0 <= k < i ==> #[trigger] out@[k]@ == data@.subrange(k * cols, (k + 1) * cols),
        decreases rows - i,
    {
        proof {
            lemma_row_bounds(i as int, rows as int, cols as int);
        }
        let mut row: Vec<T> = Vec::new();
        let mut j: usize = 0;
        while j < cols
            invariant
                data@.len() == rows * cols,
                data@.len() == data.len(),
                base + cols <= data.len(),
                j <= cols,
                row@ == data@.subrange(base as int, base + j),
            decreases cols - j,
        {
            row.push(data[base + j]);
            j += 1;
            assert(row@ =~= data@.subrange(base as int, base + j));
        }
        out.push(row);
        i += 1;
        base += cols;
    }
    out
}

proof fn lemma_plane_bounds(i: int, j: int, s1: int, s2: int, s3: int)
    by (nonlinear_arith)
    requires
        0 <= i < s1,
        0 <= j < s2,
        s3 >= 0,
    ensures
        (i * s2 + j + 1) * s3 <= s1 * s2 * s3,
        (i * s2 + j + 1) * s3 == (i * s2 + j) * s3 + s3,
        (i * s2 + j) * s3 >= 0,
        i * s2 + j >= 0,
        (i * s2 + s2) * s3 == (i + 1) * s2 * s3,
        (i + 1) * s2 * s3 == i * s2 * s3 + s2 * s3,
{
}

/// Splits row-major data into `s1` planes of `s2` rows of `s3` elements.
pub fn split_planes<T: Copy>(data: &[T], s1: usize, s2: usize, s3: usize) -> (out: Vec<Vec<Vec<T>>>)
    requires
        data@.len() == s1 * s2 * s3,
    ensures
        out@.len() == s1,
        forall|i: int| 0 <= i < s1 ==> (#[trigger] out@[i])@.len() == s2,
        forall|i: int, j: int|
            0 <= i < s1 && 0 <= j < s2 ==> (#[trigger] out@[i]@[j])@ == data@.subrange(
                (i * s2 + j) * s3,
                (i * s2 + j + 1) * s3,
            ),
{
    let mut out: Vec<Vec<Vec<T>>> = Vec::new();
    let mut i: usize = 0;
    let mut base: usize = 0;
    while i < s1
        invariant
            data@.len() == s1 * s2 * s3,
            data@.len() == data.len(),
            i <= s1,
            base == i * s2 * s3,
            out@.len() == i,
            forall|k: int| 0 <= k < i ==> (#[trigger] out@[k])@.len() == s2,
            forall|k: int, l: int|
                0 <= k < i && 0 <= l < s2 ==> (#[trigger] out@[k]@[l])@ == data@.subrange(
                    (k * s2 + l) * s3,
                    (k * s2 + l + 1) * s3,
                ),
        decreases s1 - i,
    {
        let mut plane: Vec<Vec<T>> = Vec::new();
        let mut j: usize = 0;
        let mut row_base: usize = base;
        proof {
            assert(i * s2 * s3 == (i * s2 + 0) * s3) by (nonlinear_arith);
        }
        while j < s2
            invariant
                data@.len() == s1 * s2 * s3,
                data@.len() == data.len(),
                i < s1,
                j <= s2,
                row_base == (i * s2 + j) * s3,
                plane@.len() == j,
                forall|l: int|
                    0 <= l < j ==> (#[trigger] plane@[l])@ == data@.subrange(
                        (i * s2 + l) * s3,
                        (i * s2 + l + 1) * s3,
                    ),
            decreases s2 - j,
        {
            proof {
                lemma_plane_bounds(i as int, j as int, s1 as int, s2 as int, s3 as int);
            }
            let mut row: Vec<T> = Vec::new();
            let mut k: usize = 0;
            while k < s3
                invariant
                    data@.len() == s1 * s2 * s3,
                    data@.len() == data.len(),
                    row_base + s3 <= data.len(),
                    k <= s3,
                    row@ == data@.subrange(row_base as int, row_base + k),
                decreases s3 - k,
            {
                row.push(data[row_base + k]);
                k += 1;
                assert(row@ =~= data@.subrange(row_base as int, row_base + k));
            }
            plane.push(row);
            j += 1;
            row_base += s3;
        }
        proof {
            if s2 > 0 {
                lemma_plane_bounds(i as int, (s2 - 1) as int, s1 as int, s2 as int, s3 as int);
            } else {
                assert((i + 1) * s2 * s3 == i * s2 * s3) by (nonlinear_arith)
                    requires
                        s2 == 0,
                ;
            }
            assert((i + 1) * s2 * s3 == i * s2 * s3 + s2 * s3) by (nonlinear_arith);
            assert((i + 1) * s2 * s3 <= s1 * s2 * s3) by (nonlinear_arith)
                requires
                    i < s1,
            ;
        }
        out.push(plane);
        i += 1;
        base += s2 * s3;
    }
    out
}

/// Law: concatenating the rows of `split_rows` gives back the data.
pub proof fn lemma_split_rows_concat<T>(data: Seq<T>, out: Seq<Seq<T>>, rows: nat, cols: nat)
    requires
        data.len() == rows * cols,
        out.len() == rows,
        forall|i: int| 0 <= i < rows ==> #[trigger] out[i] == data.subrange(i * cols, (i + 1) * cols),
    ensures
        out.flatten() == data,
    decreases rows,
{
    if rows == 0 {
        assert(data =~= Seq::<T>::empty());
    } else {
        let rest = out.drop_first();
        let tail = data.subrange(cols as int, data.len() as int);
        assert(data.len() - cols == (rows - 1) * cols) by (nonlinear_arith)
            requires
                data.len() == rows * cols,
                rows >= 1,
        ;
        assert forall|i: int| 0 <= i < rows - 1 implies #[trigger] rest[i] == tail.subrange(
            i * cols,
            (i + 1) * cols,
        ) by {
            let a = i * cols;
            let b = (i + 1) * cols;
            let c = (i + 2) * cols;
            assert(b == a + cols && c == b + cols) by (nonlinear_arith)
                requires
                    a == i * cols,
                    b == (i + 1) * cols,
                    c == (i + 2) * cols,
            ;
            assert(c <= rows * cols) by (nonlinear_arith)
                requires
                    i < rows - 1,
                    c == (i + 2) * cols,
                    cols >= 0,
            ;
            assert(a >= 0) by (nonlinear_arith)
                requires
                    i >= 0,
                    a == i * cols,
                    cols >= 0,
            ;
            assert(out[i + 1] == data.subrange(b, c));
            assert(rest[i] =~= tail.subrange(a, b));
        }
        lemma_split_rows_concat(tail, rest, (rows - 1) as nat, cols);
        assert(out[0] == data.subrange(0, cols as int));
        assert(data =~= out[0] + tail);
    }
}

/// Law: concatenating the rows of the planes of `split_planes` gives back
/// the data.
pub proof fn lemma_split_planes_concat<T>(
    data: Seq<T>,
    out: Seq<Seq<Seq<T>>>,
    s1: nat,
    s2: nat,
    s3: nat,
)
    requires
        data.len() == s1 * s2 * s3,
        out.len() == s1,
        forall|i: int| 0 <= i < s1 ==> (#[trigger] out[i]).len() == s2,
        forall|i: int, j: int|
            0 <= i < s1 && 0 <= j < s2 ==> #[trigger] out[i][j] == data.subrange(
                (i * s2 + j) * s3,
                (i * s2 + j + 1) * s3,
            ),
    ensures
        out.map_values(|plane: Seq<Seq<T>>| plane.flatten()).flatten() == data,
{
    let planes = out.map_values(|plane: Seq<Seq<T>>| plane.flatten());
    let block = s2 * s3;
    assert(data.len() == s1 * block) by (nonlinear_arith)
        requires
            data.len() == s1 * s2 * s3,
            block == s2 * s3,
    ;
    assert forall|i: int| 0 <= i < s1 implies #[trigger] planes[i] == data.subrange(
        i * block,
        (i + 1) * block,
    ) by {
        let chunk = data.subrange(i * block, (i + 1) * block);
        assert(0 <= i * block && (i + 1) * block <= s1 * block && (i + 1) * block == i * block
            + block) by (nonlinear_arith)
            requires
                0 <= i < s1,
                block >= 0,
        ;
        assert forall|j: int| 0 <= j < s2 implies #[trigger] out[i][j] == chunk.subrange(
            j * s3,
            (j + 1) * s3,
        ) by {
            assert((i * s2 + j) * s3 == i * block + j * s3 && (i * s2 + j + 1) * s3 == i * block
                + (j + 1) * s3 && (j + 1) * s3 <= block && 0 <= j * s3 && (j + 1) * s3 == j * s3
                + s3) by (nonlinear_arith)
                requires
                    block == s2 * s3,
                    0 <= j < s2,
            ;
            let a = (i * s2 + j) * s3;
            let b = (i * s2 + j + 1) * s3;
            assert(out[i][j] == data.subrange(a, b));
            assert(data.subrange(a, b) =~= chunk.subrange(j * s3, (j + 1) * s3));
        }
        lemma_split_rows_concat(chunk, out[i], s2, s3);
    }
    lemma_split_rows_concat(data, planes, s1, block);
}

} // verus!
