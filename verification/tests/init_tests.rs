use tch::nn::init::{orthogonal_shape, FanInOut, OrthogonalShape};
use tch::TchError;

#[test]
fn fan_in_of_conv_weight() {
    // [c_out, c_in, kh, kw]: fan-in is c_in * kh * kw.
    assert_eq!(FanInOut::FanIn.for_weight_dims(&[16, 4, 3, 3]), 36);
    assert_eq!(FanInOut::FanOut.for_weight_dims(&[16, 4, 3, 3]), 144);
}

#[test]
fn fan_of_linear_weight() {
    // [out, in]: no receptive field.
    assert_eq!(FanInOut::FanIn.for_weight_dims(&[128, 256]), 256);
    assert_eq!(FanInOut::FanOut.for_weight_dims(&[128, 256]), 128);
}

#[test]
fn fan_of_small_ranks() {
    assert_eq!(FanInOut::FanIn.for_weight_dims(&[]), 1);
    assert_eq!(FanInOut::FanOut.for_weight_dims(&[]), 1);
    assert_eq!(FanInOut::FanIn.for_weight_dims(&[7]), 1);
    assert_eq!(FanInOut::FanOut.for_weight_dims(&[7]), 7);
}

#[test]
fn fan_with_zero_dimension() {
    assert_eq!(FanInOut::FanIn.for_weight_dims(&[3, 5, 0, 2]), 0);
}

#[test]
fn orthogonal_init_keeps_shape_and_orthogonality() {
    // Checks only the shape decision; the random draw, the QR factorization
    // and the orthogonality of the result run in libtorch and are not checked
    // here.
    // Conv-style rank-4 weight: flattened to [16, 36], which is wide and so
    // goes through the QR factorization transposed.
    assert_eq!(
        orthogonal_shape(&[16, 4, 3, 3]).unwrap(),
        OrthogonalShape { rows: 16, cols: 36, transposed: true }
    );
    // Tall matrix: factorized as it is.
    assert_eq!(
        orthogonal_shape(&[8, 4]).unwrap(),
        OrthogonalShape { rows: 8, cols: 4, transposed: false }
    );
}

#[test]
fn orthogonal_rejects_vectors() {
    match orthogonal_shape(&[5]) {
        Err(TchError::Shape(m)) => {
            assert_eq!(m, "Only tensors with 2 or more dimensions are supported")
        }
        _ => panic!("a rank-1 weight must be rejected"),
    }
    assert!(orthogonal_shape(&[]).is_err());
}

#[test]
fn orthogonal_matrix_holds_every_element() {
    for dims in [vec![16i64, 4, 3, 3], vec![8, 4], vec![2, 3, 5, 7, 1]] {
        let s = orthogonal_shape(&dims).unwrap();
        assert_eq!(s.rows * s.cols, dims.iter().product::<i64>());
    }
}

#[test]
fn swapping_first_two_dims_swaps_fans() {
    for dims in [vec![16i64, 8, 3, 3], vec![128, 256], vec![5, 7, 2]] {
        let mut d2 = dims.clone();
        d2.swap(0, 1);
        let fan_in = FanInOut::FanIn.for_weight_dims(&dims);
        let fan_out = FanInOut::FanOut.for_weight_dims(&dims);
        assert_eq!(FanInOut::FanIn.for_weight_dims(&d2), fan_out);
        assert_eq!(FanInOut::FanOut.for_weight_dims(&d2), fan_in);
        assert_eq!(fan_in * dims[0], fan_out * dims[1]);
    }
}
