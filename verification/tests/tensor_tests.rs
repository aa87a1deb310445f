use tch::tensor::convert::{
    check_single_element, split_planes, split_rows, vec1_len, vec2_shape, vec3_shape,
};
use tch::tensor::iter::Iter;
use tch::tensor::ops::scalar_div_kind;
use tch::wrappers::tensor::{
    autocast_device_type_c, check_copy_data, check_copy_data_u8, check_data_size, check_dims,
    numel_of,
};
use tch::{Device, Kind, Reduction, TchError};

fn message(e: TchError) -> String {
    match e {
        TchError::Convert(m) | TchError::Kind(m) | TchError::Shape(m) | TchError::Torch(m) => m,
        TchError::NdArray(e) => format!("{e:?}"),
        TchError::UnknownKind(c) => format!("unknown kind {c}"),
    }
}

#[test]
fn size_n_accessors() {
    // Checks the rank check and its message on a shape; reading the shape
    // of a tensor runs in libtorch and is not checked here.
    // The shape of a 2x2 tensor.
    let shape = [2i64, 2];
    assert_eq!(vec2_shape(&shape).unwrap(), (2, 2));
    assert!(check_dims(&shape, 1).is_err());
    let err = message(check_dims(&shape, 3).unwrap_err());
    assert!(err.contains("three dims") && err.contains("[2, 2]"), "unexpected message: {err}");
}

#[test]
fn rank_messages() {
    assert_eq!(message(check_dims(&[4, -1, 0], 2).unwrap_err()), "expected two dims, got [4, -1, 0]");
    assert_eq!(message(check_dims(&[], 1).unwrap_err()), "expected one dim, got []");
    assert_eq!(message(check_dims(&[1], 7).unwrap_err()), "expected N dims, got [1]");
    assert!(check_dims(&[1, 2, 3, 4, 5, 6], 6).is_ok());
}

#[test]
fn flat_and_nested_conversions() {
    assert_eq!(vec1_len(&[5]).unwrap(), 5);
    match vec1_len(&[3, 1]) {
        Err(TchError::Convert(m)) => {
            assert_eq!(m, "Attempting to convert a Tensor with 2 dimensions to flat vector")
        }
        _ => panic!("a 2d tensor is no flat vector"),
    }
    assert_eq!(vec3_shape(&[2, 3, 4]).unwrap(), (2, 3, 4));
    assert!(vec3_shape(&[2, 3]).is_err());
    assert!(check_single_element(1).is_ok());
    assert_eq!(
        message(check_single_element(4).unwrap_err()),
        "expected exactly one element, got 4"
    );
}

#[test]
fn rows_and_planes() {
    let data: Vec<i64> = (1..=6).collect();
    assert_eq!(split_rows(&data, 2, 3), vec![vec![1, 2, 3], vec![4, 5, 6]]);
    assert_eq!(split_rows(&data, 3, 2), vec![vec![1, 2], vec![3, 4], vec![5, 6]]);
    let empty: Vec<i64> = vec![];
    assert_eq!(split_rows(&empty, 3, 0), vec![Vec::<i64>::new(); 3]);
    let data: Vec<u8> = (0..24).collect();
    let planes = split_planes(&data, 2, 3, 4);
    assert_eq!(planes.len(), 2);
    assert_eq!(planes[1][2], vec![20, 21, 22, 23]);
    assert_eq!(planes[0][1], vec![4, 5, 6, 7]);
    let flat: Vec<u8> = planes.into_iter().flatten().flatten().collect();
    assert_eq!(flat, data);
    assert_eq!(split_planes(&empty, 2, 0, 5), vec![Vec::<Vec<i64>>::new(); 2]);
}

#[test]
fn iter_yields_every_element_in_order() {
    let mut it = Iter::new(vec![1i64, -2, 3]);
    assert_eq!(it.len(), 3);
    assert_eq!(it.size_hint(), (3, Some(3)));
    assert_eq!(it.next(), Some(1));
    assert_eq!(it.size_hint(), (2, Some(2)));
    assert_eq!(it.next(), Some(-2));
    assert_eq!(it.next(), Some(3));
    assert_eq!(it.len(), 0);
    assert_eq!(it.next(), None);
    assert_eq!(it.next(), None);
    assert_eq!(it.size_hint(), (0, Some(0)));
}

#[test]
fn tensor_iter_bulk_read_matches() {
    // Checks the iterator over values already read; reading them from a
    // tensor runs in libtorch and is not checked here.
    // The elements of a [3] tensor, read in bulk.
    let shape = [3i64];
    let n = vec1_len(&shape).unwrap();
    let it = Iter::new(vec![1.5f64, -2.5, 3.0]);
    assert_eq!(it.len(), n);
    let mut it = it;
    let mut v = Vec::new();
    while let Some(x) = it.next() {
        v.push(x);
    }
    assert_eq!(v, vec![1.5, -2.5, 3.0]);
    // Multi-dimensional tensors still error out.
    assert!(vec1_len(&[3, 1]).is_err());
}

#[test]
fn scalar_div_float_tensor_is_exact() {
    // Checks the kind the scalar takes; the division runs in libtorch and is
    // not checked here.
    // A scalar divided by a Float tensor stays a Float: one f32 division.
    assert_eq!(scalar_div_kind(Kind::Float), Kind::Float);
}

#[test]
fn scalar_div_int_tensor_is_true_division() {
    // Checks the kind the scalar takes; the division runs in libtorch and is
    // not checked here.
    assert_eq!(scalar_div_kind(Kind::Int64), Kind::Float);
    assert_eq!(scalar_div_kind(Kind::Bool), Kind::Float);
    assert_eq!(scalar_div_kind(Kind::Uint8), Kind::Float);
}

#[test]
fn scalar_div_keeps_tensor_float_kind() {
    // Checks the kind the scalar takes; the division runs in libtorch and is
    // not checked here.
    assert_eq!(scalar_div_kind(Kind::Double), Kind::Double);
    assert_eq!(scalar_div_kind(Kind::Half), Kind::Half);
    assert_eq!(scalar_div_kind(Kind::ComplexFloat), Kind::ComplexFloat);
}

#[test]
fn from_data_size_roundtrip() {
    // Checks the buffer-size check only; building the tensor runs in libtorch
    // and is not checked here.
    // 24 bytes hold a [2, 3, 4] tensor of bytes.
    assert!(check_data_size(24, &[2, 3, 4], Kind::Uint8).is_ok());
    // 1000 f32 values fill 4000 bytes.
    assert!(check_data_size(4000, &[1000], Kind::Float).is_ok());
}

#[test]
fn data_size_rejections() {
    assert_eq!(
        message(check_data_size(23, &[2, 3, 4], Kind::Uint8).unwrap_err()),
        "23 bytes of data do not fit a tensor of shape [2, 3, 4] and kind Uint8"
    );
    assert_eq!(
        message(check_data_size(100, &[2, -3], Kind::Float).unwrap_err()),
        "100 bytes of data do not fit a tensor of shape [2, -3] and kind Float"
    );
    // The element count overflows before the zero dimension is reached.
    assert!(check_data_size(0, &[i64::MAX, i64::MAX, 0], Kind::Uint8).is_err());
    // The byte count overflows.
    assert!(check_data_size(usize::MAX, &[i64::MAX], Kind::Double).is_err());
    // Empty tensors need no bytes.
    assert!(check_data_size(0, &[0, 7], Kind::ComplexDouble).is_ok());
}

#[test]
fn copy_data_checks() {
    assert!(check_copy_data(Kind::Float, Kind::Float, 4, 4).is_ok());
    assert_eq!(
        message(check_copy_data(Kind::Float, Kind::Double, 4, 4).unwrap_err()),
        "incoherent elt kind, Ok(Float) != Double"
    );
    assert_eq!(message(check_copy_data(Kind::Int, Kind::Int, 3, 4).unwrap_err()), "slice len < 4");
    assert!(check_copy_data_u8(Kind::Int64, 16, 2).is_ok());
    assert_eq!(message(check_copy_data_u8(Kind::Int64, 15, 2).unwrap_err()), "slice len < 2");
}

#[test]
fn numel_of_shapes() {
    assert_eq!(numel_of(&[2, 3, 4]), 24);
    assert_eq!(numel_of(&[]), 1);
    assert_eq!(numel_of(&[5, 0]), 0);
}

#[test]
fn reduction_codes_follow_aten() {
    assert_eq!(Reduction::NoReduction.to_int(), 0);
    assert_eq!(Reduction::Mean.to_int(), 1);
    assert_eq!(Reduction::Sum.to_int(), 2);
    assert_eq!(Reduction::Other(7).to_int(), 7);
}

#[test]
fn autocast_device_codes() {
    assert_eq!(autocast_device_type_c(Device::Cpu), 0);
    assert_eq!(autocast_device_type_c(Device::Cuda(3)), 1);
    assert_eq!(autocast_device_type_c(Device::Mps), 2);
}

#[test]
fn kind_sizes_and_names() {
    assert_eq!(Kind::ComplexDouble.elt_size_in_bytes(), 16);
    assert_eq!(Kind::BFloat16.elt_size_in_bytes(), 2);
    assert_eq!(Kind::Bool.elt_size_in_bytes(), 1);
    assert_eq!(Kind::QInt32.name(), "QInt32");
}

#[test]
fn iter_after_k_calls() {
    let content = vec![4i64, 5, 6];
    for k in 0..6usize {
        let mut it = Iter::new(content.clone());
        for _ in 0..k {
            it.next();
        }
        let r = content.len() - k.min(content.len());
        assert_eq!(it.size_hint(), (r, Some(r)));
        let mut rest = Vec::new();
        while let Some(x) = it.next() {
            rest.push(x);
        }
        assert_eq!(rest, content[k.min(content.len())..].to_vec());
        assert_eq!(it.next(), None);
        assert_eq!(it.size_hint(), (0, Some(0)));
    }
}
