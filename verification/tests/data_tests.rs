use tch::vision::cifar::{decode_samples, BYTES_PER_IMAGE, C, H, SAMPLES_PER_FILE, W};
use tch::vision::dataset::{augmentation_steps, crop_offset_bound, cutout_start_bounds, Augmentation};
use tch::wrappers::scalar::trim_float_zeros;

#[test]
fn decode_matches_binary_layout() {
    // Checks the decoded labels and image bytes; the scaling of the bytes to
    // floats in [0, 1] runs in libtorch and is not checked here.
    // Build a synthetic batch where every byte is a known function of its
    // record offset: label = n % 10, pixel byte = (n + pixel_index) % 256.
    let mut data = vec![0u8; (SAMPLES_PER_FILE * BYTES_PER_IMAGE) as usize];
    for n in 0..SAMPLES_PER_FILE {
        let base = (n * BYTES_PER_IMAGE) as usize;
        data[base] = (n % 10) as u8;
        for p in 0..(BYTES_PER_IMAGE - 1) as usize {
            data[base + 1 + p] = ((n as usize + p) % 256) as u8;
        }
    }
    let (labels, images) = decode_samples(&data);
    assert_eq!(labels.len(), SAMPLES_PER_FILE as usize);
    assert_eq!(images.len(), (SAMPLES_PER_FILE * C * H * W) as usize);

    for &n in &[0i64, 1, 4999, SAMPLES_PER_FILE - 1] {
        assert_eq!(labels[n as usize], n % 10);
        // The binary format stores channel-major planes: pixel index for
        // (c, h, w) is c*H*W + h*W + w.
        for &(c, h, w) in &[(0i64, 0i64, 0i64), (1, 2, 3), (2, 31, 31)] {
            let p = (c * H * W + h * W + w) as usize;
            let expected = ((n as usize + p) % 256) as f64 / 255.0;
            let i = ((n * C + c) * H + h) * W + w;
            let got = images[i as usize] as f64 / 255.0;
            assert!((got - expected).abs() < 1e-6, "sample {n} pixel {p}: {got} vs {expected}");
        }
    }
}

#[test]
fn augmentation_order() {
    assert_eq!(
        augmentation_steps(true, 4, 8),
        vec![Augmentation::Flip, Augmentation::Crop(4), Augmentation::Cutout(8)]
    );
    assert_eq!(augmentation_steps(false, 0, 3), vec![Augmentation::Cutout(3)]);
    assert!(augmentation_steps(false, -1, 0).is_empty());
}

#[test]
fn random_crop_samples_all_offsets() {
    // Checks only the range of the drawn offsets; the draw and the crop run
    // in libtorch and are not checked here.
    // A 3x3 image padded by 1 is 5x5: offsets 0, 1 and 2 along each axis,
    // the 9 crops.
    let bound = crop_offset_bound(1);
    assert_eq!(bound, 3);
    assert_eq!(bound * bound, 9);
}

#[test]
fn random_crop_pad_zero_is_identity() {
    // Checks only the range of the drawn offsets; the crop itself runs in
    // libtorch and is not checked here.
    // Without padding the only offset is 0: the crop is the image.
    assert_eq!(crop_offset_bound(0), 1);
}

#[test]
fn random_cutout_zeroes_one_square() {
    // Checks only the ranges of the drawn corners; the zeroing runs in
    // libtorch and is not checked here.
    // 3x3 squares in 8x8 images start at rows and columns 0..=5.
    assert_eq!(cutout_start_bounds(&[2, 3, 8, 8], 3), (6, 6));
    assert_eq!(cutout_start_bounds(&[1, 1, 4, 9], 4), (1, 6));
}

#[test]
fn trims_float_notations() {
    assert_eq!(trim_float_zeros("3.14159"), "3.14159");
    assert_eq!(trim_float_zeros("100.000"), "100");
    assert_eq!(trim_float_zeros("1.500"), "1.5");
    assert_eq!(trim_float_zeros("100"), "100");
    assert_eq!(trim_float_zeros("1.23457"), "1.23457");
    assert_eq!(trim_float_zeros("0.0001000"), "0.0001");
    assert_eq!(trim_float_zeros(""), "");
    assert_eq!(trim_float_zeros("5."), "5");
}
