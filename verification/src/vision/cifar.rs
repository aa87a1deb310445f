//! The CIFAR-10 dataset.
//!
//! The files can be downloaded from the following page:
//! <https://www.cs.toronto.edu/~kriz/cifar.html>
//! The binary version of the dataset is used.
use vstd::prelude::*;

verus! {

/// Image width.
pub const W: i64 = 32;

/// Image height.
pub const H: i64 = 32;

/// Color channels.
pub const C: i64 = 3;

/// Bytes of a record: one label byte, then the image's channel planes.
pub const BYTES_PER_IMAGE: i64 = W * H * C + 1;

/// Records in a batch file.
pub const SAMPLES_PER_FILE: i64 = 10000;

/// Bytes of the image of a record.
pub open spec fn image_bytes() -> int {
    (W * H * C) as int
}

/// The image bytes of a batch, without the label bytes: byte `p` of the
/// image of record `n` is byte `n * BYTES_PER_IMAGE + 1 + p` of the batch.
pub open spec fn batch_images(data: Seq<u8>) -> Seq<u8> {
    Seq::new(
        (SAMPLES_PER_FILE * image_bytes()) as nat,
        |i: int| data[(i / image_bytes()) * BYTES_PER_IMAGE + 1 + i % image_bytes()],
    )
}

/// The labels and the images of a CIFAR binary batch: each record is one
/// label byte followed by a `C x H x W` image stored channel plane by
/// channel plane, row by row. The images are returned one after the
/// other, in the same order, as an `N x C x H x W` array of bytes.
pub fn decode_samples(data: &[u8]) -> (r: (Vec<i64>, Vec<u8>))
    requires
        data@.len() == SAMPLES_PER_FILE * BYTES_PER_IMAGE,
    ensures
        r.0@.len() == SAMPLES_PER_FILE,
        forall|n: int| 0 <= n < SAMPLES_PER_FILE ==> #[trigger] r.0@[n] == data@[n * BYTES_PER_IMAGE] as i64,
        r.1@ == batch_images(data@),
{
    let mut labels: Vec<i64> = Vec::new();
    let mut images: Vec<u8> = Vec::new();
    let ghost expected = batch_images(data@);
    assert(BYTES_PER_IMAGE == 3073 && SAMPLES_PER_FILE == 10000 && image_bytes() == 3072);
    let image_len: usize = (BYTES_PER_IMAGE - 1) as usize;
    let mut n: usize = 0;
    let mut base: usize = 0;
    while n < SAMPLES_PER_FILE as usize
        invariant
            BYTES_PER_IMAGE == 3073 && SAMPLES_PER_FILE == 10000 && image_bytes() == 3072,
            data@.len() == SAMPLES_PER_FILE * BYTES_PER_IMAGE,
            data@.len() == data.len(),
            image_len == image_bytes(),
            expected == batch_images(data@),
            n <= SAMPLES_PER_FILE,
            base == n * BYTES_PER_IMAGE,
            labels@.len() == n,
            forall|k: int| 0 <= k < n ==> #[trigger] labels@[k] == data@[k * BYTES_PER_IMAGE] as i64,
            images@ == expected.take(n * image_bytes()),
        decreases SAMPLES_PER_FILE - n,
    {
        labels.push(data[base] as i64);
        let mut p: usize = 0;
        while p < image_len
            invariant
                BYTES_PER_IMAGE == 3073 && SAMPLES_PER_FILE == 10000 && image_bytes() == 3072,
                data@.len() == SAMPLES_PER_FILE * BYTES_PER_IMAGE,
                data@.len() == data.len(),
                image_len == image_bytes(),
                expected == batch_images(data@),
                n < SAMPLES_PER_FILE,
                base == n * BYTES_PER_IMAGE,
                p <= image_len,
                images@ == expected.take(n * image_bytes() + p),
            decreases image_len - p,
        {
            let ghost i = n * image_bytes() + p;
            assert(i / image_bytes() == n && i % image_bytes() == p) by (nonlinear_arith)
                requires
                    i == n * image_bytes() + p,
                    0 <= p < image_bytes(),
                    image_bytes() == 3072,
            ;
            assert(0 <= i < SAMPLES_PER_FILE * image_bytes());
            assert(expected[i] == data@[base + 1 + p]);
            images.push(data[base + 1 + p]);
            p += 1;
            assert(images@ =~= expected.take(n * image_bytes() + p));
        }
        n += 1;
        base += BYTES_PER_IMAGE as usize;
    }
    assert(expected.take(SAMPLES_PER_FILE * image_bytes()) =~= expected);
    (labels, images)
}

} // verus!
