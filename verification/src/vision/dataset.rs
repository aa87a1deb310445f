//! Data augmentation for computer vision datasets: which transformations
//! run, and the ranges their random draws come from.
use vstd::prelude::*;

verus! {

/// One random transformation of a batch of NCHW images.
#[derive(Debug, Clone, Copy, PartialEq, Eq, Structural)]
pub enum Augmentation {
    /// Horizontal flip of a random subset of the images.
    Flip,
    /// Reflection padding by the given amount, then a random crop back to
    /// the size of the image.
    Crop(i64),
    /// Zeroing of a random square of the given side in every image.
    Cutout(i64),
}

/// The transformations `augmentation(t, flip, crop, cutout)` applies, in
/// order: a flip when `flip` is set, a crop when `crop` is positive, a
/// cutout when `cutout` is positive.
pub open spec fn augmentation_plan(flip: bool, crop: i64, cutout: i64) -> Seq<Augmentation> {
    (if flip { seq![Augmentation::Flip] } else { Seq::empty() }) + (if crop > 0 {
        seq![Augmentation::Crop(crop)]
    } else {
        Seq::empty()
    }) + (if cutout > 0 {
        seq![Augmentation::Cutout(cutout)]
    } else {
        Seq::empty()
    })
}

/// The transformations an augmentation applies, in order.
pub fn augmentation_steps(flip: bool, crop: i64, cutout: i64) -> (steps: Vec<Augmentation>)
    ensures
        steps@ == augmentation_plan(flip, crop, cutout),
{
    let mut steps: Vec<Augmentation> = Vec::new();
    if flip {
        steps.push(Augmentation::Flip);
    }
    if crop > 0 {
        steps.push(Augmentation::Crop(crop));
    }
    if cutout > 0 {
        steps.push(Augmentation::Cutout(cutout));
    }
    assert(steps@ =~= augmentation_plan(flip, crop, cutout));
    steps
}

/// The place of a transformation in the order of an augmentation: flips,
/// then crops, then cutouts.
pub open spec fn augmentation_rank(a: Augmentation) -> int {
    match a {
        Augmentation::Flip => 0,
        Augmentation::Crop(_) => 1,
        Augmentation::Cutout(_) => 2,
    }
}

/// Law: an augmentation flips exactly when `flip` is set, crops by `crop`
/// exactly when `crop` is positive and cuts out squares of side `cutout`
/// exactly when `cutout` is positive, whatever the other two arguments
/// are; it applies nothing else, each transformation at most once, in the
/// order flip, crop, cutout.
pub proof fn lemma_augmentation_plan(flip: bool, crop: i64, cutout: i64)
    ensures
        augmentation_plan(flip, crop, cutout).contains(Augmentation::Flip) <==> flip,
        augmentation_plan(flip, crop, cutout).contains(Augmentation::Crop(crop)) <==> crop > 0,
        augmentation_plan(flip, crop, cutout).contains(Augmentation::Cutout(cutout)) <==> cutout > 0,
        forall|i: int|
            0 <= i < augmentation_plan(flip, crop, cutout).len() ==> {
                let a = #[trigger] augmentation_plan(flip, crop, cutout)[i];
                a == Augmentation::Flip || a == Augmentation::Crop(crop) || a == Augmentation::Cutout(
                    cutout,
                )
            },
        forall|i: int, j: int|
            0 <= i < j < augmentation_plan(flip, crop, cutout).len() ==> augmentation_rank(
                #[trigger] augmentation_plan(flip, crop, cutout)[i],
            ) < augmentation_rank(#[trigger] augmentation_plan(flip, crop, cutout)[j]),
{
    let plan = augmentation_plan(flip, crop, cutout);
    let f: Seq<Augmentation> = if flip { seq![Augmentation::Flip] } else { Seq::empty() };
    let c: Seq<Augmentation> = if crop > 0 { seq![Augmentation::Crop(crop)] } else { Seq::empty() };
    let u: Seq<Augmentation> = if cutout > 0 {
        seq![Augmentation::Cutout(cutout)]
    } else {
        Seq::empty()
    };
    assert(plan == f + c + u);
    assert forall|i: int| 0 <= i < plan.len() implies {
        let a = #[trigger] plan[i];
        &&& a == Augmentation::Flip || a == Augmentation::Crop(crop) || a == Augmentation::Cutout(
            cutout,
        )
        &&& (a == Augmentation::Flip <==> i < f.len())
        &&& (a is Crop <==> f.len() <= i < f.len() + c.len())
        &&& (a is Cutout <==> f.len() + c.len() <= i)
    } by {
        if i < f.len() {
            assert(plan[i] == f[i]);
        } else if i < f.len() + c.len() {
            assert(plan[i] == c[i - f.len()]);
        } else {
            assert(plan[i] == u[i - f.len() - c.len()]);
        }
    }
    if flip {
        assert(plan[0] == Augmentation::Flip);
    }
    if crop > 0 {
        assert(plan[f.len() as int] == Augmentation::Crop(crop));
    }
    if cutout > 0 {
        assert(plan[(f.len() + c.len()) as int] == Augmentation::Cutout(cutout));
    }
}

/// The exclusive upper bound of the offsets a random crop of images padded
/// by `pad` draws: the padded image is `2 * pad` higher and wider, so the
/// valid crop offsets are `0..=2 * pad`.
pub fn crop_offset_bound(pad: i64) -> (b: i64)
    requires
        i64::MIN <= 2 * pad + 1 <= i64::MAX,
    ensures
        b == 2 * pad + 1,
{
    2 * pad + 1
}

/// Law: the offsets a crop draws are exactly the positions at which a
/// window of the image's size fits in the padded image.
pub proof fn lemma_crop_offsets_fit(pad: int, size: int, offset: int)
    requires
        0 <= pad,
        0 <= size,
        0 <= offset,
    ensures
        offset < 2 * pad + 1 <==> offset + size <= size + 2 * pad,
{
}

/// The exclusive upper bounds of the top-left corner of a random cutout of
/// side `sz` in images of shape `shape` (NCHW): the square must fit in the
/// image, so its corner ranges over `0..=h - sz` and `0..=w - sz`.
pub fn cutout_start_bounds(shape: &[i64], sz: i64) -> (b: (i64, i64))
    requires
        shape@.len() == 4,
        sz <= shape@[2],
        sz <= shape@[3],
        shape@[2] - sz + 1 <= i64::MAX,
        shape@[3] - sz + 1 <= i64::MAX,
    ensures
        b == ((shape@[2] - sz + 1) as i64, (shape@[3] - sz + 1) as i64),
{
    let (h, w) = (shape[2], shape[3]);
    (h - sz + 1, w - sz + 1)
}

/// Law: the corners a cutout draws are exactly the positions at which the
/// square fits in the image.
pub proof fn lemma_cutout_starts_fit(dim: int, sz: int, start: int)
    requires
        0 <= sz <= dim,
        0 <= start,
    ensures
        start < dim - sz + 1 <==> start + sz <= dim,
{
}

} // verus!
