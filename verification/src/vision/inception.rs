//! InceptionV3.
//!
//! The network is described layer by layer, with the variable names that
//! torchvision uses, so that pretrained weights load into it.
use crate::nn::layers::{AvgPool2d, BatchNorm2d, Conv2d, Dropout, Linear, MaxPool2d, Op, WeightInit};
use crate::nn::path::Path;
use vstd::prelude::*;

verus! {

/// A convolution without bias followed by a batch norm with epsilon
/// `0.001` and a ReLU; the layers are registered as `conv` and `bn`.
pub struct BasicConv2d {
    pub conv: Conv2d,
    pub bn: BatchNorm2d,
}

/// `b` is the conv + batch-norm + ReLU block at path `p`. torchvision
/// initializes every Inception conv weight with
/// `trunc_normal_(std=10^-std_pow10, a=-2, b=2)`.
pub open spec fn is_basic_conv(
    b: BasicConv2d,
    p: Seq<Seq<char>>,
    c_in: int,
    c_out: int,
    ksize: (int, int),
    pad: (int, int),
    stride: int,
    std_pow10: int,
) -> bool {
    &&& b.conv.path@ == p.push("conv"@)
    &&& b.conv.c_in == c_in
    &&& b.conv.c_out == c_out
    &&& b.conv.ksize.0 == ksize.0
    &&& b.conv.ksize.1 == ksize.1
    &&& b.conv.stride == stride
    &&& b.conv.padding.0 == pad.0
    &&& b.conv.padding.1 == pad.1
    &&& b.conv.groups == 1
    &&& !b.conv.bias
    &&& b.conv.ws_init == (WeightInit::TruncatedNormal { std_pow10: std_pow10 as u32 })
    &&& b.conv.bs_init is None
    &&& b.bn.path@ == p.push("bn"@)
    &&& b.bn.channels == c_out
    &&& b.bn.eps_pow10 == 3
}

/// `b` is the square-kernel block `conv_bn(p / name, ...)`.
pub open spec fn is_conv_bn(
    b: BasicConv2d,
    p: Seq<Seq<char>>,
    name: Seq<char>,
    c_in: int,
    c_out: int,
    ksize: int,
    pad: int,
    stride: int,
) -> bool {
    is_basic_conv(b, p.push(name), c_in, c_out, (ksize, ksize), (pad, pad), stride, 1)
}

/// `b` is the rectangular-kernel block `conv_bn2(p / name, ...)`.
pub open spec fn is_conv_bn2(
    b: BasicConv2d,
    p: Seq<Seq<char>>,
    name: Seq<char>,
    c_in: int,
    c_out: int,
    ksize: (int, int),
    pad: (int, int),
) -> bool {
    is_basic_conv(b, p.push(name), c_in, c_out, ksize, pad, 1, 1)
}

fn conv_bn_std(
    p: &Path,
    c_in: i64,
    c_out: i64,
    ksize: i64,
    pad: i64,
    stride: i64,
    std_pow10: u32,
) -> (b: BasicConv2d)
    ensures
        is_basic_conv(
            b,
            p@,
            c_in as int,
            c_out as int,
            (ksize as int, ksize as int),
            (pad as int, pad as int),
            stride as int,
            std_pow10 as int,
        ),
{
    proof {
        reveal_strlit("conv");
        reveal_strlit("bn");
    }
    let conv = Conv2d {
        path: p.sub("conv"),
        c_in,
        c_out,
        ksize: (ksize, ksize),
        stride,
        padding: (pad, pad),
        groups: 1,
        bias: false,
        ws_init: WeightInit::TruncatedNormal { std_pow10 },
        bs_init: None,
    };
    let bn = BatchNorm2d { path: p.sub("bn"), channels: c_out, eps_pow10: 3 };
    BasicConv2d { conv, bn }
}

fn conv_bn(p: &Path, name: &str, c_in: i64, c_out: i64, ksize: i64, pad: i64, stride: i64) -> (b:
    BasicConv2d)
    requires
        !name@.contains('.'),
    ensures
        is_conv_bn(b, p@, name@, c_in as int, c_out as int, ksize as int, pad as int, stride as int),
{
    conv_bn_std(&p.sub(name), c_in, c_out, ksize, pad, stride, 1)
}

fn conv_bn2(
    p: &Path,
    name: &str,
    c_in: i64,
    c_out: i64,
    ksize: (i64, i64),
    pad: (i64, i64),
) -> (b: BasicConv2d)
    requires
        !name@.contains('.'),
    ensures
        is_conv_bn2(
            b,
            p@,
            name@,
            c_in as int,
            c_out as int,
            (ksize.0 as int, ksize.1 as int),
            (pad.0 as int, pad.1 as int),
        ),
{
    proof {
        reveal_strlit("conv");
        reveal_strlit("bn");
    }
    let q = p.sub(name);
    let conv = Conv2d {
        path: q.sub("conv"),
        c_in,
        c_out,
        ksize,
        stride: 1,
        padding: pad,
        groups: 1,
        bias: false,
        ws_init: WeightInit::TruncatedNormal { std_pow10: 1 },
        bs_init: None,
    };
    let bn = BatchNorm2d { path: q.sub("bn"), channels: c_out, eps_pow10: 3 };
    BasicConv2d { conv, bn }
}

/// An output that an Inception block concatenates along the channels.
#[derive(Debug, Clone, Copy, PartialEq, Eq)]
pub enum BranchOutput {
    /// The output of `branch1x1`.
    Branch1x1,
    /// The output of `branch5x5_2`, fed by `branch5x5_1`.
    Branch5x5,
    /// The output of the last convolution of the double 3x3 chain:
    /// `branch3x3dbl_3`, fed by `branch3x3dbl_2` and `branch3x3dbl_1`.
    Branch3x3Dbl,
    /// The block's input through `pool`, then `branch_pool`.
    BranchPool,
    /// The output of the strided 3x3 branch: `branch3x3` in block B,
    /// `branch3x3_2` fed by `branch3x3_1` in block D.
    Branch3x3,
    /// The output of `branch7x7_3`, fed by `branch7x7_2` and `branch7x7_1`.
    Branch7x7,
    /// The output of `branch7x7dbl_5`, fed by the chain from
    /// `branch7x7dbl_1`.
    Branch7x7Dbl,
    /// The output of `branch7x7x3_4`, fed by the chain from
    /// `branch7x7x3_1`.
    Branch7x7x3,
    /// The output of `branch3x3_2a` applied to that of `branch3x3_1`.
    Branch3x3A,
    /// The output of `branch3x3_2b` applied to that of `branch3x3_1`.
    Branch3x3B,
    /// The output of `branch3x3dbl_3a` applied to that of `branch3x3dbl_2`.
    Branch3x3DblA,
    /// The output of `branch3x3dbl_3b` applied to that of `branch3x3dbl_2`.
    Branch3x3DblB,
    /// The block's input through `pool`.
    MaxPool,
}

/// The average pooling of the pooling branches: 3x3 windows, stride 1,
/// padding 1, padded positions counted, every sum divided by 9.
pub open spec fn branch_avg_pool() -> AvgPool2d {
    AvgPool2d {
        ksize: 3,
        stride: 1,
        padding: 1,
        ceil_mode: false,
        count_include_pad: true,
        divisor_override: Some(9),
    }
}

fn branch_avg_pool_value() -> (a: AvgPool2d)
    ensures
        a == branch_avg_pool(),
{
    AvgPool2d {
        ksize: 3,
        stride: 1,
        padding: 1,
        ceil_mode: false,
        count_include_pad: true,
        divisor_override: Some(9),
    }
}

/// The max pooling of the tower and of the grid reductions: 3x3 windows,
/// stride 2, no padding, the output size rounded down.
pub open spec fn reduction_max_pool() -> MaxPool2d {
    MaxPool2d { ksize: 3, stride: 2, padding: 0, ceil_mode: false }
}

fn reduction_max_pool_value() -> (m: MaxPool2d)
    ensures
        m == reduction_max_pool(),
{
    MaxPool2d { ksize: 3, stride: 2, padding: 0, ceil_mode: false }
}

fn outputs3(a: BranchOutput, b: BranchOutput, c: BranchOutput) -> (v: Vec<BranchOutput>)
    ensures
        v@ == seq![a, b, c],
{
    let mut v: Vec<BranchOutput> = Vec::new();
    v.push(a);
    v.push(b);
    v.push(c);
    assert(v@ =~= seq![a, b, c]);
    v
}

fn outputs4(a: BranchOutput, b: BranchOutput, c: BranchOutput, d: BranchOutput) -> (v: Vec<
    BranchOutput,
>)
    ensures
        v@ == seq![a, b, c, d],
{
    let mut v = outputs3(a, b, c);
    v.push(d);
    assert(v@ =~= seq![a, b, c, d]);
    v
}

/// Inception block A: 1x1, 5x5 and double 3x3 branches and a 3x3 average
/// pooling branch, concatenated along the channels in the order of
/// `concat`.
pub struct InceptionA {
    pub branch1x1: BasicConv2d,
    pub branch5x5_1: BasicConv2d,
    pub branch5x5_2: BasicConv2d,
    pub branch3x3dbl_1: BasicConv2d,
    pub branch3x3dbl_2: BasicConv2d,
    pub branch3x3dbl_3: BasicConv2d,
    pub pool: AvgPool2d,
    pub branch_pool: BasicConv2d,
    pub concat: Vec<BranchOutput>,
}

pub open spec fn is_inception_a(a: InceptionA, p: Seq<Seq<char>>, c_in: int, c_pool: int) -> bool {
    &&& is_conv_bn(a.branch1x1, p, "branch1x1"@, c_in, 64, 1, 0, 1)
    &&& is_conv_bn(a.branch5x5_1, p, "branch5x5_1"@, c_in, 48, 1, 0, 1)
    &&& is_conv_bn(a.branch5x5_2, p, "branch5x5_2"@, 48, 64, 5, 2, 1)
    &&& is_conv_bn(a.branch3x3dbl_1, p, "branch3x3dbl_1"@, c_in, 64, 1, 0, 1)
    &&& is_conv_bn(a.branch3x3dbl_2, p, "branch3x3dbl_2"@, 64, 96, 3, 1, 1)
    &&& is_conv_bn(a.branch3x3dbl_3, p, "branch3x3dbl_3"@, 96, 96, 3, 1, 1)
    &&& a.pool == branch_avg_pool()
    &&& is_conv_bn(a.branch_pool, p, "branch_pool"@, c_in, c_pool, 1, 0, 1)
    &&& a.concat@ == seq![
        BranchOutput::Branch1x1,
        BranchOutput::Branch5x5,
        BranchOutput::Branch3x3Dbl,
        BranchOutput::BranchPool,
    ]
}

fn inception_a(p: &Path, c_in: i64, c_pool: i64) -> (a: InceptionA)
    ensures
        is_inception_a(a, p@, c_in as int, c_pool as int),
{
    proof {
        reveal_strlit("branch1x1");
        reveal_strlit("branch5x5_1");
        reveal_strlit("branch5x5_2");
        reveal_strlit("branch3x3dbl_1");
        reveal_strlit("branch3x3dbl_2");
        reveal_strlit("branch3x3dbl_3");
        reveal_strlit("branch_pool");
    }
    InceptionA {
        branch1x1: conv_bn(p, "branch1x1", c_in, 64, 1, 0, 1),
        branch5x5_1: conv_bn(p, "branch5x5_1", c_in, 48, 1, 0, 1),
        branch5x5_2: conv_bn(p, "branch5x5_2", 48, 64, 5, 2, 1),
        branch3x3dbl_1: conv_bn(p, "branch3x3dbl_1", c_in, 64, 1, 0, 1),
        branch3x3dbl_2: conv_bn(p, "branch3x3dbl_2", 64, 96, 3, 1, 1),
        branch3x3dbl_3: conv_bn(p, "branch3x3dbl_3", 96, 96, 3, 1, 1),
        pool: branch_avg_pool_value(),
        branch_pool: conv_bn(p, "branch_pool", c_in, c_pool, 1, 0, 1),
        concat: outputs4(
            BranchOutput::Branch1x1,
            BranchOutput::Branch5x5,
            BranchOutput::Branch3x3Dbl,
            BranchOutput::BranchPool,
        ),
    }
}

/// Inception block B (grid reduction): a strided 3x3 branch, a strided
/// double 3x3 branch and a max pooling of the input, concatenated in the
/// order of `concat`.
pub struct InceptionB {
    pub branch3x3: BasicConv2d,
    pub branch3x3dbl_1: BasicConv2d,
    pub branch3x3dbl_2: BasicConv2d,
    pub branch3x3dbl_3: BasicConv2d,
    pub pool: MaxPool2d,
    pub concat: Vec<BranchOutput>,
}

pub open spec fn is_inception_b(b: InceptionB, p: Seq<Seq<char>>, c_in: int) -> bool {
    &&& is_conv_bn(b.branch3x3, p, "branch3x3"@, c_in, 384, 3, 0, 2)
    &&& is_conv_bn(b.branch3x3dbl_1, p, "branch3x3dbl_1"@, c_in, 64, 1, 0, 1)
    &&& is_conv_bn(b.branch3x3dbl_2, p, "branch3x3dbl_2"@, 64, 96, 3, 1, 1)
    &&& is_conv_bn(b.branch3x3dbl_3, p, "branch3x3dbl_3"@, 96, 96, 3, 0, 2)
    &&& b.pool == reduction_max_pool()
    &&& b.concat@ == seq![
        BranchOutput::Branch3x3,
        BranchOutput::Branch3x3Dbl,
        BranchOutput::MaxPool,
    ]
}

fn inception_b(p: &Path, c_in: i64) -> (b: InceptionB)
    ensures
        is_inception_b(b, p@, c_in as int),
{
    proof {
        reveal_strlit("branch3x3");
        reveal_strlit("branch3x3dbl_1");
        reveal_strlit("branch3x3dbl_2");
        reveal_strlit("branch3x3dbl_3");
    }
    InceptionB {
        branch3x3: conv_bn(p, "branch3x3", c_in, 384, 3, 0, 2),
        branch3x3dbl_1: conv_bn(p, "branch3x3dbl_1", c_in, 64, 1, 0, 1),
        branch3x3dbl_2: conv_bn(p, "branch3x3dbl_2", 64, 96, 3, 1, 1),
        branch3x3dbl_3: conv_bn(p, "branch3x3dbl_3", 96, 96, 3, 0, 2),
        pool: reduction_max_pool_value(),
        concat: outputs3(
            BranchOutput::Branch3x3,
            BranchOutput::Branch3x3Dbl,
            BranchOutput::MaxPool,
        ),
    }
}

/// Inception block C: 1x1, factorized 7x7 and double factorized 7x7
/// branches and an average pooling branch, concatenated in the order of
/// `concat`.
pub struct InceptionC {
    pub branch1x1: BasicConv2d,
    pub branch7x7_1: BasicConv2d,
    pub branch7x7_2: BasicConv2d,
    pub branch7x7_3: BasicConv2d,
    pub branch7x7dbl_1: BasicConv2d,
    pub branch7x7dbl_2: BasicConv2d,
    pub branch7x7dbl_3: BasicConv2d,
    pub branch7x7dbl_4: BasicConv2d,
    pub branch7x7dbl_5: BasicConv2d,
    pub pool: AvgPool2d,
    pub branch_pool: BasicConv2d,
    pub concat: Vec<BranchOutput>,
}

pub open spec fn is_inception_c(c: InceptionC, p: Seq<Seq<char>>, c_in: int, c7: int) -> bool {
    &&& is_conv_bn(c.branch1x1, p, "branch1x1"@, c_in, 192, 1, 0, 1)
    &&& is_conv_bn(c.branch7x7_1, p, "branch7x7_1"@, c_in, c7, 1, 0, 1)
    &&& is_conv_bn2(c.branch7x7_2, p, "branch7x7_2"@, c7, c7, (1, 7), (0, 3))
    &&& is_conv_bn2(c.branch7x7_3, p, "branch7x7_3"@, c7, 192, (7, 1), (3, 0))
    &&& is_conv_bn(c.branch7x7dbl_1, p, "branch7x7dbl_1"@, c_in, c7, 1, 0, 1)
    &&& is_conv_bn2(c.branch7x7dbl_2, p, "branch7x7dbl_2"@, c7, c7, (7, 1), (3, 0))
    &&& is_conv_bn2(c.branch7x7dbl_3, p, "branch7x7dbl_3"@, c7, c7, (1, 7), (0, 3))
    &&& is_conv_bn2(c.branch7x7dbl_4, p, "branch7x7dbl_4"@, c7, c7, (7, 1), (3, 0))
    &&& is_conv_bn2(c.branch7x7dbl_5, p, "branch7x7dbl_5"@, c7, 192, (1, 7), (0, 3))
    &&& c.pool == branch_avg_pool()
    &&& is_conv_bn(c.branch_pool, p, "branch_pool"@, c_in, 192, 1, 0, 1)
    &&& c.concat@ == seq![
        BranchOutput::Branch1x1,
        BranchOutput::Branch7x7,
        BranchOutput::Branch7x7Dbl,
        BranchOutput::BranchPool,
    ]
}

fn inception_c(p: &Path, c_in: i64, c7: i64) -> (c: InceptionC)
    ensures
        is_inception_c(c, p@, c_in as int, c7 as int),
{
    proof {
        reveal_strlit("branch1x1");
        reveal_strlit("branch7x7_1");
        reveal_strlit("branch7x7_2");
        reveal_strlit("branch7x7_3");
        reveal_strlit("branch7x7dbl_1");
        reveal_strlit("branch7x7dbl_2");
        reveal_strlit("branch7x7dbl_3");
        reveal_strlit("branch7x7dbl_4");
        reveal_strlit("branch7x7dbl_5");
        reveal_strlit("branch_pool");
    }
    InceptionC {
        branch1x1: conv_bn(p, "branch1x1", c_in, 192, 1, 0, 1),
        branch7x7_1: conv_bn(p, "branch7x7_1", c_in, c7, 1, 0, 1),
        branch7x7_2: conv_bn2(p, "branch7x7_2", c7, c7, (1, 7), (0, 3)),
        branch7x7_3: conv_bn2(p, "branch7x7_3", c7, 192, (7, 1), (3, 0)),
        branch7x7dbl_1: conv_bn(p, "branch7x7dbl_1", c_in, c7, 1, 0, 1),
        branch7x7dbl_2: conv_bn2(p, "branch7x7dbl_2", c7, c7, (7, 1), (3, 0)),
        branch7x7dbl_3: conv_bn2(p, "branch7x7dbl_3", c7, c7, (1, 7), (0, 3)),
        branch7x7dbl_4: conv_bn2(p, "branch7x7dbl_4", c7, c7, (7, 1), (3, 0)),
        branch7x7dbl_5: conv_bn2(p, "branch7x7dbl_5", c7, 192, (1, 7), (0, 3)),
        pool: branch_avg_pool_value(),
        branch_pool: conv_bn(p, "branch_pool", c_in, 192, 1, 0, 1),
        concat: outputs4(
            BranchOutput::Branch1x1,
            BranchOutput::Branch7x7,
            BranchOutput::Branch7x7Dbl,
            BranchOutput::BranchPool,
        ),
    }
}

/// Inception block D (grid reduction): a strided 3x3 branch, a factorized
/// 7x7 then strided 3x3 branch and a max pooling of the input,
/// concatenated in the order of `concat`.
pub struct InceptionD {
    pub branch3x3_1: BasicConv2d,
    pub branch3x3_2: BasicConv2d,
    pub branch7x7x3_1: BasicConv2d,
    pub branch7x7x3_2: BasicConv2d,
    pub branch7x7x3_3: BasicConv2d,
    pub branch7x7x3_4: BasicConv2d,
    pub pool: MaxPool2d,
    pub concat: Vec<BranchOutput>,
}

pub open spec fn is_inception_d(d: InceptionD, p: Seq<Seq<char>>, c_in: int) -> bool {
    &&& is_conv_bn(d.branch3x3_1, p, "branch3x3_1"@, c_in, 192, 1, 0, 1)
    &&& is_conv_bn(d.branch3x3_2, p, "branch3x3_2"@, 192, 320, 3, 0, 2)
    &&& is_conv_bn(d.branch7x7x3_1, p, "branch7x7x3_1"@, c_in, 192, 1, 0, 1)
    &&& is_conv_bn2(d.branch7x7x3_2, p, "branch7x7x3_2"@, 192, 192, (1, 7), (0, 3))
    &&& is_conv_bn2(d.branch7x7x3_3, p, "branch7x7x3_3"@, 192, 192, (7, 1), (3, 0))
    &&& is_conv_bn(d.branch7x7x3_4, p, "branch7x7x3_4"@, 192, 192, 3, 0, 2)
    &&& d.pool == reduction_max_pool()
    &&& d.concat@ == seq![
        BranchOutput::Branch3x3,
        BranchOutput::Branch7x7x3,
        BranchOutput::MaxPool,
    ]
}

fn inception_d(p: &Path, c_in: i64) -> (d: InceptionD)
    ensures
        is_inception_d(d, p@, c_in as int),
{
    proof {
        reveal_strlit("branch3x3_1");
        reveal_strlit("branch3x3_2");
        reveal_strlit("branch7x7x3_1");
        reveal_strlit("branch7x7x3_2");
        reveal_strlit("branch7x7x3_3");
        reveal_strlit("branch7x7x3_4");
    }
    InceptionD {
        branch3x3_1: conv_bn(p, "branch3x3_1", c_in, 192, 1, 0, 1),
        branch3x3_2: conv_bn(p, "branch3x3_2", 192, 320, 3, 0, 2),
        branch7x7x3_1: conv_bn(p, "branch7x7x3_1", c_in, 192, 1, 0, 1),
        branch7x7x3_2: conv_bn2(p, "branch7x7x3_2", 192, 192, (1, 7), (0, 3)),
        branch7x7x3_3: conv_bn2(p, "branch7x7x3_3", 192, 192, (7, 1), (3, 0)),
        branch7x7x3_4: conv_bn(p, "branch7x7x3_4", 192, 192, 3, 0, 2),
        pool: reduction_max_pool_value(),
        concat: outputs3(
            BranchOutput::Branch3x3,
            BranchOutput::Branch7x7x3,
            BranchOutput::MaxPool,
        ),
    }
}

/// Inception block E: a 1x1 branch, a 3x3 branch split into 1x3 and 3x1
/// halves, a double 3x3 branch split likewise, and an average pooling
/// branch, all concatenated in the order of `concat`.
pub struct InceptionE {
    pub branch1x1: BasicConv2d,
    pub branch3x3_1: BasicConv2d,
    pub branch3x3_2a: BasicConv2d,
    pub branch3x3_2b: BasicConv2d,
    pub branch3x3dbl_1: BasicConv2d,
    pub branch3x3dbl_2: BasicConv2d,
    pub branch3x3dbl_3a: BasicConv2d,
    pub branch3x3dbl_3b: BasicConv2d,
    pub pool: AvgPool2d,
    pub branch_pool: BasicConv2d,
    pub concat: Vec<BranchOutput>,
}

pub open spec fn is_inception_e(e: InceptionE, p: Seq<Seq<char>>, c_in: int) -> bool {
    &&& is_conv_bn(e.branch1x1, p, "branch1x1"@, c_in, 320, 1, 0, 1)
    &&& is_conv_bn(e.branch3x3_1, p, "branch3x3_1"@, c_in, 384, 1, 0, 1)
    &&& is_conv_bn2(e.branch3x3_2a, p, "branch3x3_2a"@, 384, 384, (1, 3), (0, 1))
    &&& is_conv_bn2(e.branch3x3_2b, p, "branch3x3_2b"@, 384, 384, (3, 1), (1, 0))
    &&& is_conv_bn(e.branch3x3dbl_1, p, "branch3x3dbl_1"@, c_in, 448, 1, 0, 1)
    &&& is_conv_bn(e.branch3x3dbl_2, p, "branch3x3dbl_2"@, 448, 384, 3, 1, 1)
    &&& is_conv_bn2(e.branch3x3dbl_3a, p, "branch3x3dbl_3a"@, 384, 384, (1, 3), (0, 1))
    &&& is_conv_bn2(e.branch3x3dbl_3b, p, "branch3x3dbl_3b"@, 384, 384, (3, 1), (1, 0))
    &&& e.pool == branch_avg_pool()
    &&& is_conv_bn(e.branch_pool, p, "branch_pool"@, c_in, 192, 1, 0, 1)
    &&& e.concat@ == seq![
        BranchOutput::Branch1x1,
        BranchOutput::Branch3x3A,
        BranchOutput::Branch3x3B,
        BranchOutput::Branch3x3DblA,
        BranchOutput::Branch3x3DblB,
        BranchOutput::BranchPool,
    ]
}

fn e_outputs() -> (v: Vec<BranchOutput>)
    ensures
        v@ == seq![
            BranchOutput::Branch1x1,
            BranchOutput::Branch3x3A,
            BranchOutput::Branch3x3B,
            BranchOutput::Branch3x3DblA,
            BranchOutput::Branch3x3DblB,
            BranchOutput::BranchPool,
        ],
{
    let mut v = outputs4(
        BranchOutput::Branch1x1,
        BranchOutput::Branch3x3A,
        BranchOutput::Branch3x3B,
        BranchOutput::Branch3x3DblA,
    );
    v.push(BranchOutput::Branch3x3DblB);
    v.push(BranchOutput::BranchPool);
    assert(v@ =~= seq![
        BranchOutput::Branch1x1,
        BranchOutput::Branch3x3A,
        BranchOutput::Branch3x3B,
        BranchOutput::Branch3x3DblA,
        BranchOutput::Branch3x3DblB,
        BranchOutput::BranchPool,
    ]);
    v
}

fn inception_e(p: &Path, c_in: i64) -> (e: InceptionE)
    ensures
        is_inception_e(e, p@, c_in as int),
{
    proof {
        reveal_strlit("branch1x1");
        reveal_strlit("branch3x3_1");
        reveal_strlit("branch3x3_2a");
        reveal_strlit("branch3x3_2b");
        reveal_strlit("branch3x3dbl_1");
        reveal_strlit("branch3x3dbl_2");
        reveal_strlit("branch3x3dbl_3a");
        reveal_strlit("branch3x3dbl_3b");
        reveal_strlit("branch_pool");
    }
    InceptionE {
        branch1x1: conv_bn(p, "branch1x1", c_in, 320, 1, 0, 1),
        branch3x3_1: conv_bn(p, "branch3x3_1", c_in, 384, 1, 0, 1),
        branch3x3_2a: conv_bn2(p, "branch3x3_2a", 384, 384, (1, 3), (0, 1)),
        branch3x3_2b: conv_bn2(p, "branch3x3_2b", 384, 384, (3, 1), (1, 0)),
        branch3x3dbl_1: conv_bn(p, "branch3x3dbl_1", c_in, 448, 1, 0, 1),
        branch3x3dbl_2: conv_bn(p, "branch3x3dbl_2", 448, 384, 3, 1, 1),
        branch3x3dbl_3a: conv_bn2(p, "branch3x3dbl_3a", 384, 384, (1, 3), (0, 1)),
        branch3x3dbl_3b: conv_bn2(p, "branch3x3dbl_3b", 384, 384, (3, 1), (1, 0)),
        pool: branch_avg_pool_value(),
        branch_pool: conv_bn(p, "branch_pool", c_in, 192, 1, 0, 1),
        concat: e_outputs(),
    }
}

/// The auxiliary classifier hanging off the middle of the network
/// (torchvision's `InceptionAux`), used during training as
/// `loss = main_loss + 0.4 * aux_loss`.
///
/// Forward pass: `pool`, `conv0`, `conv1`, the `before_fc` steps, `fc`.
pub struct InceptionAux {
    pub pool: AvgPool2d,
    pub conv0: BasicConv2d,
    pub conv1: BasicConv2d,
    pub before_fc: Vec<Op>,
    pub fc: Linear,
}

/// The pooling that opens the auxiliary classifier: 5x5 windows with
/// stride 3, no padding, every sum divided by 25.
pub open spec fn aux_avg_pool() -> AvgPool2d {
    AvgPool2d {
        ksize: 5,
        stride: 3,
        padding: 0,
        ceil_mode: false,
        count_include_pad: true,
        divisor_override: Some(25),
    }
}

fn pool_then_flatten() -> (v: Vec<Op>)
    ensures
        v@ == seq![Op::GlobalAvgPool, Op::Flatten],
{
    let mut v: Vec<Op> = Vec::new();
    v.push(Op::GlobalAvgPool);
    v.push(Op::Flatten);
    assert(v@ =~= seq![Op::GlobalAvgPool, Op::Flatten]);
    v
}

pub open spec fn is_inception_aux(x: InceptionAux, p: Seq<Seq<char>>, nclasses: int) -> bool {
    &&& x.pool == aux_avg_pool()
    &&& x.before_fc@ == seq![Op::GlobalAvgPool, Op::Flatten]
    &&& is_conv_bn(x.conv0, p, "conv0"@, 768, 128, 1, 0, 1)
    &&& is_basic_conv(x.conv1, p.push("conv1"@), 128, 768, (5, 5), (0, 0), 1, 2)
    &&& x.fc.path@ == p.push("fc"@)
    &&& x.fc.in_dim == 768
    &&& x.fc.out_dim == nclasses
    &&& x.fc.ws_init == (WeightInit::TruncatedNormal { std_pow10: 3 })
    &&& x.fc.bs_init is None
}

fn inception_aux(p: &Path, nclasses: i64) -> (x: InceptionAux)
    ensures
        is_inception_aux(x, p@, nclasses as int),
{
    proof {
        reveal_strlit("conv0");
        reveal_strlit("conv1");
        reveal_strlit("fc");
    }
    InceptionAux {
        pool: AvgPool2d {
            ksize: 5,
            stride: 3,
            padding: 0,
            ceil_mode: false,
            count_include_pad: true,
            divisor_override: Some(25),
        },
        conv0: conv_bn(p, "conv0", 768, 128, 1, 0, 1),
        conv1: conv_bn_std(&p.sub("conv1"), 128, 768, 5, 0, 1, 2),
        before_fc: pool_then_flatten(),
        fc: Linear {
            path: p.sub("fc"),
            in_dim: 768,
            out_dim: nclasses,
            ws_init: WeightInit::TruncatedNormal { std_pow10: 3 },
            bs_init: None,
        },
    }
}

/// One stage of the InceptionV3 tower, in forward order.
pub enum InceptionStage {
    Conv(BasicConv2d),
    MaxPool(MaxPool2d),
    A(InceptionA),
    B(InceptionB),
    C(InceptionC),
    D(InceptionD),
    E(InceptionE),
}

/// InceptionV3 configuration.
#[derive(Debug, Clone, Copy, PartialEq, Eq, Structural)]
pub struct InceptionV3Config {
    /// Remap ImageNet-normalized inputs to the TF (-1, 1) convention before
    /// the first conv. torchvision's pretrained builder enables this.
    pub transform_input: bool,
    /// Build the auxiliary classifier branch. Matches torchvision's default;
    /// the standard pretrained checkpoint contains its weights.
    pub aux_logits: bool,
}

impl Default for InceptionV3Config {
    fn default() -> (c: Self)
        ensures
            c.transform_input,
            c.aux_logits,
    {
        InceptionV3Config { transform_input: true, aux_logits: true }
    }
}

/// An InceptionV3 model.
///
/// Forward pass: the input is remapped when `transform_input` is set
/// (`x * std_c / 0.5 + (mean_c - 0.5) / 0.5` per channel), then runs
/// through `pre_aux` (stem through Mixed_6e, where the auxiliary branch
/// taps in) and `post_aux` (Mixed_7a through Mixed_7c), the `before_fc`
/// steps and `fc`.
pub struct InceptionV3 {
    pub transform_input: bool,
    pub pre_aux: Vec<InceptionStage>,
    pub aux: Option<InceptionAux>,
    pub post_aux: Vec<InceptionStage>,
    pub before_fc: Vec<Op>,
    pub fc: Linear,
}

/// Adaptive average pooling to 1x1, dropout with probability 0.5 and
/// flattening.
pub open spec fn inception_v3_pooling() -> Seq<Op> {
    seq![Op::GlobalAvgPool, Op::Dropout(Dropout { percent: 50 }), Op::Flatten]
}

/// `net` is the InceptionV3 built at path `p` for `nclasses` classes with
/// configuration `config`.
pub open spec fn is_inception_v3(
    net: InceptionV3,
    p: Seq<Seq<char>>,
    nclasses: int,
    config: InceptionV3Config,
) -> bool {
    let pre = net.pre_aux@;
    let post = net.post_aux@;
    &&& net.transform_input == config.transform_input
    &&& pre.len() == 15
    &&& pre[0] matches InceptionStage::Conv(b) && is_conv_bn(b, p, "Conv2d_1a_3x3"@, 3, 32, 3, 0, 2)
    &&& pre[1] matches InceptionStage::Conv(b) && is_conv_bn(b, p, "Conv2d_2a_3x3"@, 32, 32, 3, 0, 1)
    &&& pre[2] matches InceptionStage::Conv(b) && is_conv_bn(b, p, "Conv2d_2b_3x3"@, 32, 64, 3, 1, 1)
    &&& pre[3] == InceptionStage::MaxPool(reduction_max_pool())
    &&& pre[4] matches InceptionStage::Conv(b) && is_conv_bn(b, p, "Conv2d_3b_1x1"@, 64, 80, 1, 0, 1)
    &&& pre[5] matches InceptionStage::Conv(b) && is_conv_bn(b, p, "Conv2d_4a_3x3"@, 80, 192, 3, 0, 1)
    &&& pre[6] == InceptionStage::MaxPool(reduction_max_pool())
    &&& pre[7] matches InceptionStage::A(a) && is_inception_a(a, p.push("Mixed_5b"@), 192, 32)
    &&& pre[8] matches InceptionStage::A(a) && is_inception_a(a, p.push("Mixed_5c"@), 256, 64)
    &&& pre[9] matches InceptionStage::A(a) && is_inception_a(a, p.push("Mixed_5d"@), 288, 64)
    &&& pre[10] matches InceptionStage::B(b) && is_inception_b(b, p.push("Mixed_6a"@), 288)
    &&& pre[11] matches InceptionStage::C(c) && is_inception_c(c, p.push("Mixed_6b"@), 768, 128)
    &&& pre[12] matches InceptionStage::C(c) && is_inception_c(c, p.push("Mixed_6c"@), 768, 160)
    &&& pre[13] matches InceptionStage::C(c) && is_inception_c(c, p.push("Mixed_6d"@), 768, 160)
    &&& pre[14] matches InceptionStage::C(c) && is_inception_c(c, p.push("Mixed_6e"@), 768, 192)
    &&& (net.aux is Some) == config.aux_logits
    &&& (net.aux matches Some(x) ==> is_inception_aux(x, p.push("AuxLogits"@), nclasses))
    &&& post.len() == 3
    &&& post[0] matches InceptionStage::D(d) && is_inception_d(d, p.push("Mixed_7a"@), 768)
    &&& post[1] matches InceptionStage::E(e) && is_inception_e(e, p.push("Mixed_7b"@), 1280)
    &&& post[2] matches InceptionStage::E(e) && is_inception_e(e, p.push("Mixed_7c"@), 2048)
    // The fc weight follows the conv init (std 0.1); its bias keeps the
    // standard Linear init, as in torchvision.
    &&& net.before_fc@ == inception_v3_pooling()
    &&& net.fc.path@ == p.push("fc"@)
    &&& net.fc.in_dim == 2048
    &&& net.fc.out_dim == nclasses
    &&& net.fc.ws_init == (WeightInit::TruncatedNormal { std_pow10: 1 })
    &&& net.fc.bs_init is None
}

impl InceptionV3 {
    /// Whether a forward pass computes the auxiliary logits: only when the
    /// model has the auxiliary branch and runs in training mode, as in
    /// torchvision.
    pub fn computes_aux_logits(&self, train: bool) -> (r: bool)
        ensures
            r == (self.aux is Some && train),
    {
        self.aux.is_some() && train
    }
}

/// InceptionV3 matching torchvision's pretrained `inception_v3`
/// (`transform_input=True`, `aux_logits=True`). Use this when loading weights
/// converted from torchvision together with ImageNet normalization.
pub fn v3(p: &Path, nclasses: i64) -> (net: InceptionV3)
    ensures
        is_inception_v3(
            net,
            p@,
            nclasses as int,
            InceptionV3Config { transform_input: true, aux_logits: true },
        ),
{
    v3_with(p, nclasses, InceptionV3Config::default())
}

/// InceptionV3 without input transformation, matching torchvision's
/// from-scratch `Inception3()` constructor (`transform_input=False`,
/// `aux_logits=True`).
pub fn v3_no_transform_input(p: &Path, nclasses: i64) -> (net: InceptionV3)
    ensures
        is_inception_v3(
            net,
            p@,
            nclasses as int,
            InceptionV3Config { transform_input: false, aux_logits: true },
        ),
{
    v3_with(p, nclasses, InceptionV3Config { transform_input: false, aux_logits: true })
}

/// InceptionV3 with an explicit configuration.
pub fn v3_with(p: &Path, nclasses: i64, config: InceptionV3Config) -> (net: InceptionV3)
    ensures
        is_inception_v3(net, p@, nclasses as int, config),
{
    proof {
        reveal_strlit("Conv2d_1a_3x3");
        reveal_strlit("Conv2d_2a_3x3");
        reveal_strlit("Conv2d_2b_3x3");
        reveal_strlit("Conv2d_3b_1x1");
        reveal_strlit("Conv2d_4a_3x3");
        reveal_strlit("Mixed_5b");
        reveal_strlit("Mixed_5c");
        reveal_strlit("Mixed_5d");
        reveal_strlit("Mixed_6a");
        reveal_strlit("Mixed_6b");
        reveal_strlit("Mixed_6c");
        reveal_strlit("Mixed_6d");
        reveal_strlit("Mixed_6e");
        reveal_strlit("AuxLogits");
        reveal_strlit("Mixed_7a");
        reveal_strlit("Mixed_7b");
        reveal_strlit("Mixed_7c");
        reveal_strlit("fc");
    }
    let mut pre_aux: Vec<InceptionStage> = Vec::new();
    pre_aux.push(InceptionStage::Conv(conv_bn(p, "Conv2d_1a_3x3", 3, 32, 3, 0, 2)));
    pre_aux.push(InceptionStage::Conv(conv_bn(p, "Conv2d_2a_3x3", 32, 32, 3, 0, 1)));
    pre_aux.push(InceptionStage::Conv(conv_bn(p, "Conv2d_2b_3x3", 32, 64, 3, 1, 1)));
    pre_aux.push(InceptionStage::MaxPool(reduction_max_pool_value()));
    pre_aux.push(InceptionStage::Conv(conv_bn(p, "Conv2d_3b_1x1", 64, 80, 1, 0, 1)));
    pre_aux.push(InceptionStage::Conv(conv_bn(p, "Conv2d_4a_3x3", 80, 192, 3, 0, 1)));
    pre_aux.push(InceptionStage::MaxPool(reduction_max_pool_value()));
    pre_aux.push(InceptionStage::A(inception_a(&p.sub("Mixed_5b"), 192, 32)));
    pre_aux.push(InceptionStage::A(inception_a(&p.sub("Mixed_5c"), 256, 64)));
    pre_aux.push(InceptionStage::A(inception_a(&p.sub("Mixed_5d"), 288, 64)));
    pre_aux.push(InceptionStage::B(inception_b(&p.sub("Mixed_6a"), 288)));
    pre_aux.push(InceptionStage::C(inception_c(&p.sub("Mixed_6b"), 768, 128)));
    pre_aux.push(InceptionStage::C(inception_c(&p.sub("Mixed_6c"), 768, 160)));
    pre_aux.push(InceptionStage::C(inception_c(&p.sub("Mixed_6d"), 768, 160)));
    pre_aux.push(InceptionStage::C(inception_c(&p.sub("Mixed_6e"), 768, 192)));
    let aux = if config.aux_logits {
        Some(inception_aux(&p.sub("AuxLogits"), nclasses))
    } else {
        None
    };
    let mut post_aux: Vec<InceptionStage> = Vec::new();
    post_aux.push(InceptionStage::D(inception_d(&p.sub("Mixed_7a"), 768)));
    post_aux.push(InceptionStage::E(inception_e(&p.sub("Mixed_7b"), 1280)));
    post_aux.push(InceptionStage::E(inception_e(&p.sub("Mixed_7c"), 2048)));
    let fc = Linear {
        path: p.sub("fc"),
        in_dim: 2048,
        out_dim: nclasses,
        ws_init: WeightInit::TruncatedNormal { std_pow10: 1 },
        bs_init: None,
    };
    let mut before_fc: Vec<Op> = Vec::new();
    before_fc.push(Op::GlobalAvgPool);
    before_fc.push(Op::Dropout(Dropout { percent: 50 }));
    before_fc.push(Op::Flatten);
    assert(before_fc@ =~= inception_v3_pooling());
    InceptionV3 { transform_input: config.transform_input, pre_aux, aux, post_aux, before_fc, fc }
}

/// The block's convolution can run and its batch norm normalizes what
/// the convolution outputs.
pub open spec fn basic_conv_ok(b: BasicConv2d) -> bool {
    b.conv.well_formed() && b.bn.channels == b.conv.c_out
}

/// `b` consumes `c` channels and is well formed.
pub open spec fn takes(b: BasicConv2d, c: int) -> bool {
    b.conv.c_in == c && basic_conv_ok(b)
}

/// Stage `s`, fed with `c_in` channels, consumes them in every branch, and
/// every convolution of a branch consumes what the previous one outputs.
pub open spec fn stage_well_formed(s: InceptionStage, c_in: int) -> bool {
    match s {
        InceptionStage::Conv(b) => takes(b, c_in),
        InceptionStage::MaxPool(_) => true,
        InceptionStage::A(a) => {
            &&& takes(a.branch1x1, c_in)
            &&& takes(a.branch5x5_1, c_in)
            &&& takes(a.branch5x5_2, a.branch5x5_1.conv.c_out as int)
            &&& takes(a.branch3x3dbl_1, c_in)
            &&& takes(a.branch3x3dbl_2, a.branch3x3dbl_1.conv.c_out as int)
            &&& takes(a.branch3x3dbl_3, a.branch3x3dbl_2.conv.c_out as int)
            &&& takes(a.branch_pool, c_in)
        },
        InceptionStage::B(b) => {
            &&& takes(b.branch3x3, c_in)
            &&& takes(b.branch3x3dbl_1, c_in)
            &&& takes(b.branch3x3dbl_2, b.branch3x3dbl_1.conv.c_out as int)
            &&& takes(b.branch3x3dbl_3, b.branch3x3dbl_2.conv.c_out as int)
        },
        InceptionStage::C(c) => {
            &&& takes(c.branch1x1, c_in)
            &&& takes(c.branch7x7_1, c_in)
            &&& takes(c.branch7x7_2, c.branch7x7_1.conv.c_out as int)
            &&& takes(c.branch7x7_3, c.branch7x7_2.conv.c_out as int)
            &&& takes(c.branch7x7dbl_1, c_in)
            &&& takes(c.branch7x7dbl_2, c.branch7x7dbl_1.conv.c_out as int)
            &&& takes(c.branch7x7dbl_3, c.branch7x7dbl_2.conv.c_out as int)
            &&& takes(c.branch7x7dbl_4, c.branch7x7dbl_3.conv.c_out as int)
            &&& takes(c.branch7x7dbl_5, c.branch7x7dbl_4.conv.c_out as int)
            &&& takes(c.branch_pool, c_in)
        },
        InceptionStage::D(d) => {
            &&& takes(d.branch3x3_1, c_in)
            &&& takes(d.branch3x3_2, d.branch3x3_1.conv.c_out as int)
            &&& takes(d.branch7x7x3_1, c_in)
            &&& takes(d.branch7x7x3_2, d.branch7x7x3_1.conv.c_out as int)
            &&& takes(d.branch7x7x3_3, d.branch7x7x3_2.conv.c_out as int)
            &&& takes(d.branch7x7x3_4, d.branch7x7x3_3.conv.c_out as int)
        },
        InceptionStage::E(e) => {
            &&& takes(e.branch1x1, c_in)
            &&& takes(e.branch3x3_1, c_in)
            &&& takes(e.branch3x3_2a, e.branch3x3_1.conv.c_out as int)
            &&& takes(e.branch3x3_2b, e.branch3x3_1.conv.c_out as int)
            &&& takes(e.branch3x3dbl_1, c_in)
            &&& takes(e.branch3x3dbl_2, e.branch3x3dbl_1.conv.c_out as int)
            &&& takes(e.branch3x3dbl_3a, e.branch3x3dbl_2.conv.c_out as int)
            &&& takes(e.branch3x3dbl_3b, e.branch3x3dbl_2.conv.c_out as int)
            &&& takes(e.branch_pool, c_in)
        },
    }
}

/// The channels stage `s` outputs when fed with `c_in` channels: the sum
/// of its branches, a pooling branch passing its input channels through.
pub open spec fn stage_channels_out(s: InceptionStage, c_in: int) -> int {
    match s {
        InceptionStage::Conv(b) => b.conv.c_out as int,
        InceptionStage::MaxPool(_) => c_in,
        InceptionStage::A(a) => a.branch1x1.conv.c_out + a.branch5x5_2.conv.c_out
            + a.branch3x3dbl_3.conv.c_out + a.branch_pool.conv.c_out,
        InceptionStage::B(b) => b.branch3x3.conv.c_out + b.branch3x3dbl_3.conv.c_out + c_in,
        InceptionStage::C(c) => c.branch1x1.conv.c_out + c.branch7x7_3.conv.c_out
            + c.branch7x7dbl_5.conv.c_out + c.branch_pool.conv.c_out,
        InceptionStage::D(d) => d.branch3x3_2.conv.c_out + d.branch7x7x3_4.conv.c_out + c_in,
        InceptionStage::E(e) => e.branch1x1.conv.c_out + e.branch3x3_2a.conv.c_out
            + e.branch3x3_2b.conv.c_out + e.branch3x3dbl_3a.conv.c_out
            + e.branch3x3dbl_3b.conv.c_out + e.branch_pool.conv.c_out,
    }
}

/// The channels after the first `k` stages, fed with `c0` channels.
pub open spec fn channels_after(stages: Seq<InceptionStage>, k: int, c0: int) -> int
    decreases k,
{
    if k <= 0 {
        c0
    } else {
        stage_channels_out(stages[k - 1], channels_after(stages, k - 1, c0))
    }
}

/// Law: InceptionV3 is a well-formed chain of layers. Every stage of the
/// tower consumes the channels of an RGB image passed through the stages
/// before it, the auxiliary classifier and the tower after it consume the
/// 768 channels of Mixed_6e, the final layer consumes the 2048 channels of
/// Mixed_7c, and every convolution can run.
pub proof fn lemma_inception_v3_well_formed(
    net: InceptionV3,
    p: Seq<Seq<char>>,
    nclasses: int,
    config: InceptionV3Config,
)
    requires
        is_inception_v3(net, p, nclasses, config),
    ensures
        forall|k: int|
            0 <= k < net.pre_aux.len() ==> #[trigger] stage_well_formed(
                net.pre_aux@[k],
                channels_after(net.pre_aux@, k, 3),
            ),
        channels_after(net.pre_aux@, net.pre_aux.len() as int, 3) == 768,
        net.aux matches Some(x) ==> {
            &&& takes(x.conv0, 768)
            &&& takes(x.conv1, x.conv0.conv.c_out as int)
            &&& x.fc.in_dim == x.conv1.conv.c_out
        },
        forall|k: int|
            0 <= k < net.post_aux.len() ==> #[trigger] stage_well_formed(
                net.post_aux@[k],
                channels_after(net.post_aux@, k, 768),
            ),
        net.fc.in_dim == channels_after(net.post_aux@, net.post_aux.len() as int, 768),
{
    let pre = net.pre_aux@;
    let post = net.post_aux@;
    assert(channels_after(pre, 0, 3) == 3);
    assert(channels_after(pre, 1, 3) == 32);
    assert(channels_after(pre, 2, 3) == 32);
    assert(channels_after(pre, 3, 3) == 64);
    assert(channels_after(pre, 4, 3) == 64);
    assert(channels_after(pre, 5, 3) == 80);
    assert(channels_after(pre, 6, 3) == 192);
    assert(channels_after(pre, 7, 3) == 192);
    assert(channels_after(pre, 8, 3) == 256);
    assert(channels_after(pre, 9, 3) == 288);
    assert(channels_after(pre, 10, 3) == 288);
    assert(channels_after(pre, 11, 3) == 768);
    assert(channels_after(pre, 12, 3) == 768);
    assert(channels_after(pre, 13, 3) == 768);
    assert(channels_after(pre, 14, 3) == 768);
    assert(channels_after(pre, 15, 3) == 768);
    assert(channels_after(post, 0, 768) == 768);
    assert(channels_after(post, 1, 768) == 1280);
    assert(channels_after(post, 2, 768) == 2048);
    assert(channels_after(post, 3, 768) == 2048);
    assert forall|k: int| 0 <= k < net.pre_aux.len() implies #[trigger] stage_well_formed(
        pre[k],
        channels_after(pre, k, 3),
    ) by {
        if k == 0 {
        } else if k == 1 {
        } else if k == 2 {
        } else if k == 3 {
        } else if k == 4 {
        } else if k == 5 {
        } else if k == 6 {
        } else if k == 7 {
        } else if k == 8 {
        } else if k == 9 {
        } else if k == 10 {
        } else if k == 11 {
        } else if k == 12 {
        } else if k == 13 {
        } else {
        }
    }
    assert forall|k: int| 0 <= k < net.post_aux.len() implies #[trigger] stage_well_formed(
        post[k],
        channels_after(post, k, 768),
    ) by {
        if k == 0 {
        } else if k == 1 {
        } else {
        }
    }
}

/// Whether `q` is a prefix of `path`: the layer at `path` is registered
/// under the path `q`.
pub open spec fn under(path: Seq<Seq<char>>, q: Seq<Seq<char>>) -> bool {
    &&& q.len() <= path.len()
    &&& forall|i: int| 0 <= i < q.len() ==> #[trigger] path[i] == q[i]
}

/// The conv + batch-norm blocks of a stage.
pub open spec fn stage_blocks(s: InceptionStage) -> Seq<BasicConv2d> {
    match s {
        InceptionStage::Conv(b) => seq![b],
        InceptionStage::MaxPool(_) => Seq::empty(),
        InceptionStage::A(a) => seq![
            a.branch1x1,
            a.branch5x5_1,
            a.branch5x5_2,
            a.branch3x3dbl_1,
            a.branch3x3dbl_2,
            a.branch3x3dbl_3,
            a.branch_pool,
        ],
        InceptionStage::B(b) => seq![
            b.branch3x3,
            b.branch3x3dbl_1,
            b.branch3x3dbl_2,
            b.branch3x3dbl_3,
        ],
        InceptionStage::C(c) => seq![
            c.branch1x1,
            c.branch7x7_1,
            c.branch7x7_2,
            c.branch7x7_3,
            c.branch7x7dbl_1,
            c.branch7x7dbl_2,
            c.branch7x7dbl_3,
            c.branch7x7dbl_4,
            c.branch7x7dbl_5,
            c.branch_pool,
        ],
        InceptionStage::D(d) => seq![
            d.branch3x3_1,
            d.branch3x3_2,
            d.branch7x7x3_1,
            d.branch7x7x3_2,
            d.branch7x7x3_3,
            d.branch7x7x3_4,
        ],
        InceptionStage::E(e) => seq![
            e.branch1x1,
            e.branch3x3_1,
            e.branch3x3_2a,
            e.branch3x3_2b,
            e.branch3x3dbl_1,
            e.branch3x3dbl_2,
            e.branch3x3dbl_3a,
            e.branch3x3dbl_3b,
            e.branch_pool,
        ],
    }
}

/// The conv + batch-norm blocks of a sequence of stages, in order.
pub open spec fn stages_blocks(stages: Seq<InceptionStage>) -> Seq<BasicConv2d>
    decreases stages.len(),
{
    if stages.len() == 0 {
        Seq::empty()
    } else {
        stages_blocks(stages.drop_last()) + stage_blocks(stages.last())
    }
}

/// The paths of the layers of a sequence of blocks: the convolution, then
/// the batch norm of each block, in order.
pub open spec fn blocks_paths(blocks: Seq<BasicConv2d>) -> Seq<Seq<Seq<char>>>
    decreases blocks.len(),
{
    if blocks.len() == 0 {
        Seq::empty()
    } else {
        blocks_paths(blocks.drop_last()) + seq![
            blocks.last().conv.path@,
            blocks.last().bn.path@,
        ]
    }
}

/// The paths of all the layers of the auxiliary classifier.
pub open spec fn aux_paths(x: InceptionAux) -> Seq<Seq<Seq<char>>> {
    blocks_paths(seq![x.conv0, x.conv1]).push(x.fc.path@)
}

/// The paths of all the layers of an InceptionV3 network, under which its
/// variables are registered: the tower before the auxiliary branch, the
/// auxiliary branch when there is one, the rest of the tower and `fc`.
pub open spec fn inception_v3_paths(net: InceptionV3) -> Seq<Seq<Seq<char>>> {
    blocks_paths(stages_blocks(net.pre_aux@)) + (match net.aux {
        Some(x) => aux_paths(x),
        None => Seq::empty(),
    }) + blocks_paths(stages_blocks(net.post_aux@)) + seq![net.fc.path@]
}

/// Every layer of the blocks of `s` is registered under `q`.
pub open spec fn stage_under(s: InceptionStage, q: Seq<Seq<char>>) -> bool {
    forall|k: int|
        0 <= k < stage_blocks(s).len() ==> under((#[trigger] stage_blocks(s)[k]).conv.path@, q)
            && under(stage_blocks(s)[k].bn.path@, q)
}

/// No layer of the blocks in `blocks` is registered under `q`.
pub open spec fn blocks_avoid(blocks: Seq<BasicConv2d>, q: Seq<Seq<char>>) -> bool {
    forall|k: int|
        0 <= k < blocks.len() ==> !under((#[trigger] blocks[k]).conv.path@, q) && !under(
            blocks[k].bn.path@,
            q,
        )
}

proof fn lemma_blocks_paths_avoid(blocks: Seq<BasicConv2d>, q: Seq<Seq<char>>)
    requires
        blocks_avoid(blocks, q),
    ensures
        forall|i: int| 0 <= i < blocks_paths(blocks).len() ==> !under(#[trigger] blocks_paths(blocks)[i], q),
        blocks_paths(blocks).len() == 2 * blocks.len(),
    decreases blocks.len(),
{
    if blocks.len() > 0 {
        let init = blocks.drop_last();
        assert forall|k: int| 0 <= k < init.len() implies !under((#[trigger] init[k]).conv.path@, q)
            && !under(init[k].bn.path@, q) by {
            assert(init[k] == blocks[k]);
        }
        lemma_blocks_paths_avoid(init, q);
        let last = blocks[blocks.len() - 1];
        assert(!under(last.conv.path@, q) && !under(last.bn.path@, q));
    }
}

proof fn lemma_stages_blocks_avoid(stages: Seq<InceptionStage>, q: Seq<Seq<char>>)
    requires
        forall|k: int| 0 <= k < stages.len() ==> blocks_avoid(stage_blocks(#[trigger] stages[k]), q),
    ensures
        blocks_avoid(stages_blocks(stages), q),
    decreases stages.len(),
{
    if stages.len() > 0 {
        let init = stages.drop_last();
        assert forall|k: int| 0 <= k < init.len() implies blocks_avoid(
            stage_blocks(#[trigger] init[k]),
            q,
        ) by {
            assert(init[k] == stages[k]);
        }
        lemma_stages_blocks_avoid(init, q);
        let a = stages_blocks(init);
        let b = stage_blocks(stages[stages.len() - 1]);
        assert(blocks_avoid(b, q));
        assert forall|k: int| 0 <= k < (a + b).len() implies !under((#[trigger] (a + b)[k]).conv.path@, q)
            && !under((a + b)[k].bn.path@, q) by {
            if k < a.len() {
                assert((a + b)[k] == a[k]);
            } else {
                assert((a + b)[k] == b[k - a.len()]);
            }
        }
    }
}

/// A stage registered under `p / n`, with `n` not `m`, has no layer under
/// `p / m`.
proof fn lemma_stage_avoids(s: InceptionStage, p: Seq<Seq<char>>, n: Seq<char>, m: Seq<char>)
    requires
        stage_under(s, p.push(n)),
        n != m,
    ensures
        blocks_avoid(stage_blocks(s), p.push(m)),
{
    let bs = stage_blocks(s);
    assert forall|k: int| 0 <= k < bs.len() implies !under((#[trigger] bs[k]).conv.path@, p.push(m))
        && !under(bs[k].bn.path@, p.push(m)) by {
        assert(under(bs[k].conv.path@, p.push(n)));
        assert(bs[k].conv.path@[p.len() as int] == n);
        assert(bs[k].bn.path@[p.len() as int] == n);
    }
}

proof fn lemma_basic_under(b: BasicConv2d, q: Seq<Seq<char>>, name: Seq<char>)
    requires
        b.conv.path@ == q.push(name).push("conv"@),
        b.bn.path@ == q.push(name).push("bn"@),
    ensures
        under(b.conv.path@, q),
        under(b.bn.path@, q),
{
}

proof fn lemma_a_under(a: InceptionA, q: Seq<Seq<char>>, c_in: int, c_pool: int)
    requires
        is_inception_a(a, q, c_in, c_pool),
    ensures
        stage_under(InceptionStage::A(a), q),
{
    lemma_basic_under(a.branch1x1, q, "branch1x1"@);
    lemma_basic_under(a.branch5x5_1, q, "branch5x5_1"@);
    lemma_basic_under(a.branch5x5_2, q, "branch5x5_2"@);
    lemma_basic_under(a.branch3x3dbl_1, q, "branch3x3dbl_1"@);
    lemma_basic_under(a.branch3x3dbl_2, q, "branch3x3dbl_2"@);
    lemma_basic_under(a.branch3x3dbl_3, q, "branch3x3dbl_3"@);
    lemma_basic_under(a.branch_pool, q, "branch_pool"@);
    let bs = stage_blocks(InceptionStage::A(a));
    assert forall|k: int| 0 <= k < bs.len() implies under((#[trigger] bs[k]).conv.path@, q)
        && under(bs[k].bn.path@, q) by {
        if k == 0 {
        } else if k == 1 {
        } else if k == 2 {
        } else if k == 3 {
        } else if k == 4 {
        } else if k == 5 {
        } else {
        }
    }
}

proof fn lemma_b_under(b: InceptionB, q: Seq<Seq<char>>, c_in: int)
    requires
        is_inception_b(b, q, c_in),
    ensures
        stage_under(InceptionStage::B(b), q),
{
    lemma_basic_under(b.branch3x3, q, "branch3x3"@);
    lemma_basic_under(b.branch3x3dbl_1, q, "branch3x3dbl_1"@);
    lemma_basic_under(b.branch3x3dbl_2, q, "branch3x3dbl_2"@);
    lemma_basic_under(b.branch3x3dbl_3, q, "branch3x3dbl_3"@);
    let bs = stage_blocks(InceptionStage::B(b));
    assert forall|k: int| 0 <= k < bs.len() implies under((#[trigger] bs[k]).conv.path@, q)
        && under(bs[k].bn.path@, q) by {
        if k == 0 {
        } else if k == 1 {
        } else if k == 2 {
        } else {
        }
    }
}

proof fn lemma_c_under(c: InceptionC, q: Seq<Seq<char>>, c_in: int, c7: int)
    requires
        is_inception_c(c, q, c_in, c7),
    ensures
        stage_under(InceptionStage::C(c), q),
{
    lemma_basic_under(c.branch1x1, q, "branch1x1"@);
    lemma_basic_under(c.branch7x7_1, q, "branch7x7_1"@);
    lemma_basic_under(c.branch7x7_2, q, "branch7x7_2"@);
    lemma_basic_under(c.branch7x7_3, q, "branch7x7_3"@);
    lemma_basic_under(c.branch7x7dbl_1, q, "branch7x7dbl_1"@);
    lemma_basic_under(c.branch7x7dbl_2, q, "branch7x7dbl_2"@);
    lemma_basic_under(c.branch7x7dbl_3, q, "branch7x7dbl_3"@);
    lemma_basic_under(c.branch7x7dbl_4, q, "branch7x7dbl_4"@);
    lemma_basic_under(c.branch7x7dbl_5, q, "branch7x7dbl_5"@);
    lemma_basic_under(c.branch_pool, q, "branch_pool"@);
    let bs = stage_blocks(InceptionStage::C(c));
    assert forall|k: int| 0 <= k < bs.len() implies under((#[trigger] bs[k]).conv.path@, q)
        && under(bs[k].bn.path@, q) by {
        if k == 0 {
        } else if k == 1 {
        } else if k == 2 {
        } else if k == 3 {
        } else if k == 4 {
        } else if k == 5 {
        } else if k == 6 {
        } else if k == 7 {
        } else if k == 8 {
        } else {
        }
    }
}

proof fn lemma_d_under(d: InceptionD, q: Seq<Seq<char>>, c_in: int)
    requires
        is_inception_d(d, q, c_in),
    ensures
        stage_under(InceptionStage::D(d), q),
{
    lemma_basic_under(d.branch3x3_1, q, "branch3x3_1"@);
    lemma_basic_under(d.branch3x3_2, q, "branch3x3_2"@);
    lemma_basic_under(d.branch7x7x3_1, q, "branch7x7x3_1"@);
    lemma_basic_under(d.branch7x7x3_2, q, "branch7x7x3_2"@);
    lemma_basic_under(d.branch7x7x3_3, q, "branch7x7x3_3"@);
    lemma_basic_under(d.branch7x7x3_4, q, "branch7x7x3_4"@);
    let bs = stage_blocks(InceptionStage::D(d));
    assert forall|k: int| 0 <= k < bs.len() implies under((#[trigger] bs[k]).conv.path@, q)
        && under(bs[k].bn.path@, q) by {
        if k == 0 {
        } else if k == 1 {
        } else if k == 2 {
        } else if k == 3 {
        } else if k == 4 {
        } else {
        }
    }
}

proof fn lemma_e_under(e: InceptionE, q: Seq<Seq<char>>, c_in: int)
    requires
        is_inception_e(e, q, c_in),
    ensures
        stage_under(InceptionStage::E(e), q),
{
    lemma_basic_under(e.branch1x1, q, "branch1x1"@);
    lemma_basic_under(e.branch3x3_1, q, "branch3x3_1"@);
    lemma_basic_under(e.branch3x3_2a, q, "branch3x3_2a"@);
    lemma_basic_under(e.branch3x3_2b, q, "branch3x3_2b"@);
    lemma_basic_under(e.branch3x3dbl_1, q, "branch3x3dbl_1"@);
    lemma_basic_under(e.branch3x3dbl_2, q, "branch3x3dbl_2"@);
    lemma_basic_under(e.branch3x3dbl_3a, q, "branch3x3dbl_3a"@);
    lemma_basic_under(e.branch3x3dbl_3b, q, "branch3x3dbl_3b"@);
    lemma_basic_under(e.branch_pool, q, "branch_pool"@);
    let bs = stage_blocks(InceptionStage::E(e));
    assert forall|k: int| 0 <= k < bs.len() implies under((#[trigger] bs[k]).conv.path@, q)
        && under(bs[k].bn.path@, q) by {
        if k == 0 {
        } else if k == 1 {
        } else if k == 2 {
        } else if k == 3 {
        } else if k == 4 {
        } else if k == 5 {
        } else if k == 6 {
        } else if k == 7 {
        } else {
        }
    }
}

/// No layer of the tower before the auxiliary branch lies under `p / AuxLogits`.
proof fn lemma_pre_aux_avoids(net: InceptionV3, p: Seq<Seq<char>>, nclasses: int, config: InceptionV3Config)
    requires
        is_inception_v3(net, p, nclasses, config),
    ensures
        blocks_avoid(stages_blocks(net.pre_aux@), p.push("AuxLogits"@)),
{
    reveal_strlit("AuxLogits");
    reveal_strlit("Conv2d_1a_3x3");
    reveal_strlit("Conv2d_2a_3x3");
    reveal_strlit("Conv2d_2b_3x3");
    reveal_strlit("Conv2d_3b_1x1");
    reveal_strlit("Conv2d_4a_3x3");
    reveal_strlit("Mixed_5b");
    reveal_strlit("Mixed_5c");
    reveal_strlit("Mixed_5d");
    reveal_strlit("Mixed_6a");
    reveal_strlit("Mixed_6b");
    reveal_strlit("Mixed_6c");
    reveal_strlit("Mixed_6d");
    reveal_strlit("Mixed_6e");
    assert("Conv2d_1a_3x3"@.len() != "AuxLogits"@.len());
    assert("Conv2d_2a_3x3"@.len() != "AuxLogits"@.len());
    assert("Conv2d_2b_3x3"@.len() != "AuxLogits"@.len());
    assert("Conv2d_3b_1x1"@.len() != "AuxLogits"@.len());
    assert("Conv2d_4a_3x3"@.len() != "AuxLogits"@.len());
    assert("Mixed_5b"@.len() != "AuxLogits"@.len());
    assert("Mixed_5c"@.len() != "AuxLogits"@.len());
    assert("Mixed_5d"@.len() != "AuxLogits"@.len());
    assert("Mixed_6a"@.len() != "AuxLogits"@.len());
    assert("Mixed_6b"@.len() != "AuxLogits"@.len());
    assert("Mixed_6c"@.len() != "AuxLogits"@.len());
    assert("Mixed_6d"@.len() != "AuxLogits"@.len());
    assert("Mixed_6e"@.len() != "AuxLogits"@.len());
    let st = net.pre_aux@;
    assert forall|k: int| 0 <= k < st.len() implies blocks_avoid(
        stage_blocks(#[trigger] st[k]),
        p.push("AuxLogits"@),
    ) by {
        if k == 0 {
            if let InceptionStage::Conv(b) = st[k] {
                lemma_basic_under(b, p, "Conv2d_1a_3x3"@);
            }
            lemma_stage_avoids(st[k], p, "Conv2d_1a_3x3"@, "AuxLogits"@);
        } else if k == 1 {
            if let InceptionStage::Conv(b) = st[k] {
                lemma_basic_under(b, p, "Conv2d_2a_3x3"@);
            }
            lemma_stage_avoids(st[k], p, "Conv2d_2a_3x3"@, "AuxLogits"@);
        } else if k == 2 {
            if let InceptionStage::Conv(b) = st[k] {
                lemma_basic_under(b, p, "Conv2d_2b_3x3"@);
            }
            lemma_stage_avoids(st[k], p, "Conv2d_2b_3x3"@, "AuxLogits"@);
        } else if k == 3 {
        } else if k == 4 {
            if let InceptionStage::Conv(b) = st[k] {
                lemma_basic_under(b, p, "Conv2d_3b_1x1"@);
            }
            lemma_stage_avoids(st[k], p, "Conv2d_3b_1x1"@, "AuxLogits"@);
        } else if k == 5 {
            if let InceptionStage::Conv(b) = st[k] {
                lemma_basic_under(b, p, "Conv2d_4a_3x3"@);
            }
            lemma_stage_avoids(st[k], p, "Conv2d_4a_3x3"@, "AuxLogits"@);
        } else if k == 6 {
        } else if k == 7 {
            if let InceptionStage::A(x) = st[k] {
                lemma_a_under(x, p.push("Mixed_5b"@), 192, 32);
            }
            lemma_stage_avoids(st[k], p, "Mixed_5b"@, "AuxLogits"@);
        } else if k == 8 {
            if let InceptionStage::A(x) = st[k] {
                lemma_a_under(x, p.push("Mixed_5c"@), 256, 64);
            }
            lemma_stage_avoids(st[k], p, "Mixed_5c"@, "AuxLogits"@);
        } else if k == 9 {
            if let InceptionStage::A(x) = st[k] {
                lemma_a_under(x, p.push("Mixed_5d"@), 288, 64);
            }
            lemma_stage_avoids(st[k], p, "Mixed_5d"@, "AuxLogits"@);
        } else if k == 10 {
            if let InceptionStage::B(x) = st[k] {
                lemma_b_under(x, p.push("Mixed_6a"@), 288);
            }
            lemma_stage_avoids(st[k], p, "Mixed_6a"@, "AuxLogits"@);
        } else if k == 11 {
            if let InceptionStage::C(x) = st[k] {
                lemma_c_under(x, p.push("Mixed_6b"@), 768, 128);
            }
            lemma_stage_avoids(st[k], p, "Mixed_6b"@, "AuxLogits"@);
        } else if k == 12 {
            if let InceptionStage::C(x) = st[k] {
                lemma_c_under(x, p.push("Mixed_6c"@), 768, 160);
            }
            lemma_stage_avoids(st[k], p, "Mixed_6c"@, "AuxLogits"@);
        } else if k == 13 {
            if let InceptionStage::C(x) = st[k] {
                lemma_c_under(x, p.push("Mixed_6d"@), 768, 160);
            }
            lemma_stage_avoids(st[k], p, "Mixed_6d"@, "AuxLogits"@);
        } else {
            if let InceptionStage::C(x) = st[k] {
                lemma_c_under(x, p.push("Mixed_6e"@), 768, 192);
            }
            lemma_stage_avoids(st[k], p, "Mixed_6e"@, "AuxLogits"@);
        }
    }
    lemma_stages_blocks_avoid(st, p.push("AuxLogits"@));
}

/// No layer of the tower after the auxiliary branch lies under `p / AuxLogits`.
proof fn lemma_post_aux_avoids(net: InceptionV3, p: Seq<Seq<char>>, nclasses: int, config: InceptionV3Config)
    requires
        is_inception_v3(net, p, nclasses, config),
    ensures
        blocks_avoid(stages_blocks(net.post_aux@), p.push("AuxLogits"@)),
{
    reveal_strlit("AuxLogits");
    reveal_strlit("Mixed_7a");
    reveal_strlit("Mixed_7b");
    reveal_strlit("Mixed_7c");
    assert("Mixed_7a"@.len() != "AuxLogits"@.len());
    assert("Mixed_7b"@.len() != "AuxLogits"@.len());
    assert("Mixed_7c"@.len() != "AuxLogits"@.len());
    let st = net.post_aux@;
    assert forall|k: int| 0 <= k < st.len() implies blocks_avoid(
        stage_blocks(#[trigger] st[k]),
        p.push("AuxLogits"@),
    ) by {
        if k == 0 {
            if let InceptionStage::D(x) = st[k] {
                lemma_d_under(x, p.push("Mixed_7a"@), 768);
            }
            lemma_stage_avoids(st[k], p, "Mixed_7a"@, "AuxLogits"@);
        } else if k == 1 {
            if let InceptionStage::E(x) = st[k] {
                lemma_e_under(x, p.push("Mixed_7b"@), 1280);
            }
            lemma_stage_avoids(st[k], p, "Mixed_7b"@, "AuxLogits"@);
        } else {
            if let InceptionStage::E(x) = st[k] {
                lemma_e_under(x, p.push("Mixed_7c"@), 2048);
            }
            lemma_stage_avoids(st[k], p, "Mixed_7c"@, "AuxLogits"@);
        }
    }
    lemma_stages_blocks_avoid(st, p.push("AuxLogits"@));
}

/// Law: an InceptionV3 network has a layer registered under `p /
/// AuxLogits` exactly when its configuration asks for the auxiliary
/// classifier; a forward pass computes auxiliary logits (see
/// `computes_aux_logits`) exactly when the configuration asks for them and
/// the pass runs in training mode; and the main output holds `nclasses`
/// values per image.
pub proof fn lemma_inception_v3_aux_logits(
    net: InceptionV3,
    p: Seq<Seq<char>>,
    nclasses: int,
    config: InceptionV3Config,
)
    requires
        is_inception_v3(net, p, nclasses, config),
    ensures
        (exists|i: int|
            0 <= i < inception_v3_paths(net).len() && under(
                #[trigger] inception_v3_paths(net)[i],
                p.push("AuxLogits"@),
            )) <==> config.aux_logits,
        (net.aux is Some) == config.aux_logits,
        net.fc.out_dim == nclasses,
{
    reveal_strlit("AuxLogits");
    reveal_strlit("fc");
    reveal_strlit("conv0");
    reveal_strlit("conv");
    assert("fc"@.len() != "AuxLogits"@.len());
    let q = p.push("AuxLogits"@);
    let pre = net.pre_aux@;
    let post = net.post_aux@;
    lemma_pre_aux_avoids(net, p, nclasses, config);
    lemma_post_aux_avoids(net, p, nclasses, config);
    lemma_blocks_paths_avoid(stages_blocks(pre), q);
    lemma_blocks_paths_avoid(stages_blocks(post), q);
    let a = blocks_paths(stages_blocks(pre));
    let b = blocks_paths(stages_blocks(post));
    let fc = seq![net.fc.path@];
    assert(!under(net.fc.path@, q)) by {
        assert(net.fc.path@[p.len() as int] == "fc"@);
    }
    let paths = inception_v3_paths(net);
    match net.aux {
        Some(x) => {
            let ap = aux_paths(x);
            assert(paths == a + ap + b + fc);
            let two = seq![x.conv0, x.conv1];
            assert(two.drop_last() =~= seq![x.conv0]);
            assert(seq![x.conv0].drop_last() =~= Seq::<BasicConv2d>::empty());
            let one = seq![x.conv0];
            assert(blocks_paths(one.drop_last()) == Seq::<Seq<Seq<char>>>::empty());
            assert(blocks_paths(one) =~= seq![x.conv0.conv.path@, x.conv0.bn.path@]);
            assert(blocks_paths(two)[0] == x.conv0.conv.path@);
            assert(ap[0] == x.conv0.conv.path@);
            assert(x.conv0.conv.path@ == q.push("conv0"@).push("conv"@));
            assert(paths[a.len() as int] == ap[0]);
            assert(under(paths[a.len() as int], q));
        },
        None => {
            assert(paths =~= a + b + fc);
            assert forall|i: int| 0 <= i < paths.len() implies !under(#[trigger] paths[i], q) by {
                if i < a.len() {
                    assert(paths[i] == a[i]);
                } else if i < a.len() + b.len() {
                    assert(paths[i] == b[i - a.len()]);
                } else {
                    assert(paths[i] == net.fc.path@);
                }
            }
        },
    }
}

/// The concatenation order of the outputs of a stage; empty for a plain
/// convolution or pooling stage.
pub open spec fn stage_concat(s: InceptionStage) -> Seq<BranchOutput> {
    match s {
        InceptionStage::A(a) => a.concat@,
        InceptionStage::B(b) => b.concat@,
        InceptionStage::C(c) => c.concat@,
        InceptionStage::D(d) => d.concat@,
        InceptionStage::E(e) => e.concat@,
        _ => Seq::empty(),
    }
}

/// The channels that output `o` of stage `s` contributes when `s` is fed
/// with `c_in` channels: the output channels of the convolution that ends
/// the branch, or the input channels for a max pooling of the input.
pub open spec fn output_width(s: InceptionStage, c_in: int, o: BranchOutput) -> int {
    match s {
        InceptionStage::A(a) => match o {
            BranchOutput::Branch1x1 => a.branch1x1.conv.c_out as int,
            BranchOutput::Branch5x5 => a.branch5x5_2.conv.c_out as int,
            BranchOutput::Branch3x3Dbl => a.branch3x3dbl_3.conv.c_out as int,
            BranchOutput::BranchPool => a.branch_pool.conv.c_out as int,
            _ => 0,
        },
        InceptionStage::B(b) => match o {
            BranchOutput::Branch3x3 => b.branch3x3.conv.c_out as int,
            BranchOutput::Branch3x3Dbl => b.branch3x3dbl_3.conv.c_out as int,
            BranchOutput::MaxPool => c_in,
            _ => 0,
        },
        InceptionStage::C(c) => match o {
            BranchOutput::Branch1x1 => c.branch1x1.conv.c_out as int,
            BranchOutput::Branch7x7 => c.branch7x7_3.conv.c_out as int,
            BranchOutput::Branch7x7Dbl => c.branch7x7dbl_5.conv.c_out as int,
            BranchOutput::BranchPool => c.branch_pool.conv.c_out as int,
            _ => 0,
        },
        InceptionStage::D(d) => match o {
            BranchOutput::Branch3x3 => d.branch3x3_2.conv.c_out as int,
            BranchOutput::Branch7x7x3 => d.branch7x7x3_4.conv.c_out as int,
            BranchOutput::MaxPool => c_in,
            _ => 0,
        },
        InceptionStage::E(e) => match o {
            BranchOutput::Branch1x1 => e.branch1x1.conv.c_out as int,
            BranchOutput::Branch3x3A => e.branch3x3_2a.conv.c_out as int,
            BranchOutput::Branch3x3B => e.branch3x3_2b.conv.c_out as int,
            BranchOutput::Branch3x3DblA => e.branch3x3dbl_3a.conv.c_out as int,
            BranchOutput::Branch3x3DblB => e.branch3x3dbl_3b.conv.c_out as int,
            BranchOutput::BranchPool => e.branch_pool.conv.c_out as int,
            _ => 0,
        },
        _ => 0,
    }
}

/// The first output channel of `o` when the outputs of `s` are
/// concatenated in the order `order`: the widths of the outputs before it.
pub open spec fn channel_start(
    order: Seq<BranchOutput>,
    s: InceptionStage,
    c_in: int,
    o: BranchOutput,
) -> int
    decreases order.len(),
{
    if order.len() == 0 || order[0] == o {
        0
    } else {
        output_width(s, c_in, order[0]) + channel_start(order.drop_first(), s, c_in, o)
    }
}

/// The first output channel of `o` in stage `s`, fed with `c_in` channels.
pub open spec fn stage_channel_start(s: InceptionStage, c_in: int, o: BranchOutput) -> int {
    channel_start(stage_concat(s), s, c_in, o)
}

/// The channels of a stage's concatenated outputs.
pub open spec fn concat_width(order: Seq<BranchOutput>, s: InceptionStage, c_in: int) -> int
    decreases order.len(),
{
    if order.len() == 0 {
        0
    } else {
        output_width(s, c_in, order[0]) + concat_width(order.drop_first(), s, c_in)
    }
}

proof fn lemma_a_layout(a: InceptionA, q: Seq<Seq<char>>, c_in: int, c_pool: int)
    requires
        is_inception_a(a, q, c_in, c_pool),
    ensures
        ({
            let s = InceptionStage::A(a);
            &&& stage_channel_start(s, c_in, BranchOutput::Branch1x1) == 0
            &&& stage_channel_start(s, c_in, BranchOutput::Branch5x5) == 64
            &&& stage_channel_start(s, c_in, BranchOutput::Branch3x3Dbl) == 128
            &&& stage_channel_start(s, c_in, BranchOutput::BranchPool) == 224
            &&& concat_width(stage_concat(s), s, c_in) == 224 + c_pool
        }),
{
    reveal_with_fuel(channel_start, 5);
    reveal_with_fuel(concat_width, 5);
}

proof fn lemma_b_layout(b: InceptionB, q: Seq<Seq<char>>, c_in: int)
    requires
        is_inception_b(b, q, c_in),
    ensures
        ({
            let s = InceptionStage::B(b);
            &&& stage_channel_start(s, c_in, BranchOutput::Branch3x3) == 0
            &&& stage_channel_start(s, c_in, BranchOutput::Branch3x3Dbl) == 384
            &&& stage_channel_start(s, c_in, BranchOutput::MaxPool) == 480
            &&& concat_width(stage_concat(s), s, c_in) == 480 + c_in
        }),
{
    reveal_with_fuel(channel_start, 4);
    reveal_with_fuel(concat_width, 4);
}

proof fn lemma_c_layout(c: InceptionC, q: Seq<Seq<char>>, c_in: int, c7: int)
    requires
        is_inception_c(c, q, c_in, c7),
    ensures
        ({
            let s = InceptionStage::C(c);
            &&& stage_channel_start(s, c_in, BranchOutput::Branch1x1) == 0
            &&& stage_channel_start(s, c_in, BranchOutput::Branch7x7) == 192
            &&& stage_channel_start(s, c_in, BranchOutput::Branch7x7Dbl) == 384
            &&& stage_channel_start(s, c_in, BranchOutput::BranchPool) == 576
            &&& concat_width(stage_concat(s), s, c_in) == 768
        }),
{
    reveal_with_fuel(channel_start, 5);
    reveal_with_fuel(concat_width, 5);
}

proof fn lemma_d_layout(d: InceptionD, q: Seq<Seq<char>>, c_in: int)
    requires
        is_inception_d(d, q, c_in),
    ensures
        ({
            let s = InceptionStage::D(d);
            &&& stage_channel_start(s, c_in, BranchOutput::Branch3x3) == 0
            &&& stage_channel_start(s, c_in, BranchOutput::Branch7x7x3) == 320
            &&& stage_channel_start(s, c_in, BranchOutput::MaxPool) == 512
            &&& concat_width(stage_concat(s), s, c_in) == 512 + c_in
        }),
{
    reveal_with_fuel(channel_start, 4);
    reveal_with_fuel(concat_width, 4);
}

proof fn lemma_e_layout(e: InceptionE, q: Seq<Seq<char>>, c_in: int)
    requires
        is_inception_e(e, q, c_in),
    ensures
        ({
            let s = InceptionStage::E(e);
            &&& stage_channel_start(s, c_in, BranchOutput::Branch1x1) == 0
            &&& stage_channel_start(s, c_in, BranchOutput::Branch3x3A) == 320
            &&& stage_channel_start(s, c_in, BranchOutput::Branch3x3B) == 704
            &&& stage_channel_start(s, c_in, BranchOutput::Branch3x3DblA) == 1088
            &&& stage_channel_start(s, c_in, BranchOutput::Branch3x3DblB) == 1472
            &&& stage_channel_start(s, c_in, BranchOutput::BranchPool) == 1856
            &&& concat_width(stage_concat(s), s, c_in) == 2048
        }),
{
    reveal_with_fuel(channel_start, 7);
    reveal_with_fuel(concat_width, 7);
}

proof fn lemma_tower_channels(
    net: InceptionV3,
    p: Seq<Seq<char>>,
    nclasses: int,
    config: InceptionV3Config,
)
    requires
        is_inception_v3(net, p, nclasses, config),
    ensures
        channels_after(net.pre_aux@, 7, 3) == 192,
        channels_after(net.pre_aux@, 8, 3) == 256,
        channels_after(net.pre_aux@, 9, 3) == 288,
        channels_after(net.pre_aux@, 10, 3) == 288,
        channels_after(net.pre_aux@, 11, 3) == 768,
        channels_after(net.pre_aux@, 12, 3) == 768,
        channels_after(net.pre_aux@, 13, 3) == 768,
        channels_after(net.pre_aux@, 14, 3) == 768,
        channels_after(net.post_aux@, 0, 768) == 768,
        channels_after(net.post_aux@, 1, 768) == 1280,
        channels_after(net.post_aux@, 2, 768) == 2048,
{
    let pre = net.pre_aux@;
    let post = net.post_aux@;
    assert(channels_after(pre, 0, 3) == 3);
    assert(channels_after(pre, 1, 3) == 32);
    assert(channels_after(pre, 2, 3) == 32);
    assert(channels_after(pre, 3, 3) == 64);
    assert(channels_after(pre, 4, 3) == 64);
    assert(channels_after(pre, 5, 3) == 80);
    assert(channels_after(pre, 6, 3) == 192);
    assert(channels_after(pre, 7, 3) == 192);
    assert(channels_after(pre, 8, 3) == 256);
    assert(channels_after(pre, 9, 3) == 288);
    assert(channels_after(pre, 10, 3) == 288);
    assert(channels_after(pre, 11, 3) == 768);
    assert(channels_after(pre, 12, 3) == 768);
    assert(channels_after(pre, 13, 3) == 768);
    assert(channels_after(pre, 14, 3) == 768);
    assert(channels_after(post, 0, 768) == 768);
    assert(channels_after(post, 1, 768) == 1280);
    assert(channels_after(post, 2, 768) == 2048);
}

/// Law: the channels of every Inception block's output, as torchvision lays
/// them out (and as its pretrained weights read them). In the A blocks
/// (Mixed_5b, 5c, 5d) the 1x1 branch takes channels from 0, the 5x5 branch
/// from 64, the double 3x3 branch from 128 and the pooling branch from
/// 224; in the B block (Mixed_6a) the 3x3 branch from 0, the double 3x3
/// branch from 384 and the pooled input from 480; in the C blocks
/// (Mixed_6b to 6e) the 1x1, 7x7, double 7x7 and pooling branches from 0,
/// 192, 384 and 576; in the D block (Mixed_7a) the 3x3 branch, the 7x7x3
/// branch and the pooled input from 0, 320 and 512; in the E blocks
/// (Mixed_7b, 7c) the 1x1 branch, the two halves of the 3x3 branch, the two
/// halves of the double 3x3 branch and the pooling branch from 0, 320, 704,
/// 1088, 1472 and 1856. Each block outputs the channels the next one takes:
/// 256, 288, 288, 768, 768, 768, 768, 768, then 1280 and 2048.
pub proof fn lemma_inception_v3_channel_layout(
    net: InceptionV3,
    p: Seq<Seq<char>>,
    nclasses: int,
    config: InceptionV3Config,
)
    requires
        is_inception_v3(net, p, nclasses, config),
    ensures
        forall|k: int|
            7 <= k < 10 ==> {
                let s = #[trigger] net.pre_aux@[k];
                let c = channels_after(net.pre_aux@, k, 3);
                &&& s is A
                &&& stage_channel_start(s, c, BranchOutput::Branch1x1) == 0
                &&& stage_channel_start(s, c, BranchOutput::Branch5x5) == 64
                &&& stage_channel_start(s, c, BranchOutput::Branch3x3Dbl) == 128
                &&& stage_channel_start(s, c, BranchOutput::BranchPool) == 224
            },
        ({
            let s = net.pre_aux@[10];
            let c = channels_after(net.pre_aux@, 10, 3);
            &&& s is B
            &&& stage_channel_start(s, c, BranchOutput::Branch3x3) == 0
            &&& stage_channel_start(s, c, BranchOutput::Branch3x3Dbl) == 384
            &&& stage_channel_start(s, c, BranchOutput::MaxPool) == 480
        }),
        forall|k: int|
            11 <= k < 15 ==> {
                let s = #[trigger] net.pre_aux@[k];
                let c = channels_after(net.pre_aux@, k, 3);
                &&& s is C
                &&& stage_channel_start(s, c, BranchOutput::Branch1x1) == 0
                &&& stage_channel_start(s, c, BranchOutput::Branch7x7) == 192
                &&& stage_channel_start(s, c, BranchOutput::Branch7x7Dbl) == 384
                &&& stage_channel_start(s, c, BranchOutput::BranchPool) == 576
            },
        ({
            let s = net.post_aux@[0];
            let c = channels_after(net.post_aux@, 0, 768);
            &&& s is D
            &&& stage_channel_start(s, c, BranchOutput::Branch3x3) == 0
            &&& stage_channel_start(s, c, BranchOutput::Branch7x7x3) == 320
            &&& stage_channel_start(s, c, BranchOutput::MaxPool) == 512
        }),
        forall|k: int|
            1 <= k < 3 ==> {
                let s = #[trigger] net.post_aux@[k];
                let c = channels_after(net.post_aux@, k, 768);
                &&& s is E
                &&& stage_channel_start(s, c, BranchOutput::Branch1x1) == 0
                &&& stage_channel_start(s, c, BranchOutput::Branch3x3A) == 320
                &&& stage_channel_start(s, c, BranchOutput::Branch3x3B) == 704
                &&& stage_channel_start(s, c, BranchOutput::Branch3x3DblA) == 1088
                &&& stage_channel_start(s, c, BranchOutput::Branch3x3DblB) == 1472
                &&& stage_channel_start(s, c, BranchOutput::BranchPool) == 1856
            },
        forall|k: int|
            7 <= k < 15 ==> concat_width(
                stage_concat(#[trigger] net.pre_aux@[k]),
                net.pre_aux@[k],
                channels_after(net.pre_aux@, k, 3),
            ) == seq![256int, 288, 288, 768, 768, 768, 768, 768][k - 7],
        forall|k: int|
            0 <= k < 3 ==> concat_width(
                stage_concat(#[trigger] net.post_aux@[k]),
                net.post_aux@[k],
                channels_after(net.post_aux@, k, 768),
            ) == seq![1280int, 2048, 2048][k],
{
    let pre = net.pre_aux@;
    let post = net.post_aux@;
    lemma_tower_channels(net, p, nclasses, config);
    reveal_strlit("Mixed_5b");
    if let InceptionStage::A(a) = pre[7] {
        lemma_a_layout(a, p.push("Mixed_5b"@), 192, 32);
    }
    if let InceptionStage::A(a) = pre[8] {
        lemma_a_layout(a, p.push("Mixed_5c"@), 256, 64);
    }
    if let InceptionStage::A(a) = pre[9] {
        lemma_a_layout(a, p.push("Mixed_5d"@), 288, 64);
    }
    if let InceptionStage::B(b) = pre[10] {
        lemma_b_layout(b, p.push("Mixed_6a"@), 288);
    }
    if let InceptionStage::C(c) = pre[11] {
        lemma_c_layout(c, p.push("Mixed_6b"@), 768, 128);
    }
    if let InceptionStage::C(c) = pre[12] {
        lemma_c_layout(c, p.push("Mixed_6c"@), 768, 160);
    }
    if let InceptionStage::C(c) = pre[13] {
        lemma_c_layout(c, p.push("Mixed_6d"@), 768, 160);
    }
    if let InceptionStage::C(c) = pre[14] {
        lemma_c_layout(c, p.push("Mixed_6e"@), 768, 192);
    }
    if let InceptionStage::D(d) = post[0] {
        lemma_d_layout(d, p.push("Mixed_7a"@), 768);
    }
    if let InceptionStage::E(e) = post[1] {
        lemma_e_layout(e, p.push("Mixed_7b"@), 1280);
    }
    if let InceptionStage::E(e) = post[2] {
        lemma_e_layout(e, p.push("Mixed_7c"@), 2048);
    }
    assert forall|k: int| 7 <= k < 10 implies {
        let s = #[trigger] pre[k];
        let c = channels_after(pre, k, 3);
        &&& s is A
        &&& stage_channel_start(s, c, BranchOutput::Branch1x1) == 0
        &&& stage_channel_start(s, c, BranchOutput::Branch5x5) == 64
        &&& stage_channel_start(s, c, BranchOutput::Branch3x3Dbl) == 128
        &&& stage_channel_start(s, c, BranchOutput::BranchPool) == 224
    } by {
        if k == 7 {
        } else if k == 8 {
        } else {
        }
    }
    assert forall|k: int| 11 <= k < 15 implies {
        let s = #[trigger] pre[k];
        let c = channels_after(pre, k, 3);
        &&& s is C
        &&& stage_channel_start(s, c, BranchOutput::Branch1x1) == 0
        &&& stage_channel_start(s, c, BranchOutput::Branch7x7) == 192
        &&& stage_channel_start(s, c, BranchOutput::Branch7x7Dbl) == 384
        &&& stage_channel_start(s, c, BranchOutput::BranchPool) == 576
    } by {
        if k == 11 {
        } else if k == 12 {
        } else if k == 13 {
        } else {
        }
    }
    assert forall|k: int| 1 <= k < 3 implies {
        let s = #[trigger] post[k];
        let c = channels_after(post, k, 768);
        &&& s is E
        &&& stage_channel_start(s, c, BranchOutput::Branch1x1) == 0
        &&& stage_channel_start(s, c, BranchOutput::Branch3x3A) == 320
        &&& stage_channel_start(s, c, BranchOutput::Branch3x3B) == 704
        &&& stage_channel_start(s, c, BranchOutput::Branch3x3DblA) == 1088
        &&& stage_channel_start(s, c, BranchOutput::Branch3x3DblB) == 1472
        &&& stage_channel_start(s, c, BranchOutput::BranchPool) == 1856
    } by {
        if k == 1 {
        } else {
        }
    }
    assert forall|k: int| 7 <= k < 15 implies concat_width(
        stage_concat(#[trigger] pre[k]),
        pre[k],
        channels_after(pre, k, 3),
    ) == seq![256int, 288, 288, 768, 768, 768, 768, 768][k - 7] by {
        if k == 7 {
        } else if k == 8 {
        } else if k == 9 {
        } else if k == 10 {
        } else if k == 11 {
        } else if k == 12 {
        } else if k == 13 {
        } else {
        }
    }
    assert forall|k: int| 0 <= k < 3 implies concat_width(
        stage_concat(#[trigger] post[k]),
        post[k],
        channels_after(post, k, 768),
    ) == seq![1280int, 2048, 2048][k] by {
        if k == 0 {
        } else if k == 1 {
        } else {
        }
    }
}

} // verus!
