//! MobileNet V2 implementation.
//! <https://ai.googleblog.com/2018/04/mobilenetv2-next-generation-of-on.htmla>
//!
//! The network is described layer by layer, with the variable names that
//! torchvision uses, so that pretrained weights load into it.
use crate::nn::init::{FanInOut, NormalOrUniform};
use crate::nn::layers::{BatchNorm2d, Conv2d, Dropout, Linear, Op, WeightInit, DEFAULT_BN_EPS_POW10};
use crate::format::decimal;
use crate::nn::path::Path;
use vstd::prelude::*;

verus! {

/// torchvision initializes every MobileNetV2 conv with
/// `kaiming_normal_(mode="fan_out")` (the ReLU gain) and zeros any bias.
pub open spec fn conv_ws_init() -> WeightInit {
    WeightInit::KaimingRelu { dist: NormalOrUniform::Normal, fan: FanInOut::FanOut }
}

fn conv_ws_init_value() -> (w: WeightInit)
    ensures
        w == conv_ws_init(),
{
    WeightInit::KaimingRelu { dist: NormalOrUniform::Normal, fan: FanInOut::FanOut }
}

/// Conv2D + BatchNorm2D + ReLU6: the convolution is registered as `0` and
/// the batch norm as `1` under the block's path.
pub struct ConvBnRelu6 {
    pub conv: Conv2d,
    pub bn: BatchNorm2d,
}

/// `l` is the Conv2D + BatchNorm2D + ReLU6 block at path `p`, with a
/// `ks x ks` kernel padded to keep the spatial size at stride 1.
pub open spec fn is_cbr(
    l: ConvBnRelu6,
    p: Seq<Seq<char>>,
    c_in: int,
    c_out: int,
    ks: int,
    stride: int,
    groups: int,
) -> bool {
    &&& l.conv.path@ == p.push(decimal(0))
    &&& l.conv.c_in == c_in
    &&& l.conv.c_out == c_out
    &&& l.conv.ksize.0 == ks
    &&& l.conv.ksize.1 == ks
    &&& l.conv.stride == stride
    &&& l.conv.padding.0 == (ks - 1) / 2
    &&& l.conv.padding.1 == (ks - 1) / 2
    &&& l.conv.groups == groups
    &&& !l.conv.bias
    &&& l.conv.ws_init == conv_ws_init()
    &&& l.conv.bs_init is None
    &&& l.bn.path@ == p.push(decimal(1))
    &&& l.bn.channels == c_out
    &&& l.bn.eps_pow10 == DEFAULT_BN_EPS_POW10
}

// Conv2D + BatchNorm2D + ReLU6
fn cbr(p: &Path, c_in: i64, c_out: i64, ks: i64, stride: i64, g: i64) -> (l: ConvBnRelu6)
    requires
        1 <= ks,
    ensures
        is_cbr(l, p@, c_in as int, c_out as int, ks as int, stride as int, g as int),
{
    let conv = Conv2d {
        path: p.sub_index(0),
        c_in,
        c_out,
        ksize: (ks, ks),
        stride,
        padding: ((ks - 1) / 2, (ks - 1) / 2),
        groups: g,
        bias: false,
        ws_init: conv_ws_init_value(),
        bs_init: None,
    };
    let bn = BatchNorm2d { path: p.sub_index(1), channels: c_out, eps_pow10: DEFAULT_BN_EPS_POW10 };
    ConvBnRelu6 { conv, bn }
}

/// An inverted residual block: an optional 1x1 expansion to
/// `expand_ratio * c_in` channels, a 3x3 depthwise convolution, and a 1x1
/// projection to `c_out` channels, with a residual connection when the
/// input and output shapes agree.
pub struct InvertedResidual {
    pub c_in: i64,
    pub c_out: i64,
    pub stride: i64,
    pub expand_ratio: i64,
    pub expand: Option<ConvBnRelu6>,
    pub depthwise: ConvBnRelu6,
    pub project: Conv2d,
    pub project_bn: BatchNorm2d,
    /// Whether the block adds its input to its output.
    pub residual: bool,
}

/// `b` is the inverted residual block built at path `p`.
pub open spec fn is_inverted_residual(
    b: InvertedResidual,
    p: Seq<Seq<char>>,
    c_in: int,
    c_out: int,
    stride: int,
    er: int,
) -> bool {
    let c_hidden = er * c_in;
    let id: nat = if er != 1 { 1 } else { 0 };
    &&& b.c_in == c_in
    &&& b.c_out == c_out
    &&& b.stride == stride
    &&& b.expand_ratio == er
    &&& (b.expand is Some) == (er != 1)
    &&& (b.expand matches Some(e) ==> is_cbr(e, p.push(decimal(0)), c_in, c_hidden, 1, 1, 1))
    &&& is_cbr(b.depthwise, p.push(decimal(id)), c_hidden, c_hidden, 3, stride, c_hidden)
    &&& b.project.path@ == p.push(decimal(id + 1))
    &&& b.project.c_in == c_hidden
    &&& b.project.c_out == c_out
    &&& b.project.ksize == (1i64, 1i64)
    &&& b.project.stride == 1
    &&& b.project.padding == (0i64, 0i64)
    &&& b.project.groups == 1
    &&& !b.project.bias
    &&& b.project.ws_init == conv_ws_init()
    &&& b.project.bs_init is None
    &&& b.project_bn.path@ == p.push(decimal(id + 2))
    &&& b.project_bn.channels == c_out
    &&& b.project_bn.eps_pow10 == DEFAULT_BN_EPS_POW10
    &&& b.residual == (stride == 1 && c_in == c_out)
}

// Inverted Residual block.
fn inv(p: &Path, c_in: i64, c_out: i64, stride: i64, er: i64) -> (b: InvertedResidual)
    requires
        i64::MIN <= er * c_in <= i64::MAX,
    ensures
        is_inverted_residual(b, p@, c_in as int, c_out as int, stride as int, er as int),
{
    let c_hidden = er * c_in;
    let mut id: usize = 0;
    let mut expand: Option<ConvBnRelu6> = None;
    if er != 1 {
        expand = Some(cbr(&p.sub_index(id), c_in, c_hidden, 1, 1, 1));
        id += 1;
    }
    let depthwise = cbr(&p.sub_index(id), c_hidden, c_hidden, 3, stride, c_hidden);
    let project = Conv2d {
        path: p.sub_index(id + 1),
        c_in: c_hidden,
        c_out,
        ksize: (1, 1),
        stride: 1,
        padding: (0, 0),
        groups: 1,
        bias: false,
        ws_init: conv_ws_init_value(),
        bs_init: None,
    };
    let project_bn = BatchNorm2d {
        path: p.sub_index(id + 2),
        channels: c_out,
        eps_pow10: DEFAULT_BN_EPS_POW10,
    };
    InvertedResidual {
        c_in,
        c_out,
        stride,
        expand_ratio: er,
        expand,
        depthwise,
        project,
        project_bn,
        residual: stride == 1 && c_in == c_out,
    }
}

/// The inverted residual settings of MobileNetV2: expansion ratio, output
/// channels, number of blocks, stride of the first block.
pub open spec fn residual_settings() -> Seq<(i64, i64, i64, i64)> {
    seq![
        (1i64, 16i64, 1i64, 1i64),
        (6i64, 24i64, 2i64, 2i64),
        (6i64, 32i64, 3i64, 2i64),
        (6i64, 64i64, 4i64, 2i64),
        (6i64, 96i64, 3i64, 1i64),
        (6i64, 160i64, 3i64, 2i64),
        (6i64, 320i64, 1i64, 1i64),
    ]
}

/// The blocks of one setting: expansion ratio, output channels and
/// stride of each; only the first block of a setting strides.
pub open spec fn setting_blocks(s: (i64, i64, i64, i64)) -> Seq<(i64, i64, i64)> {
    Seq::new(s.2 as nat, |i: int| (s.0, s.1, if i == 0 { s.3 } else { 1i64 }))
}

/// Expansion ratio, output channels and stride of every inverted residual
/// block, in order.
pub open spec fn block_plan() -> Seq<(i64, i64, i64)> {
    residual_settings().flat_map(|s: (i64, i64, i64, i64)| setting_blocks(s))
}

/// Input channels of block `k` of a plan: the stem's 32 for the first,
/// the previous block's output channels otherwise.
pub open spec fn plan_c_in(plan: Seq<(i64, i64, i64)>, k: int) -> int {
    if k == 0 {
        32
    } else {
        plan[k - 1].1 as int
    }
}

/// A MobileNetV2 network.
///
/// Forward pass: `stem`, `blocks` and `head` (the `features` of
/// torchvision), the `before_classifier` steps, then `classifier`.
pub struct MobileNetV2 {
    pub stem: ConvBnRelu6,
    pub blocks: Vec<InvertedResidual>,
    pub head: ConvBnRelu6,
    pub before_classifier: Vec<Op>,
    pub classifier: Linear,
}

/// Adaptive average pooling to 1x1, flattening, and dropout with
/// probability 0.2.
pub open spec fn mobilenet_v2_pooling() -> Seq<Op> {
    seq![Op::GlobalAvgPool, Op::Flatten, Op::Dropout(Dropout { percent: 20 })]
}

/// `b` is the `k`-th inverted residual block of a plan, under `features`.
pub open spec fn is_plan_block(
    b: InvertedResidual,
    features: Seq<Seq<char>>,
    plan: Seq<(i64, i64, i64)>,
    k: int,
) -> bool {
    is_inverted_residual(
        b,
        features.push(decimal((k + 1) as nat)).push("conv"@),
        plan_c_in(plan, k),
        plan[k].1 as int,
        plan[k].2 as int,
        plan[k].0 as int,
    )
}

/// `net` is the MobileNetV2 built at path `p` for `nclasses` classes.
pub open spec fn is_mobilenet_v2(net: MobileNetV2, p: Seq<Seq<char>>, nclasses: int) -> bool {
    let f = p.push("features"@);
    let plan = block_plan();
    &&& is_cbr(net.stem, f.push(decimal(0)), 3, 32, 3, 2, 1)
    &&& net.blocks.len() == plan.len()
    &&& forall|k: int| 0 <= k < plan.len() ==> is_plan_block(#[trigger] net.blocks@[k], f, plan, k)
    &&& is_cbr(net.head, f.push(decimal(plan.len() + 1)), plan_c_in(plan, plan.len() as int), 1280, 1, 1, 1)
    &&& net.classifier.path@ == p.push("classifier"@).push(decimal(1))
    &&& net.classifier.in_dim == 1280
    &&& net.classifier.out_dim == nclasses
    &&& net.classifier.ws_init == (WeightInit::Normal { std_pow10: 2 })
    &&& net.classifier.bs_init == Some(WeightInit::Zeros)
    &&& net.before_classifier@ == mobilenet_v2_pooling()
}

/// The plan of the first `j` settings.
pub open spec fn plan_prefix(j: int) -> Seq<(i64, i64, i64)> {
    residual_settings().take(j).flat_map(|s: (i64, i64, i64, i64)| setting_blocks(s))
}

proof fn lemma_plan_prefix_step(j: int)
    requires
        0 <= j < 7,
    ensures
        plan_prefix(j + 1) == plan_prefix(j) + setting_blocks(residual_settings()[j]),
{
    residual_settings().lemma_flat_map_take_append(
        |s: (i64, i64, i64, i64)| setting_blocks(s),
        j,
    );
}

proof fn lemma_settings_bounds()
    ensures
        residual_settings().len() == 7,
        forall|j: int|
            0 <= j < 7 ==> {
                let s = #[trigger] residual_settings()[j];
                &&& 1 <= s.0 <= 6
                &&& 0 < s.1 <= 320
                &&& 0 < s.2 <= 4
                &&& 1 <= s.3 <= 2
            },
{
    let s = residual_settings();
    assert forall|j: int| 0 <= j < 7 implies {
        let e = #[trigger] s[j];
        &&& 1 <= e.0 <= 6
        &&& 0 < e.1 <= 320
        &&& 0 < e.2 <= 4
        &&& 1 <= e.3 <= 2
    } by {
        if j == 0 {
        } else if j == 1 {
        } else if j == 2 {
        } else if j == 3 {
        } else if j == 4 {
        } else if j == 5 {
        } else {
        }
    }
}

/// A plan prefix agrees with the whole plan.
proof fn lemma_plan_prefix_agrees(j: int)
    requires
        0 <= j <= 7,
    ensures
        plan_prefix(j).len() <= block_plan().len(),
        forall|k: int| 0 <= k < plan_prefix(j).len() ==> #[trigger] plan_prefix(j)[k] == block_plan()[k],
    decreases 7 - j,
{
    lemma_settings_bounds();
    if j == 7 {
        assert(residual_settings().take(7) =~= residual_settings());
    } else {
        lemma_plan_prefix_agrees(j + 1);
        lemma_plan_prefix_step(j);
        let pre = plan_prefix(j);
        let next = plan_prefix(j + 1);
        assert forall|k: int| 0 <= k < pre.len() implies #[trigger] pre[k] == block_plan()[k] by {
            assert(next[k] == pre[k]);
        }
    }
}

/// Every block of a plan prefix is bounded like the settings.
proof fn lemma_plan_prefix_bounded(j: int)
    requires
        0 <= j <= 7,
    ensures
        plan_prefix(j).len() <= 4 * j,
        forall|k: int|
            0 <= k < plan_prefix(j).len() ==> {
                let b = #[trigger] plan_prefix(j)[k];
                &&& 1 <= b.0 <= 6
                &&& 0 < b.1 <= 320
                &&& 1 <= b.2 <= 2
            },
    decreases j,
{
    lemma_settings_bounds();
    if j == 0 {
        assert(residual_settings().take(0) =~= Seq::<(i64, i64, i64, i64)>::empty());
    } else {
        lemma_plan_prefix_bounded(j - 1);
        lemma_plan_prefix_step(j - 1);
        let pre = plan_prefix(j - 1);
        let sb = setting_blocks(residual_settings()[j - 1]);
        assert forall|k: int| 0 <= k < plan_prefix(j).len() implies {
            let b = #[trigger] plan_prefix(j)[k];
            &&& 1 <= b.0 <= 6
            &&& 0 < b.1 <= 320
            &&& 1 <= b.2 <= 2
        } by {
            if k >= pre.len() {
                assert(plan_prefix(j)[k] == sb[k - pre.len()]);
            } else {
                assert(plan_prefix(j)[k] == pre[k]);
            }
        }
    }
}

/// The plan of the whole network, bounded like the settings.
proof fn lemma_block_plan()
    ensures
        block_plan().len() <= 28,
        forall|k: int|
            0 <= k < block_plan().len() ==> {
                let b = #[trigger] block_plan()[k];
                &&& 1 <= b.0 <= 6
                &&& 0 < b.1 <= 320
                &&& 1 <= b.2 <= 2
            },
{
    lemma_plan_prefix_bounded(7);
    assert(residual_settings().take(7) =~= residual_settings());
}

fn residual_settings_value() -> (v: Vec<(i64, i64, i64, i64)>)
    ensures
        v@ == residual_settings(),
{
    let v = vec![
        (1i64, 16i64, 1i64, 1i64),
        (6i64, 24i64, 2i64, 2i64),
        (6i64, 32i64, 3i64, 2i64),
        (6i64, 64i64, 4i64, 2i64),
        (6i64, 96i64, 3i64, 1i64),
        (6i64, 160i64, 3i64, 2i64),
        (6i64, 320i64, 1i64, 1i64),
    ];
    assert(v@ =~= residual_settings());
    v
}

/// Builds MobileNetV2 for `nclasses` classes with its variables under `p`.
pub fn v2(p: &Path, nclasses: i64) -> (net: MobileNetV2)
    ensures
        is_mobilenet_v2(net, p@, nclasses as int),
{
    proof {
        reveal_strlit("features");
        reveal_strlit("classifier");
        reveal_strlit("conv");
    }
    let f_p = p.sub("features");
    let c_p = p.sub("classifier");
    let mut c_in: i64 = 32;
    let stem = cbr(&f_p.sub_index(0), 3, c_in, 3, 2, 1);
    let settings = residual_settings_value();
    let mut blocks: Vec<InvertedResidual> = Vec::new();
    let mut layer_id: usize = 1;
    let mut j: usize = 0;
    proof {
        lemma_settings_bounds();
        assert(residual_settings().take(0) =~= Seq::<(i64, i64, i64, i64)>::empty());
    }
    while j < settings.len()
        invariant
            settings@ == residual_settings(),
            0 <= j <= 7,
            blocks.len() == plan_prefix(j as int).len(),
            layer_id == blocks.len() + 1,
            c_in == plan_c_in(plan_prefix(j as int), blocks.len() as int),
            f_p@ == p@.push("features"@),
            forall|k: int|
                0 <= k < blocks.len() ==> is_plan_block(
                    #[trigger] blocks@[k],
                    f_p@,
                    plan_prefix(j as int),
                    k,
                ),
        decreases 7 - j,
    {
        proof {
            lemma_settings_bounds();
            lemma_plan_prefix_bounded(j as int);
            lemma_plan_prefix_step(j as int);
        }
        let (er, c_out, n, stride) = settings[j];
        let ghost pre = plan_prefix(j as int);
        let ghost blocks_j = setting_blocks(residual_settings()[j as int]);
        let ghost start = blocks.len();
        let mut i: i64 = 0;
        while i < n
            invariant
                settings@ == residual_settings(),
                0 <= j < 7,
                (er, c_out, n, stride) == residual_settings()[j as int],
                1 <= er <= 6,
                0 < c_out <= 320,
                0 < n <= 4,
                pre == plan_prefix(j as int),
                blocks_j == setting_blocks(residual_settings()[j as int]),
                start == pre.len(),
                start + n <= 28,
                0 <= i <= n,
                blocks.len() == start + i,
                layer_id == blocks.len() + 1,
                0 < c_in <= 320,
                c_in == plan_c_in(pre + blocks_j.take(i as int), blocks.len() as int),
                f_p@ == p@.push("features"@),
                forall|k: int|
                    0 <= k < blocks.len() ==> is_plan_block(
                        #[trigger] blocks@[k],
                        f_p@,
                        pre + blocks_j.take(i as int),
                        k,
                    ),
            decreases n - i,
        {
            let ghost cur = pre + blocks_j.take(i as int);
            let ghost next = pre + blocks_j.take(i + 1);
            let block_stride = if i == 0 { stride } else { 1 };
            proof {
                reveal_strlit("conv");
            }
            assert(er * c_in <= 6 * 320) by (nonlinear_arith)
                requires
                    1 <= er <= 6,
                    0 < c_in <= 320,
            ;
            let block = inv(&f_p.sub_index(layer_id).sub("conv"), c_in, c_out, block_stride, er);
            proof {
                assert(next.len() == blocks.len() + 1);
                assert forall|k: int| 0 <= k < blocks.len() implies next[k] == cur[k] by {}
                assert(next[blocks.len() as int] == (er, c_out, block_stride));
            }
            blocks.push(block);
            proof {
                assert forall|k: int| 0 <= k < blocks.len() implies is_plan_block(
                    #[trigger] blocks@[k],
                    f_p@,
                    next,
                    k,
                ) by {
                    if k < blocks.len() - 1 {
                        assert(is_plan_block(blocks@[k], f_p@, cur, k));
                    }
                }
            }
            c_in = c_out;
            layer_id += 1;
            i += 1;
        }
        proof {
            assert(blocks_j.take(n as int) =~= blocks_j);
        }
        j += 1;
    }
    proof {
        assert(residual_settings().take(7) =~= residual_settings());
    }
    let head = cbr(&f_p.sub_index(layer_id), c_in, 1280, 1, 1, 1);
    // torchvision uses normal_(0, 0.01) for the classifier weight and zeros
    // its bias.
    let classifier = Linear {
        path: c_p.sub_index(1),
        in_dim: 1280,
        out_dim: nclasses,
        ws_init: WeightInit::Normal { std_pow10: 2 },
        bs_init: Some(WeightInit::Zeros),
    };
    let mut before_classifier: Vec<Op> = Vec::new();
    before_classifier.push(Op::GlobalAvgPool);
    before_classifier.push(Op::Flatten);
    before_classifier.push(Op::Dropout(Dropout { percent: 20 }));
    assert(before_classifier@ =~= mobilenet_v2_pooling());
    MobileNetV2 { stem, blocks, head, before_classifier, classifier }
}

/// Inside an inverted residual block every layer consumes what the
/// previous one produces, every convolution can run, and the residual
/// connection only adds tensors of the same shape.
pub open spec fn block_well_formed(b: InvertedResidual) -> bool {
    &&& match b.expand {
        Some(e) => {
            &&& e.conv.c_in == b.c_in
            &&& e.conv.well_formed()
            &&& e.bn.channels == e.conv.c_out
            &&& b.depthwise.conv.c_in == e.conv.c_out
        },
        None => b.depthwise.conv.c_in == b.c_in,
    }
    &&& b.depthwise.conv.well_formed()
    &&& b.depthwise.bn.channels == b.depthwise.conv.c_out
    &&& b.project.c_in == b.depthwise.conv.c_out
    &&& b.project.c_out == b.c_out
    &&& b.project.well_formed()
    &&& b.project_bn.channels == b.c_out
    &&& b.residual ==> (b.c_in == b.c_out && b.stride == 1)
}

/// Law: MobileNetV2 is a well-formed chain of layers. The stem feeds the
/// first block, each block feeds the next, the last block feeds the head,
/// the head feeds the classifier, and every block is well formed.
pub proof fn lemma_mobilenet_v2_well_formed(net: MobileNetV2, p: Seq<Seq<char>>, nclasses: int)
    requires
        is_mobilenet_v2(net, p, nclasses),
    ensures
        net.blocks.len() > 0,
        net.stem.conv.well_formed(),
        net.stem.bn.channels == net.stem.conv.c_out,
        net.stem.conv.c_out == net.blocks@[0].c_in,
        forall|k: int|
            0 < k < net.blocks.len() ==> #[trigger] net.blocks@[k].c_in == net.blocks@[k - 1].c_out,
        forall|k: int| 0 <= k < net.blocks.len() ==> block_well_formed(#[trigger] net.blocks@[k]),
        net.head.conv.c_in == net.blocks@[net.blocks.len() - 1].c_out,
        net.head.conv.well_formed(),
        net.head.bn.channels == net.head.conv.c_out,
        net.classifier.in_dim == net.head.conv.c_out,
{
    let plan = block_plan();
    lemma_block_plan();
    lemma_plan_prefix_agrees(1);
    lemma_plan_prefix_step(0);
    assert(residual_settings().take(0) =~= Seq::<(i64, i64, i64, i64)>::empty());
    assert(plan_prefix(1).len() == 1);
    let f = p.push("features"@);
    assert forall|k: int| 0 <= k < net.blocks.len() implies block_well_formed(
        #[trigger] net.blocks@[k],
    ) by {
        assert(is_plan_block(net.blocks@[k], f, plan, k));
        let b = net.blocks@[k];
        let c_in = plan_c_in(plan, k);
        assert(0 < c_in <= 320) by {
            if k > 0 {
                let prev = plan[k - 1];
            }
        }
        let er = plan[k].0 as int;
        assert(er * c_in > 0) by (nonlinear_arith)
            requires
                er >= 1,
                c_in > 0,
        ;
        assert((er * c_in) % (er * c_in) == 0) by (nonlinear_arith)
            requires
                er * c_in > 0,
        ;
    }
    assert forall|k: int| 0 < k < net.blocks.len() implies #[trigger] net.blocks@[k].c_in
        == net.blocks@[k - 1].c_out by {
        assert(is_plan_block(net.blocks@[k], f, plan, k));
        assert(is_plan_block(net.blocks@[k - 1], f, plan, k - 1));
    }
    assert(is_plan_block(net.blocks@[0], f, plan, 0));
    let last = net.blocks.len() - 1;
    assert(is_plan_block(net.blocks@[last], f, plan, last));
}

/// The product of the strides of `blocks`.
pub open spec fn strides_product(blocks: Seq<InvertedResidual>) -> int
    decreases blocks.len(),
{
    if blocks.len() == 0 {
        1
    } else {
        strides_product(blocks.drop_last()) * blocks.last().stride
    }
}

proof fn lemma_block_plan_table()
    ensures
        block_plan() == seq![
            (1i64, 16i64, 1i64),
            (6, 24, 2),
            (6, 24, 1),
            (6, 32, 2),
            (6, 32, 1),
            (6, 32, 1),
            (6, 64, 2),
            (6, 64, 1),
            (6, 64, 1),
            (6, 64, 1),
            (6, 96, 1),
            (6, 96, 1),
            (6, 96, 1),
            (6, 160, 2),
            (6, 160, 1),
            (6, 160, 1),
            (6, 320, 1),
        ],
{
    let r = residual_settings();
    assert(r.take(0) =~= Seq::<(i64, i64, i64, i64)>::empty());
    lemma_plan_prefix_step(0);
    lemma_plan_prefix_step(1);
    lemma_plan_prefix_step(2);
    lemma_plan_prefix_step(3);
    lemma_plan_prefix_step(4);
    lemma_plan_prefix_step(5);
    lemma_plan_prefix_step(6);
    assert(setting_blocks(r[0]) =~= seq![(1i64, 16i64, 1i64)]);
    assert(setting_blocks(r[1]) =~= seq![(6i64, 24i64, 2i64), (6, 24, 1)]);
    assert(setting_blocks(r[2]) =~= seq![(6i64, 32i64, 2i64), (6, 32, 1), (6, 32, 1)]);
    assert(setting_blocks(r[3]) =~= seq![(6i64, 64i64, 2i64), (6, 64, 1), (6, 64, 1), (6, 64, 1)]);
    assert(setting_blocks(r[4]) =~= seq![(6i64, 96i64, 1i64), (6, 96, 1), (6, 96, 1)]);
    assert(setting_blocks(r[5]) =~= seq![(6i64, 160i64, 2i64), (6, 160, 1), (6, 160, 1)]);
    assert(setting_blocks(r[6]) =~= seq![(6i64, 320i64, 1i64)]);
    assert(r.take(7) =~= r);
    assert(block_plan() =~= seq![(1i64, 16i64, 1i64), (6, 24, 2), (6, 24, 1), (6, 32, 2), (6, 32, 1), (6, 32, 1), (6, 64, 2), (6, 64, 1), (6, 64, 1), (6, 64, 1), (6, 96, 1), (6, 96, 1), (6, 96, 1), (6, 160, 2), (6, 160, 1), (6, 160, 1), (6, 320, 1)
    ]);
}

/// Law: MobileNetV2 has 17 inverted residual blocks whose expansion
/// ratio, output channels and stride are those of torchvision's table:
/// only the first block of the 24, 32, 64 and 160 channel groups strides.
/// So the stem and the blocks together reduce the input by 32 in each
/// direction, and exactly the blocks that keep their shape add their input.
pub proof fn lemma_mobilenet_v2_strides(net: MobileNetV2, p: Seq<Seq<char>>, nclasses: int)
    requires
        is_mobilenet_v2(net, p, nclasses),
    ensures
        net.blocks.len() == 17,
        forall|k: int|
            0 <= k < 17 ==> {
                let b = #[trigger] net.blocks@[k];
                (b.expand_ratio, b.c_out, b.stride) == seq![(1i64, 16i64, 1i64), (6, 24, 2), (6, 24, 1), (6, 32, 2), (6, 32, 1), (6, 32, 1), (6, 64, 2), (6, 64, 1), (6, 64, 1), (6, 64, 1), (6, 96, 1), (6, 96, 1), (6, 96, 1), (6, 160, 2), (6, 160, 1), (6, 160, 1), (6, 320, 1)
                ][k]
            },
        net.stem.conv.stride * strides_product(net.blocks@) == 32,
        forall|k: int|
            0 <= k < 17 ==> ((#[trigger] net.blocks@[k]).residual <==> (k == 2 || k == 4 || k == 5
                || k == 7 || k == 8 || k == 9 || k == 11 || k == 12 || k == 14 || k == 15)),
{
    lemma_block_plan_table();
    let plan = block_plan();
    let bs = net.blocks@;
    let f = p.push("features"@);
    assert forall|k: int| 0 <= k < 17 implies is_plan_block(#[trigger] bs[k], f, plan, k) by {}
    assert(bs.take(0) =~= Seq::<InvertedResidual>::empty());
    assert forall|k: int| 0 <= k < 17 implies strides_product(#[trigger] bs.take(k + 1))
        == strides_product(bs.take(k)) * bs[k].stride by {
        assert(bs.take(k + 1).drop_last() =~= bs.take(k));
    }
    assert(strides_product(bs.take(1)) == 1);
    assert(strides_product(bs.take(2)) == 2);
    assert(strides_product(bs.take(3)) == 2);
    assert(strides_product(bs.take(4)) == 4);
    assert(strides_product(bs.take(5)) == 4);
    assert(strides_product(bs.take(6)) == 4);
    assert(strides_product(bs.take(7)) == 8);
    assert(strides_product(bs.take(8)) == 8);
    assert(strides_product(bs.take(9)) == 8);
    assert(strides_product(bs.take(10)) == 8);
    assert(strides_product(bs.take(11)) == 8);
    assert(strides_product(bs.take(12)) == 8);
    assert(strides_product(bs.take(13)) == 8);
    assert(strides_product(bs.take(14)) == 16);
    assert(strides_product(bs.take(15)) == 16);
    assert(strides_product(bs.take(16)) == 16);
    assert(strides_product(bs.take(17)) == 16);
    assert(bs.take(17) =~= bs);
}

} // verus!
