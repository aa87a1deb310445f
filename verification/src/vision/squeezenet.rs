//! SqueezeNet implementation.
//!
//! The network is described layer by layer, with the variable names that
//! torchvision uses, so that pretrained weights load into it.
use crate::nn::init::{FanInOut, NormalOrUniform};
use crate::nn::layers::{Conv2d, Dropout, MaxPool2d, Op, WeightInit};
use crate::format::decimal;
use crate::nn::path::Path;
use vstd::prelude::*;

verus! {

/// torchvision's from-scratch init for every conv but the final
/// classifier: plain `kaiming_uniform_` (gain `sqrt(2)`), biases zeroed.
pub open spec fn conv_ws_init() -> WeightInit {
    WeightInit::KaimingRelu { dist: NormalOrUniform::Uniform, fan: FanInOut::FanIn }
}

/// `c` is a convolution of the features at path `p`, configured as
/// `conv_cfg(padding, stride)` does.
pub open spec fn is_feature_conv(
    c: Conv2d,
    p: Seq<Seq<char>>,
    c_in: int,
    c_out: int,
    ksize: int,
    padding: int,
    stride: int,
) -> bool {
    &&& c.path@ == p
    &&& c.c_in == c_in
    &&& c.c_out == c_out
    &&& c.ksize.0 == ksize
    &&& c.ksize.1 == ksize
    &&& c.stride == stride
    &&& c.padding.0 == padding
    &&& c.padding.1 == padding
    &&& c.groups == 1
    &&& c.bias
    &&& c.ws_init == conv_ws_init()
    &&& c.bs_init == Some(WeightInit::Zeros)
}

fn conv_cfg(
    path: Path,
    c_in: i64,
    c_out: i64,
    ksize: i64,
    padding: i64,
    stride: i64,
) -> (c: Conv2d)
    ensures
        is_feature_conv(
            c,
            path@,
            c_in as int,
            c_out as int,
            ksize as int,
            padding as int,
            stride as int,
        ),
{
    Conv2d {
        path,
        c_in,
        c_out,
        ksize: (ksize, ksize),
        stride,
        padding: (padding, padding),
        groups: 1,
        bias: true,
        ws_init: WeightInit::KaimingRelu { dist: NormalOrUniform::Uniform, fan: FanInOut::FanIn },
        bs_init: Some(WeightInit::Zeros),
    }
}

/// An expansion of a fire module.
#[derive(Debug, Clone, Copy, PartialEq, Eq)]
pub enum Expansion {
    /// The ReLU output of `expand1x1`.
    Expand1x1,
    /// The ReLU output of `expand3x3`.
    Expand3x3,
}

/// A fire module: a 1x1 squeeze convolution followed by ReLU, then the
/// ReLU outputs of a 1x1 and of a 3x3 expansion concatenated along the
/// channels in the order of `concat`.
pub struct Fire {
    pub squeeze: Conv2d,
    pub expand1x1: Conv2d,
    pub expand3x3: Conv2d,
    pub concat: Vec<Expansion>,
}

/// `f` is the fire module at path `p`.
pub open spec fn is_fire(
    f: Fire,
    p: Seq<Seq<char>>,
    c_in: int,
    c_squeeze: int,
    c_exp1: int,
    c_exp3: int,
) -> bool {
    &&& is_feature_conv(f.squeeze, p.push("squeeze"@), c_in, c_squeeze, 1, 0, 1)
    &&& is_feature_conv(f.expand1x1, p.push("expand1x1"@), c_squeeze, c_exp1, 1, 0, 1)
    &&& is_feature_conv(f.expand3x3, p.push("expand3x3"@), c_squeeze, c_exp3, 3, 1, 1)
    &&& f.concat@ == seq![Expansion::Expand1x1, Expansion::Expand3x3]
}

fn fire(p: &Path, c_in: i64, c_squeeze: i64, c_exp1: i64, c_exp3: i64) -> (f: Fire)
    ensures
        is_fire(f, p@, c_in as int, c_squeeze as int, c_exp1 as int, c_exp3 as int),
{
    proof {
        reveal_strlit("squeeze");
        reveal_strlit("expand1x1");
        reveal_strlit("expand3x3");
    }
    let squeeze = conv_cfg(p.sub("squeeze"), c_in, c_squeeze, 1, 0, 1);
    let expand1x1 = conv_cfg(p.sub("expand1x1"), c_squeeze, c_exp1, 1, 0, 1);
    let expand3x3 = conv_cfg(p.sub("expand3x3"), c_squeeze, c_exp3, 3, 1, 1);
    let mut concat: Vec<Expansion> = Vec::new();
    concat.push(Expansion::Expand1x1);
    concat.push(Expansion::Expand3x3);
    assert(concat@ =~= seq![Expansion::Expand1x1, Expansion::Expand3x3]);
    Fire { squeeze, expand1x1, expand3x3, concat }
}

/// One stage of the SqueezeNet features, in forward order.
pub enum SqueezeNetStage {
    Conv(Conv2d),
    Relu,
    MaxPool(MaxPool2d),
    Fire(Fire),
}

/// The max pooling of the features: 3x3 windows with stride 2, no
/// padding, the output size rounded up.
pub open spec fn features_pool() -> MaxPool2d {
    MaxPool2d { ksize: 3, stride: 2, padding: 0, ceil_mode: true }
}

fn features_pool_value() -> (m: MaxPool2d)
    ensures
        m == features_pool(),
{
    MaxPool2d { ksize: 3, stride: 2, padding: 0, ceil_mode: true }
}

/// What a stage of the features is, before its layers are named.
#[derive(Debug, Clone, Copy, PartialEq, Eq, Structural)]
pub enum StagePlan {
    /// The initial convolution: `c_out` channels, `ksize x ksize` kernel,
    /// stride 2, no padding.
    Conv { c_out: i64, ksize: i64 },
    Relu,
    MaxPool,
    Fire { c_in: i64, c_squeeze: i64, c_exp1: i64, c_exp3: i64 },
}

/// The stages of SqueezeNet 1.0 (`v1_0`) or 1.1 (otherwise).
pub open spec fn squeezenet_plan(v1_0: bool) -> Seq<StagePlan> {
    if v1_0 {
        seq![
            StagePlan::Conv { c_out: 96, ksize: 7 },
            StagePlan::Relu,
            StagePlan::MaxPool,
            StagePlan::Fire { c_in: 96, c_squeeze: 16, c_exp1: 64, c_exp3: 64 },
            StagePlan::Fire { c_in: 128, c_squeeze: 16, c_exp1: 64, c_exp3: 64 },
            StagePlan::Fire { c_in: 128, c_squeeze: 32, c_exp1: 128, c_exp3: 128 },
            StagePlan::MaxPool,
            StagePlan::Fire { c_in: 256, c_squeeze: 32, c_exp1: 128, c_exp3: 128 },
            StagePlan::Fire { c_in: 256, c_squeeze: 48, c_exp1: 192, c_exp3: 192 },
            StagePlan::Fire { c_in: 384, c_squeeze: 48, c_exp1: 192, c_exp3: 192 },
            StagePlan::Fire { c_in: 384, c_squeeze: 64, c_exp1: 256, c_exp3: 256 },
            StagePlan::MaxPool,
            StagePlan::Fire { c_in: 512, c_squeeze: 64, c_exp1: 256, c_exp3: 256 },
        ]
    } else {
        seq![
            StagePlan::Conv { c_out: 64, ksize: 3 },
            StagePlan::Relu,
            StagePlan::MaxPool,
            StagePlan::Fire { c_in: 64, c_squeeze: 16, c_exp1: 64, c_exp3: 64 },
            StagePlan::Fire { c_in: 128, c_squeeze: 16, c_exp1: 64, c_exp3: 64 },
            StagePlan::MaxPool,
            StagePlan::Fire { c_in: 128, c_squeeze: 32, c_exp1: 128, c_exp3: 128 },
            StagePlan::Fire { c_in: 256, c_squeeze: 32, c_exp1: 128, c_exp3: 128 },
            StagePlan::MaxPool,
            StagePlan::Fire { c_in: 256, c_squeeze: 48, c_exp1: 192, c_exp3: 192 },
            StagePlan::Fire { c_in: 384, c_squeeze: 48, c_exp1: 192, c_exp3: 192 },
            StagePlan::Fire { c_in: 384, c_squeeze: 64, c_exp1: 256, c_exp3: 256 },
            StagePlan::Fire { c_in: 512, c_squeeze: 64, c_exp1: 256, c_exp3: 256 },
        ]
    }
}

/// `s` is the stage built from `plan` at path `p`.
pub open spec fn stage_matches(s: SqueezeNetStage, p: Seq<Seq<char>>, plan: StagePlan) -> bool {
    match plan {
        StagePlan::Conv { c_out, ksize } => s matches SqueezeNetStage::Conv(c) && is_feature_conv(
            c,
            p,
            3,
            c_out as int,
            ksize as int,
            0,
            2,
        ),
        StagePlan::Relu => s is Relu,
        StagePlan::MaxPool => s matches SqueezeNetStage::MaxPool(m) && m == features_pool(),
        StagePlan::Fire { c_in, c_squeeze, c_exp1, c_exp3 } => s matches SqueezeNetStage::Fire(f)
            && is_fire(f, p, c_in as int, c_squeeze as int, c_exp1 as int, c_exp3 as int),
    }
}

/// A SqueezeNet network.
///
/// Forward pass: the `features` stages in order, the `before_classifier`
/// steps, the `classifier` convolution, then the `after_classifier` steps.
pub struct SqueezeNet {
    pub features: Vec<SqueezeNetStage>,
    pub before_classifier: Vec<Op>,
    pub classifier: Conv2d,
    pub after_classifier: Vec<Op>,
}

/// `net` is the SqueezeNet (1.0 when `v1_0`, 1.1 otherwise) built at path
/// `p` for `nclasses` classes: stage `k` of the features is registered as
/// `features.k`.
pub open spec fn is_squeezenet(net: SqueezeNet, p: Seq<Seq<char>>, v1_0: bool, nclasses: int) -> bool {
    let plan = squeezenet_plan(v1_0);
    &&& net.features.len() == plan.len()
    &&& forall|k: int|
        0 <= k < plan.len() ==> stage_matches(
            #[trigger] net.features@[k],
            p.push("features"@).push(decimal(k as nat)),
            plan[k],
        )
    // torchvision initializes the final classifier conv with normal(0, 0.01).
    &&& net.classifier.path@ == p.push("classifier"@).push(decimal(1))
    &&& net.classifier.c_in == 512
    &&& net.classifier.c_out == nclasses
    &&& net.classifier.ksize == (1i64, 1i64)
    &&& net.classifier.stride == 1
    &&& net.classifier.padding == (0i64, 0i64)
    &&& net.classifier.groups == 1
    &&& net.classifier.bias
    &&& net.classifier.ws_init == (WeightInit::Normal { std_pow10: 2 })
    &&& net.classifier.bs_init == Some(WeightInit::Zeros)
    // Dropout with probability 0.5 before the classifier; ReLU, adaptive
    // average pooling to 1x1 and flattening after it.
    &&& net.before_classifier@ == seq![Op::Dropout(Dropout { percent: 50 })]
    &&& net.after_classifier@ == seq![Op::Relu, Op::GlobalAvgPool, Op::Flatten]
}

fn push_fire(
    features: &mut Vec<SqueezeNetStage>,
    f_p: &Path,
    c_in: i64,
    c_squeeze: i64,
    c_exp1: i64,
    c_exp3: i64,
)
    ensures
        final(features)@.len() == old(features)@.len() + 1,
        forall|k: int| 0 <= k < old(features)@.len() ==> final(features)@[k] == old(features)@[k],
        stage_matches(
            final(features)@[old(features)@.len() as int],
            f_p@.push(decimal(old(features)@.len() as nat)),
            StagePlan::Fire { c_in, c_squeeze, c_exp1, c_exp3 },
        ),
{
    let f = fire(&f_p.sub_index(features.len()), c_in, c_squeeze, c_exp1, c_exp3);
    features.push(SqueezeNetStage::Fire(f));
}

fn squeezenet(p: &Path, v1_0: bool, nclasses: i64) -> (net: SqueezeNet)
    ensures
        is_squeezenet(net, p@, v1_0, nclasses as int),
{
    proof {
        reveal_strlit("features");
        reveal_strlit("classifier");
    }
    let f_p = p.sub("features");
    let c_p = p.sub("classifier");
    let mut features: Vec<SqueezeNetStage> = Vec::new();
    let (c_first, k_first) = if v1_0 { (96i64, 7i64) } else { (64i64, 3i64) };
    features.push(SqueezeNetStage::Conv(conv_cfg(f_p.sub_index(0), 3, c_first, k_first, 0, 2)));
    features.push(SqueezeNetStage::Relu);
    features.push(SqueezeNetStage::MaxPool(features_pool_value()));
    if v1_0 {
        push_fire(&mut features, &f_p, 96, 16, 64, 64);
        push_fire(&mut features, &f_p, 128, 16, 64, 64);
        push_fire(&mut features, &f_p, 128, 32, 128, 128);
        features.push(SqueezeNetStage::MaxPool(features_pool_value()));
        push_fire(&mut features, &f_p, 256, 32, 128, 128);
        push_fire(&mut features, &f_p, 256, 48, 192, 192);
        push_fire(&mut features, &f_p, 384, 48, 192, 192);
        push_fire(&mut features, &f_p, 384, 64, 256, 256);
        features.push(SqueezeNetStage::MaxPool(features_pool_value()));
        push_fire(&mut features, &f_p, 512, 64, 256, 256);
    } else {
        push_fire(&mut features, &f_p, 64, 16, 64, 64);
        push_fire(&mut features, &f_p, 128, 16, 64, 64);
        features.push(SqueezeNetStage::MaxPool(features_pool_value()));
        push_fire(&mut features, &f_p, 128, 32, 128, 128);
        push_fire(&mut features, &f_p, 256, 32, 128, 128);
        features.push(SqueezeNetStage::MaxPool(features_pool_value()));
        push_fire(&mut features, &f_p, 256, 48, 192, 192);
        push_fire(&mut features, &f_p, 384, 48, 192, 192);
        push_fire(&mut features, &f_p, 384, 64, 256, 256);
        push_fire(&mut features, &f_p, 512, 64, 256, 256);
    }
    let classifier = Conv2d {
        path: c_p.sub_index(1),
        c_in: 512,
        c_out: nclasses,
        ksize: (1, 1),
        stride: 1,
        padding: (0, 0),
        groups: 1,
        bias: true,
        ws_init: WeightInit::Normal { std_pow10: 2 },
        bs_init: Some(WeightInit::Zeros),
    };
    let mut before_classifier: Vec<Op> = Vec::new();
    before_classifier.push(Op::Dropout(Dropout { percent: 50 }));
    let mut after_classifier: Vec<Op> = Vec::new();
    after_classifier.push(Op::Relu);
    after_classifier.push(Op::GlobalAvgPool);
    after_classifier.push(Op::Flatten);
    assert(before_classifier@ =~= seq![Op::Dropout(Dropout { percent: 50 })]);
    assert(after_classifier@ =~= seq![Op::Relu, Op::GlobalAvgPool, Op::Flatten]);
    let net = SqueezeNet { features, before_classifier, classifier, after_classifier };
    proof {
        let plan = squeezenet_plan(v1_0);
        assert forall|k: int| 0 <= k < plan.len() implies stage_matches(
            #[trigger] net.features@[k],
            p@.push("features"@).push(decimal(k as nat)),
            plan[k],
        ) by {
            if k == 0 {
            } else if k == 1 {
            } else if k == 2 {
            } else if k == 3 {
            } else if k == 4 {
            } else if k == 5 {
            } else if k == 6 {
            } else if k == 7 {
            } else if k == 8 {
            } else if k == 9 {
            } else if k == 10 {
            } else if k == 11 {
            } else {
            }
        }
    }
    net
}

/// SqueezeNet 1.0 for `nclasses` classes with its variables under `p`.
pub fn v1_0(p: &Path, nclasses: i64) -> (net: SqueezeNet)
    ensures
        is_squeezenet(net, p@, true, nclasses as int),
{
    squeezenet(p, true, nclasses)
}

/// SqueezeNet 1.1 for `nclasses` classes with its variables under `p`.
pub fn v1_1(p: &Path, nclasses: i64) -> (net: SqueezeNet)
    ensures
        is_squeezenet(net, p@, false, nclasses as int),
{
    squeezenet(p, false, nclasses)
}

/// The channels a stage outputs, when it changes them: a convolution's
/// output channels, or the concatenated expansions of a fire module.
pub open spec fn stage_out_channels(s: SqueezeNetStage) -> Option<int> {
    match s {
        SqueezeNetStage::Conv(c) => Some(c.c_out as int),
        SqueezeNetStage::Fire(f) => Some(f.expand1x1.c_out + f.expand3x3.c_out),
        _ => None,
    }
}

/// The channels entering stage `k` of an RGB image's features.
pub open spec fn channels_into(stages: Seq<SqueezeNetStage>, k: int) -> int
    decreases k,
{
    if k <= 0 {
        3
    } else {
        match stage_out_channels(stages[k - 1]) {
            Some(c) => c,
            None => channels_into(stages, k - 1),
        }
    }
}

/// Stage `k` consumes the channels the stages before it produce, and its
/// convolutions can run.
pub open spec fn stage_well_formed(stages: Seq<SqueezeNetStage>, k: int) -> bool {
    match stages[k] {
        SqueezeNetStage::Conv(c) => c.c_in == channels_into(stages, k) && c.well_formed(),
        SqueezeNetStage::Fire(f) => {
            &&& f.squeeze.c_in == channels_into(stages, k)
            &&& f.expand1x1.c_in == f.squeeze.c_out
            &&& f.expand3x3.c_in == f.squeeze.c_out
            &&& f.squeeze.well_formed()
            &&& f.expand1x1.well_formed()
            &&& f.expand3x3.well_formed()
        },
        _ => true,
    }
}

/// Law: SqueezeNet is a well-formed chain of layers: every stage consumes
/// the channels that the stages before it produce, the classifier consumes
/// the channels of the features, and every convolution can run.
pub proof fn lemma_squeezenet_well_formed(
    net: SqueezeNet,
    p: Seq<Seq<char>>,
    v1_0: bool,
    nclasses: int,
)
    requires
        is_squeezenet(net, p, v1_0, nclasses),
        nclasses > 0,
    ensures
        forall|k: int| 0 <= k < net.features.len() ==> #[trigger] stage_well_formed(net.features@, k),
        net.classifier.c_in == channels_into(net.features@, net.features.len() as int),
        net.classifier.well_formed(),
{
    let plan = squeezenet_plan(v1_0);
    let st = net.features@;
    let f = p.push("features"@);
    assert(stage_matches(st[0], f.push(decimal(0)), plan[0]));
    assert(stage_matches(st[1], f.push(decimal(1)), plan[1]));
    assert(stage_matches(st[2], f.push(decimal(2)), plan[2]));
    assert(stage_matches(st[3], f.push(decimal(3)), plan[3]));
    assert(stage_matches(st[4], f.push(decimal(4)), plan[4]));
    assert(stage_matches(st[5], f.push(decimal(5)), plan[5]));
    assert(stage_matches(st[6], f.push(decimal(6)), plan[6]));
    assert(stage_matches(st[7], f.push(decimal(7)), plan[7]));
    assert(stage_matches(st[8], f.push(decimal(8)), plan[8]));
    assert(stage_matches(st[9], f.push(decimal(9)), plan[9]));
    assert(stage_matches(st[10], f.push(decimal(10)), plan[10]));
    assert(stage_matches(st[11], f.push(decimal(11)), plan[11]));
    assert(stage_matches(st[12], f.push(decimal(12)), plan[12]));
    if v1_0 {
        assert(channels_into(st, 1) == 96);
        assert(channels_into(st, 2) == 96);
        assert(channels_into(st, 3) == 96);
        assert(channels_into(st, 4) == 128);
        assert(channels_into(st, 5) == 128);
        assert(channels_into(st, 6) == 256);
        assert(channels_into(st, 7) == 256);
        assert(channels_into(st, 8) == 256);
        assert(channels_into(st, 9) == 384);
        assert(channels_into(st, 10) == 384);
        assert(channels_into(st, 11) == 512);
        assert(channels_into(st, 12) == 512);
        assert(channels_into(st, 13) == 512);
    } else {
        assert(channels_into(st, 1) == 64);
        assert(channels_into(st, 2) == 64);
        assert(channels_into(st, 3) == 64);
        assert(channels_into(st, 4) == 128);
        assert(channels_into(st, 5) == 128);
        assert(channels_into(st, 6) == 128);
        assert(channels_into(st, 7) == 256);
        assert(channels_into(st, 8) == 256);
        assert(channels_into(st, 9) == 256);
        assert(channels_into(st, 10) == 384);
        assert(channels_into(st, 11) == 384);
        assert(channels_into(st, 12) == 512);
        assert(channels_into(st, 13) == 512);
    }
    assert forall|k: int| 0 <= k < net.features.len() implies #[trigger] stage_well_formed(st, k) by {
        if k == 0 {
        } else if k == 1 {
        } else if k == 2 {
        } else if k == 3 {
        } else if k == 4 {
        } else if k == 5 {
        } else if k == 6 {
        } else if k == 7 {
        } else if k == 8 {
        } else if k == 9 {
        } else if k == 10 {
        } else if k == 11 {
        } else {
        }
    }
}

/// The squeeze widths of the fire modules among `stages`, in order.
pub open spec fn fire_squeeze_widths(stages: Seq<SqueezeNetStage>) -> Seq<i64>
    decreases stages.len(),
{
    if stages.len() == 0 {
        Seq::empty()
    } else {
        let rest = fire_squeeze_widths(stages.drop_last());
        match stages.last() {
            SqueezeNetStage::Fire(f) => rest.push(f.squeeze.c_out),
            _ => rest,
        }
    }
}

proof fn lemma_widths_step(st: Seq<SqueezeNetStage>, k: int)
    requires
        0 <= k < st.len(),
    ensures
        fire_squeeze_widths(st.take(k + 1)) == match st[k] {
            SqueezeNetStage::Fire(f) => fire_squeeze_widths(st.take(k)).push(f.squeeze.c_out),
            _ => fire_squeeze_widths(st.take(k)),
        },
{
    assert(st.take(k + 1).drop_last() =~= st.take(k));
    assert(st.take(k + 1).last() == st[k]);
}

/// Law: SqueezeNet (1.0 and 1.1 alike) has eight fire modules, whose
/// squeeze layers have 16, 16, 32, 32, 48, 48, 64 and 64 channels, in
/// order, after a first convolution of 96 channels with a 7x7 kernel (1.0)
/// or 64 channels with a 3x3 kernel (1.1), stride 2, and a ReLU; in every
/// fire module both expansions have four times the
/// squeeze width; the features pool with 3x3 windows and stride 2,
/// rounding up, after stages 1, 5 and 10 (1.0) or 1, 4 and 7 (1.1) and
/// nowhere else; and the features end with 512 channels.
pub proof fn lemma_squeezenet_fire_widths(
    net: SqueezeNet,
    p: Seq<Seq<char>>,
    v1_0: bool,
    nclasses: int,
)
    requires
        is_squeezenet(net, p, v1_0, nclasses),
    ensures
        fire_squeeze_widths(net.features@) == seq![16i64, 16, 32, 32, 48, 48, 64, 64],
        forall|k: int|
            0 <= k < net.features.len() ==> (#[trigger] net.features@[k] matches SqueezeNetStage::Fire(
                f,
            ) ==> f.expand1x1.c_out == 4 * f.squeeze.c_out && f.expand3x3.c_out == 4
                * f.squeeze.c_out),
        forall|k: int|
            0 <= k < net.features.len() ==> ((#[trigger] net.features@[k] is MaxPool) <==> if v1_0 {
                k == 2 || k == 6 || k == 11
            } else {
                k == 2 || k == 5 || k == 8
            }),
        forall|k: int|
            0 <= k < net.features.len() ==> (#[trigger] net.features@[k] matches SqueezeNetStage::MaxPool(
                m,
            ) ==> m.ksize == 3 && m.stride == 2 && m.padding == 0 && m.ceil_mode),
        net.features.len() == 13,
        net.features@[0] matches SqueezeNetStage::Conv(c) && c.c_in == 3 && c.stride == 2
            && c.padding == (0i64, 0i64) && if v1_0 {
            c.c_out == 96 && c.ksize == (7i64, 7i64)
        } else {
            c.c_out == 64 && c.ksize == (3i64, 3i64)
        },
        net.features@[1] is Relu,
        net.classifier.c_in == 512,
{
    let plan = squeezenet_plan(v1_0);
    let st = net.features@;
    let f = p.push("features"@);
    assert(stage_matches(st[0], f.push(decimal(0)), plan[0]));
    assert(stage_matches(st[1], f.push(decimal(1)), plan[1]));
    assert(stage_matches(st[2], f.push(decimal(2)), plan[2]));
    assert(stage_matches(st[3], f.push(decimal(3)), plan[3]));
    assert(stage_matches(st[4], f.push(decimal(4)), plan[4]));
    assert(stage_matches(st[5], f.push(decimal(5)), plan[5]));
    assert(stage_matches(st[6], f.push(decimal(6)), plan[6]));
    assert(stage_matches(st[7], f.push(decimal(7)), plan[7]));
    assert(stage_matches(st[8], f.push(decimal(8)), plan[8]));
    assert(stage_matches(st[9], f.push(decimal(9)), plan[9]));
    assert(stage_matches(st[10], f.push(decimal(10)), plan[10]));
    assert(stage_matches(st[11], f.push(decimal(11)), plan[11]));
    assert(stage_matches(st[12], f.push(decimal(12)), plan[12]));
    let w = |k: int| fire_squeeze_widths(st.take(k));
    assert(st.take(0) =~= Seq::<SqueezeNetStage>::empty());
    lemma_widths_step(st, 0);
    lemma_widths_step(st, 1);
    lemma_widths_step(st, 2);
    lemma_widths_step(st, 3);
    lemma_widths_step(st, 4);
    lemma_widths_step(st, 5);
    lemma_widths_step(st, 6);
    lemma_widths_step(st, 7);
    lemma_widths_step(st, 8);
    lemma_widths_step(st, 9);
    lemma_widths_step(st, 10);
    lemma_widths_step(st, 11);
    lemma_widths_step(st, 12);
    assert(st.take(13) =~= st);
    if v1_0 {
        assert(w(1) =~= seq![]);
        assert(w(2) =~= seq![]);
        assert(w(3) =~= seq![]);
        assert(w(4) =~= seq![16i64]);
        assert(w(5) =~= seq![16i64, 16]);
        assert(w(6) =~= seq![16i64, 16, 32]);
        assert(w(7) =~= seq![16i64, 16, 32]);
        assert(w(8) =~= seq![16i64, 16, 32, 32]);
        assert(w(9) =~= seq![16i64, 16, 32, 32, 48]);
        assert(w(10) =~= seq![16i64, 16, 32, 32, 48, 48]);
        assert(w(11) =~= seq![16i64, 16, 32, 32, 48, 48, 64]);
        assert(w(12) =~= seq![16i64, 16, 32, 32, 48, 48, 64]);
        assert(w(13) =~= seq![16i64, 16, 32, 32, 48, 48, 64, 64]);
    } else {
        assert(w(1) =~= seq![]);
        assert(w(2) =~= seq![]);
        assert(w(3) =~= seq![]);
        assert(w(4) =~= seq![16i64]);
        assert(w(5) =~= seq![16i64, 16]);
        assert(w(6) =~= seq![16i64, 16]);
        assert(w(7) =~= seq![16i64, 16, 32]);
        assert(w(8) =~= seq![16i64, 16, 32, 32]);
        assert(w(9) =~= seq![16i64, 16, 32, 32]);
        assert(w(10) =~= seq![16i64, 16, 32, 32, 48]);
        assert(w(11) =~= seq![16i64, 16, 32, 32, 48, 48]);
        assert(w(12) =~= seq![16i64, 16, 32, 32, 48, 48, 64]);
        assert(w(13) =~= seq![16i64, 16, 32, 32, 48, 48, 64, 64]);
    }
    assert forall|k: int| 0 <= k < net.features.len() implies (#[trigger] net.features@[k] matches SqueezeNetStage::Fire(
        fm,
    ) ==> fm.expand1x1.c_out == 4 * fm.squeeze.c_out && fm.expand3x3.c_out == 4 * fm.squeeze.c_out) by {
        assert(stage_matches(st[k], f.push(decimal(k as nat)), plan[k]));
    }
}

} // verus!
