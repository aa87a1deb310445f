use tch::nn::init::{FanInOut, NormalOrUniform};
use tch::nn::layers::{AvgPool2d, Dropout, MaxPool2d, Op, WeightInit};
use tch::nn::path::Path;
use tch::vision::inception::{self, BranchOutput, InceptionStage, InceptionV3Config};
use tch::vision::mobilenet;
use tch::vision::squeezenet::{self, Expansion, SqueezeNetStage};

fn name(p: &Path) -> String {
    p.components.join(".")
}

#[test]
fn mobilenet_v2_layout() {
    let root = Path::root();
    let net = mobilenet::v2(&root, 1000);
    assert_eq!(name(&net.stem.conv.path), "features.0.0");
    assert_eq!(net.stem.conv.c_out, 32);
    assert_eq!(net.stem.conv.stride, 2);
    assert_eq!(net.blocks.len(), 17);
    // The first block does not expand, so its depthwise conv comes first.
    let b0 = &net.blocks[0];
    assert!(b0.expand.is_none());
    assert_eq!(name(&b0.depthwise.conv.path), "features.1.conv.0.0");
    assert_eq!(name(&b0.project.path), "features.1.conv.1");
    assert_eq!(name(&b0.project_bn.path), "features.1.conv.2");
    assert_eq!((b0.c_in, b0.c_out), (32, 16));
    // Block 2 repeats the 24-channel setting: stride 1 and a residual.
    let b2 = &net.blocks[2];
    assert_eq!((b2.c_in, b2.c_out, b2.stride), (24, 24, 1));
    assert!(b2.residual);
    let e = b2.expand.as_ref().unwrap();
    assert_eq!(name(&e.conv.path), "features.3.conv.0.0");
    assert_eq!(e.conv.c_out, 144);
    assert_eq!(b2.depthwise.conv.groups, 144);
    assert_eq!(name(&b2.project.path), "features.3.conv.2");
    // Strided blocks have no residual.
    assert!(!net.blocks[1].residual);
    assert_eq!(net.blocks[1].stride, 2);
    assert_eq!(net.blocks[16].c_out, 320);
    assert_eq!(name(&net.head.conv.path), "features.18.0");
    assert_eq!((net.head.conv.c_in, net.head.conv.c_out), (320, 1280));
    assert_eq!(name(&net.classifier.path), "classifier.1");
    assert_eq!((net.classifier.in_dim, net.classifier.out_dim), (1280, 1000));
    assert_eq!(net.classifier.ws_init, WeightInit::Normal { std_pow10: 2 });
    assert_eq!(
        net.before_classifier,
        vec![Op::GlobalAvgPool, Op::Flatten, Op::Dropout(Dropout { percent: 20 })]
    );
    assert_eq!(
        net.stem.conv.ws_init,
        WeightInit::KaimingRelu { dist: NormalOrUniform::Normal, fan: FanInOut::FanOut }
    );
}

#[test]
fn mobilenet_v2_channels_chain() {
    let net = mobilenet::v2(&Path::root().sub("net"), 10);
    let mut c = net.stem.conv.c_out;
    for b in &net.blocks {
        assert_eq!(b.c_in, c);
        c = b.c_out;
    }
    assert_eq!(net.head.conv.c_in, c);
    assert_eq!(name(&net.blocks[5].depthwise.bn.path), "net.features.6.conv.1.1");
}

#[test]
fn squeezenet_layouts() {
    let net = squeezenet::v1_0(&Path::root(), 1000);
    assert_eq!(net.features.len(), 13);
    match &net.features[0] {
        SqueezeNetStage::Conv(c) => {
            assert_eq!(name(&c.path), "features.0");
            assert_eq!((c.c_in, c.c_out, c.ksize, c.stride), (3, 96, (7, 7), 2));
        }
        _ => panic!("the first stage is a convolution"),
    }
    let pool = MaxPool2d { ksize: 3, stride: 2, padding: 0, ceil_mode: true };
    assert!(matches!(net.features[6], SqueezeNetStage::MaxPool(m) if m == pool));
    match &net.features[12] {
        SqueezeNetStage::Fire(f) => {
            assert_eq!(name(&f.squeeze.path), "features.12.squeeze");
            assert_eq!(f.expand1x1.c_out + f.expand3x3.c_out, 512);
            assert_eq!(f.expand3x3.padding, (1, 1));
            assert_eq!(f.concat, vec![Expansion::Expand1x1, Expansion::Expand3x3]);
        }
        _ => panic!("the last stage is a fire module"),
    }
    assert_eq!(name(&net.classifier.path), "classifier.1");
    assert_eq!((net.classifier.c_in, net.classifier.c_out), (512, 1000));
    assert_eq!(net.before_classifier, vec![Op::Dropout(Dropout { percent: 50 })]);
    assert_eq!(net.after_classifier, vec![Op::Relu, Op::GlobalAvgPool, Op::Flatten]);

    let net = squeezenet::v1_1(&Path::root(), 10);
    match &net.features[0] {
        SqueezeNetStage::Conv(c) => assert_eq!((c.c_out, c.ksize), (64, (3, 3))),
        _ => panic!("the first stage is a convolution"),
    }
    assert!(matches!(net.features[5], SqueezeNetStage::MaxPool(m) if m == pool));
    assert!(matches!(net.features[8], SqueezeNetStage::MaxPool(m) if m == pool));
    assert_eq!(net.classifier.c_out, 10);
}

#[test]
fn inception_aux_logits() {
    // Checks the description of the network; its forward pass runs in
    // libtorch and is not checked here.
    let net = inception::v3(&Path::root(), 10);
    // The aux branch registers torchvision-named variables.
    let aux = net.aux.as_ref().expect("the default config builds the aux branch");
    assert_eq!(name(&aux.conv0.conv.path), "AuxLogits.conv0.conv");
    assert_eq!(name(&aux.conv1.conv.path), "AuxLogits.conv1.conv");
    assert_eq!(name(&aux.fc.path), "AuxLogits.fc");
    assert_eq!(aux.fc.out_dim, 10);
    assert_eq!((aux.pool.ksize, aux.pool.stride, aux.pool.divisor_override), (5, 3, Some(25)));
    assert_eq!(aux.before_fc, vec![Op::GlobalAvgPool, Op::Flatten]);
    assert_eq!(net.fc.out_dim, 10);
    // Training mode runs both towers; eval mode skips the aux branch.
    assert!(net.computes_aux_logits(true));
    assert!(!net.computes_aux_logits(false));
}

#[test]
fn inception_configs() {
    assert_eq!(
        InceptionV3Config::default(),
        InceptionV3Config { transform_input: true, aux_logits: true }
    );
    let net = inception::v3_no_transform_input(&Path::root(), 5);
    assert!(!net.transform_input);
    assert!(net.aux.is_some());
    let cfg = InceptionV3Config { transform_input: true, aux_logits: false };
    let net = inception::v3_with(&Path::root(), 5, cfg);
    assert!(net.transform_input);
    assert!(net.aux.is_none());
    assert!(!net.computes_aux_logits(true));
}

#[test]
fn inception_layout() {
    let net = inception::v3(&Path::root(), 1000);
    assert_eq!(net.pre_aux.len(), 15);
    assert_eq!(net.post_aux.len(), 3);
    match &net.pre_aux[0] {
        InceptionStage::Conv(b) => {
            assert_eq!(name(&b.conv.path), "Conv2d_1a_3x3.conv");
            assert_eq!(name(&b.bn.path), "Conv2d_1a_3x3.bn");
            assert_eq!(b.bn.eps_pow10, 3);
            assert_eq!(b.conv.ws_init, WeightInit::TruncatedNormal { std_pow10: 1 });
        }
        _ => panic!("the stem starts with a convolution"),
    }
    match &net.pre_aux[11] {
        InceptionStage::C(c) => {
            assert_eq!(name(&c.branch7x7_2.conv.path), "Mixed_6b.branch7x7_2.conv");
            assert_eq!(c.branch7x7_2.conv.ksize, (1, 7));
            assert_eq!(c.branch7x7_2.conv.padding, (0, 3));
            assert_eq!(c.branch7x7_1.conv.c_out, 128);
            assert_eq!(
                c.concat,
                vec![
                    BranchOutput::Branch1x1,
                    BranchOutput::Branch7x7,
                    BranchOutput::Branch7x7Dbl,
                    BranchOutput::BranchPool
                ]
            );
            assert_eq!(
                c.pool,
                AvgPool2d {
                    ksize: 3,
                    stride: 1,
                    padding: 1,
                    ceil_mode: false,
                    count_include_pad: true,
                    divisor_override: Some(9)
                }
            );
        }
        _ => panic!("Mixed_6b is an inception C block"),
    }
    match &net.post_aux[2] {
        InceptionStage::E(e) => {
            assert_eq!(e.branch1x1.conv.c_in, 2048);
            let out = e.branch1x1.conv.c_out
                + e.branch3x3_2a.conv.c_out
                + e.branch3x3_2b.conv.c_out
                + e.branch3x3dbl_3a.conv.c_out
                + e.branch3x3dbl_3b.conv.c_out
                + e.branch_pool.conv.c_out;
            assert_eq!(out, 2048);
        }
        _ => panic!("Mixed_7c is an inception E block"),
    }
    let pool = MaxPool2d { ksize: 3, stride: 2, padding: 0, ceil_mode: false };
    assert!(matches!(net.pre_aux[3], InceptionStage::MaxPool(m) if m == pool));
    match &net.post_aux[0] {
        InceptionStage::D(d) => {
            assert_eq!(d.pool, pool);
            assert_eq!(
                d.concat,
                vec![BranchOutput::Branch3x3, BranchOutput::Branch7x7x3, BranchOutput::MaxPool]
            );
        }
        _ => panic!("Mixed_7a is an inception D block"),
    }
    assert_eq!(
        net.before_fc,
        vec![Op::GlobalAvgPool, Op::Dropout(Dropout { percent: 50 }), Op::Flatten]
    );
    assert_eq!(name(&net.fc.path), "fc");
    assert_eq!(net.fc.in_dim, 2048);
}
