use tch::format::{decimal_string, dims_debug_string, int_string};
use tch::nn::optimizer::{
    bucket_updates, BucketKey, ForeachHyper, FusedStep, GroupSetting, StepCounter, StepUpdate,
    VarPlacement,
};
use tch::nn::path::Path;
use tch::nn::sparse::{embedding_layout, EmbeddingConfig};
use tch::{Device, Kind};

#[test]
fn embedding_padding_row_is_zero() {
    // Checks which row is zeroed; the weight itself lives in libtorch and is
    // not checked here.
    let config = EmbeddingConfig { padding_idx: 2, ..EmbeddingConfig::with_init(()) };
    let (config, zeroed) = embedding_layout(5, config);
    assert_eq!(config.padding_idx, 2);
    assert_eq!(zeroed, Some(2));
    // The default config (padding_idx = -1) means no padding handling: no
    // row is zeroed, in particular not the last one.
    let (config, zeroed) = embedding_layout(5, EmbeddingConfig::with_init(()));
    assert_eq!(config.padding_idx, -1);
    assert_eq!(zeroed, None);
}

#[test]
fn embedding_negative_padding_counts_from_the_end() {
    let config = EmbeddingConfig { padding_idx: -2, ..EmbeddingConfig::with_init("randn") };
    let (config, zeroed) = embedding_layout(5, config);
    assert_eq!(config.padding_idx, 3);
    assert_eq!(zeroed, Some(3));
    assert_eq!(config.ws_init, "randn");
    assert!(!config.sparse && !config.scale_grad_by_freq);
    // Out of range: nothing is zeroed.
    let config = EmbeddingConfig { padding_idx: 9, ..EmbeddingConfig::with_init(()) };
    assert_eq!(embedding_layout(5, config).1, None);
    let config = EmbeddingConfig { padding_idx: -7, ..EmbeddingConfig::with_init(()) };
    assert_eq!(embedding_layout(5, config).1, None);
}

#[test]
fn group_settings_override_and_reset() {
    let mut lr = GroupSetting::new(0.1f64);
    assert_eq!(lr.get(0), 0.1);
    // Group 1 gets lr 0: the other groups keep the default.
    lr.set_group(1, 0.0);
    assert_eq!(lr.get(1), 0.0);
    assert_eq!(lr.get(0), 0.1);
    assert_eq!(lr.get(7), 0.1);
    // Setting the global rate applies to every group.
    lr.set_all(0.5);
    assert_eq!(lr.get(1), 0.5);
    assert_eq!(lr.get(0), 0.5);
}

#[test]
fn step_counts_start_lazily() {
    let mut steps = StepCounter::new();
    let u = steps.advance(&[true, false, true]);
    assert_eq!(
        u,
        vec![
            StepUpdate { index: 0, step: 1, fresh: true },
            StepUpdate { index: 2, step: 1, fresh: true },
        ]
    );
    // A variable added since the last step, and one getting its first
    // gradient.
    let u = steps.advance(&[true, true, false, true]);
    assert_eq!(
        u,
        vec![
            StepUpdate { index: 0, step: 2, fresh: false },
            StepUpdate { index: 1, step: 1, fresh: true },
            StepUpdate { index: 3, step: 1, fresh: true },
        ]
    );
    assert!(steps.advance(&[false, false, false, false]).is_empty());
    let u = steps.advance(&[false, false, true, false]);
    assert_eq!(u, vec![StepUpdate { index: 2, step: 2, fresh: false }]);
}

#[test]
fn paths_name_variables() {
    let p = Path::root().sub("features").sub_index(12).sub("conv");
    assert_eq!(p.components.join("."), "features.12.conv");
    assert!(Path::root().components.is_empty());
}

#[test]
fn decimal_notations() {
    assert_eq!(decimal_string(0), "0");
    assert_eq!(decimal_string(1234567890), "1234567890");
    assert_eq!(decimal_string(u64::MAX), u64::MAX.to_string());
    assert_eq!(int_string(-45), "-45");
    assert_eq!(int_string(i64::MIN), i64::MIN.to_string());
    assert_eq!(dims_debug_string(&[1, -2, 3]), format!("{:?}", [1, -2, 3]));
    assert_eq!(dims_debug_string(&[]), "[]");
}

#[test]
fn buckets_group_by_group_device_kind_and_step() {
    let on = |group: usize, device: Device, kind: Kind| VarPlacement { group, device, kind };
    let vars = [
        on(0, Device::Cpu, Kind::Float),
        on(1, Device::Cpu, Kind::Float),
        on(0, Device::Cpu, Kind::Float),
        on(0, Device::Cuda(0), Kind::Float),
        on(0, Device::Cpu, Kind::Half),
        on(0, Device::Cpu, Kind::Float),
    ];
    let mut steps = StepCounter::new();
    // Variable 5 takes its first step a step later than the others.
    steps.advance(&[true, true, true, true, true, false]);
    let updates = steps.advance(&[true, true, true, true, true, true]);
    let buckets = bucket_updates(&updates, &vars);
    let mut got: Vec<(BucketKey, Vec<usize>)> =
        buckets.into_iter().map(|b| (b.key, b.indices)).collect();
    got.sort_by_key(|(_, indices)| indices[0]);
    let key = |group: usize, device: Device, kind: Kind, step: i64| BucketKey {
        group,
        device,
        kind,
        step,
    };
    assert_eq!(
        got,
        vec![
            (key(0, Device::Cpu, Kind::Float, 2), vec![0, 2]),
            (key(1, Device::Cpu, Kind::Float, 2), vec![1]),
            (key(0, Device::Cuda(0), Kind::Float, 2), vec![3]),
            (key(0, Device::Cpu, Kind::Half, 2), vec![4]),
            (key(0, Device::Cpu, Kind::Float, 1), vec![5]),
        ]
    );
    assert!(bucket_updates(&[], &vars).is_empty());
}

#[test]
fn set_momentum_group_works_for_adam() {
    // Checks the per-group setting only; the libtorch optimizer is not
    // checked here.
    // For Adam the momentum of a group is its beta1.
    let mut beta1 = GroupSetting::new(0.9f64);
    beta1.set_group(0, 0.8);
    assert_eq!(beta1.get(0), 0.8);
    assert_eq!(beta1.get(1), 0.9);
}

#[test]
fn foreach_adamw_respects_group_lr_and_zero_grad() {
    // Checks the buckets and their learning rates only; the fused kernels
    // and the gradients run in libtorch and are not checked here.
    // Group 1 gets lr 0: the bucket of its variable steps with lr 0.
    let mut lr = GroupSetting::new(1e-1f64);
    lr.set_group(1, 0.0);
    let vars = [
        VarPlacement { group: 1, device: Device::Cpu, kind: Kind::Float },
        VarPlacement { group: 0, device: Device::Cpu, kind: Kind::Float },
    ];
    let mut steps = StepCounter::new();
    for step in 1..=3i64 {
        let updates = steps.advance(&[true, true]);
        let buckets = bucket_updates(&updates, &vars);
        assert_eq!(buckets.len(), 2);
        for b in &buckets {
            assert_eq!(b.key.step, step);
            let expected = if b.key.group == 1 { vec![0] } else { vec![1] };
            assert_eq!(b.indices, expected);
            let rate = lr.get(b.key.group);
            assert_eq!(rate, if b.key.group == 1 { 0.0 } else { 1e-1 });
        }
    }
}

#[test]
fn fused_steps_take_their_group_settings() {
    let mut hyper = ForeachHyper {
        lr: GroupSetting::new(0.1f64),
        beta1: GroupSetting::new(0.9),
        beta2: 0.999,
        wd: GroupSetting::new(0.01),
        eps: 1e-8,
        amsgrad: false,
        decoupled_wd: true,
    };
    hyper.lr.set_group(1, 0.0);
    hyper.beta1.set_group(2, 0.8);
    let key = |group: usize| BucketKey { group, device: Device::Cpu, kind: Kind::Float, step: 3 };
    assert_eq!(
        hyper.fused_step(&key(1)),
        FusedStep {
            step: 3,
            lr: 0.0,
            beta1: 0.9,
            beta2: 0.999,
            wd: 0.01,
            eps: 1e-8,
            amsgrad: false,
            decoupled_wd: true
        }
    );
    assert_eq!(hyper.fused_step(&key(2)).beta1, 0.8);
    assert_eq!(hyper.fused_step(&key(2)).lr, 0.1);
    hyper.lr.set_all(0.5);
    assert_eq!(hyper.fused_step(&key(1)).lr, 0.5);
}
