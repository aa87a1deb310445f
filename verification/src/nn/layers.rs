//! Plain descriptions of the layers a model is built from: the
//! hyper-parameters and the variable-store path of each layer.
use crate::nn::init::{FanInOut, NormalOrUniform};
use crate::nn::path::Path;
use vstd::prelude::*;

verus! {

/// How the weights or the biases of a layer are initialized.
#[derive(Debug, Clone, Copy, PartialEq, Eq, Structural)]
pub enum WeightInit {
    /// Kaiming initialization with the ReLU gain `sqrt(2)`.
    KaimingRelu { dist: NormalOrUniform, fan: FanInOut },
    /// Normal distribution with mean 0 and standard deviation
    /// `10^-std_pow10`.
    Normal { std_pow10: u32 },
    /// Normal distribution with mean 0 and standard deviation
    /// `10^-std_pow10`, truncated to `[-2, 2]`.
    TruncatedNormal { std_pow10: u32 },
    /// All values zero.
    Zeros,
}

/// A two-dimensional convolution.
pub struct Conv2d {
    pub path: Path,
    pub c_in: i64,
    pub c_out: i64,
    /// Kernel height and width.
    pub ksize: (i64, i64),
    pub stride: i64,
    /// Padding along the height and the width.
    pub padding: (i64, i64),
    pub groups: i64,
    /// Whether the layer has a bias.
    pub bias: bool,
    pub ws_init: WeightInit,
    /// Bias initialization; `None` keeps the default one, uniform in
    /// `[-1/sqrt(fan_in), 1/sqrt(fan_in)]`.
    pub bs_init: Option<WeightInit>,
}

/// A two-dimensional batch normalization.
pub struct BatchNorm2d {
    pub path: Path,
    pub channels: i64,
    /// The normalization epsilon is `10^-eps_pow10`.
    pub eps_pow10: u32,
}

/// The default batch-norm epsilon, `1e-5`.
pub const DEFAULT_BN_EPS_POW10: u32 = 5;

/// A fully connected layer.
pub struct Linear {
    pub path: Path,
    pub in_dim: i64,
    pub out_dim: i64,
    pub ws_init: WeightInit,
    /// Bias initialization; `None` keeps the default one.
    pub bs_init: Option<WeightInit>,
}

/// A 2-D max pooling over `ksize x ksize` windows, with dilation 1.
#[derive(Debug, Clone, Copy, PartialEq, Eq)]
pub struct MaxPool2d {
    pub ksize: i64,
    pub stride: i64,
    pub padding: i64,
    /// Whether the output size is rounded up rather than down.
    pub ceil_mode: bool,
}

/// A 2-D average pooling over `ksize x ksize` windows.
#[derive(Debug, Clone, Copy, PartialEq, Eq)]
pub struct AvgPool2d {
    pub ksize: i64,
    pub stride: i64,
    pub padding: i64,
    /// Whether the output size is rounded up rather than down.
    pub ceil_mode: bool,
    /// Whether padded positions count in the average.
    pub count_include_pad: bool,
    /// The divisor of every window's sum, when it is not the window size.
    pub divisor_override: Option<i64>,
}

/// Dropout: in training mode, each value is zeroed with probability
/// `percent / 100` and the others are scaled up to keep the mean.
#[derive(Debug, Clone, Copy, PartialEq, Eq)]
pub struct Dropout {
    pub percent: u32,
}

/// A step of a forward pass that holds no variables.
#[derive(Debug, Clone, Copy, PartialEq, Eq)]
pub enum Op {
    Relu,
    MaxPool(MaxPool2d),
    AvgPool(AvgPool2d),
    /// Adaptive average pooling to a 1x1 output.
    GlobalAvgPool,
    Dropout(Dropout),
    /// Flattening of all dimensions but the first.
    Flatten,
}

impl Conv2d {
    /// The convolution can be run: positive sizes, kernel and stride,
    /// non-negative padding, and channel counts divisible by the groups.
    pub open spec fn well_formed(&self) -> bool {
        &&& self.c_in > 0
        &&& self.c_out > 0
        &&& self.ksize.0 > 0
        &&& self.ksize.1 > 0
        &&& self.stride > 0
        &&& self.padding.0 >= 0
        &&& self.padding.1 >= 0
        &&& self.groups > 0
        &&& self.c_in % self.groups == 0
        &&& self.c_out % self.groups == 0
    }
}

} // verus!
