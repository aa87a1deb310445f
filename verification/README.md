# tch

Rust bindings for libtorch, with the logic that decides around the libtorch
calls verified by Verus.

- `src/` is the verified library: element kinds and devices and their codes,
  the shape and buffer checks of the tensor wrapper and their error messages,
  the reshaping of tensor data into nested vectors, the iteration over a
  tensor's elements, the fan and orthogonal-shape computations of the
  initializers, the bookkeeping of the multi-tensor optimizers (per-group
  settings, step counts, buckets of fused calls and their arguments), the
  embedding padding row, the decoding of CIFAR-10 batches, the parameters of
  the data augmentations, and the layer-by-layer descriptions of
  MobileNetV2, SqueezeNet and Inception v3 (layers, pooling, dropout and
  concatenation order) with the laws that they are well-formed chains of
  layers.
- `app/` is the part that talks to libtorch through `torch-sys`: the `Tensor`
  handle, the floating-point initializations, scalars and optimizer
  configurations, the tensor operators and conversions, and the reading of
  dataset files. Where it takes one of the decisions above, it calls the
  verified function for it.
- Not here: the optimizer itself, the embedding layer, the variable store,
  the forward passes of the models, the dataset iterators,
  `clip_grad_norm` and per-device `autocast_device`. They need the variable
  store, the generated libtorch operators or C functions that `torch-sys`
  does not provide, so the optimizer bookkeeping, the embedding layout and
  the model descriptions of `src/` have no caller in `app/`.
- `tests/` runs the verified library on concrete values.
