//! Sparse layers: the configuration of an embedding layer.
use vstd::prelude::*;

verus! {

/// Configuration option for an embedding layer, with weights initialized
/// by `ws_init`.
#[derive(Debug, Clone, Copy)]
pub struct EmbeddingConfig<I> {
    pub sparse: bool,
    pub scale_grad_by_freq: bool,
    pub ws_init: I,
    /// The row that embeds padding tokens to zero; `-1` for none, and
    /// Python-style indices from the end below `-1`.
    pub padding_idx: i64,
}

impl<I> EmbeddingConfig<I> {
    /// The default configuration, with weights initialized by `ws_init`:
    /// dense gradients, not scaled by frequency, no padding row.
    pub fn with_init(ws_init: I) -> (c: Self)
        ensures
            !c.sparse,
            !c.scale_grad_by_freq,
            c.ws_init == ws_init,
            c.padding_idx == -1,
    {
        EmbeddingConfig { sparse: false, scale_grad_by_freq: false, ws_init, padding_idx: -1 }
    }
}

/// The padding index an embedding of `num_embeddings` rows works with:
/// Python normalizes negative indices (`-2` is the second-to-last row, and
/// so on); `-1` is kept as the "no padding" sentinel, so a Python
/// `padding_idx` of `-1` is `num_embeddings - 1` here.
pub open spec fn normalized_padding_idx(padding_idx: int, num_embeddings: int) -> int {
    if padding_idx < -1 {
        padding_idx + num_embeddings
    } else {
        padding_idx
    }
}

/// The configuration an embedding of `num_embeddings` rows is built with,
/// and the row of its weight that is zeroed after initialization: the
/// padding row, when it is a row of the weight. PyTorch zeroes it so that
/// padding tokens embed to an exact zero vector.
pub fn embedding_layout<I>(num_embeddings: i64, config: EmbeddingConfig<I>) -> (r: (
    EmbeddingConfig<I>,
    Option<i64>,
))
    requires
        config.padding_idx < -1 ==> i64::MIN <= config.padding_idx + num_embeddings,
    ensures
        r.0.sparse == config.sparse,
        r.0.scale_grad_by_freq == config.scale_grad_by_freq,
        r.0.ws_init == config.ws_init,
        r.0.padding_idx == normalized_padding_idx(config.padding_idx as int, num_embeddings as int),
        r.1 == if 0 <= r.0.padding_idx < num_embeddings {
            Some(r.0.padding_idx)
        } else {
            None
        },
{
    let mut config = config;
    if config.padding_idx < -1 {
        config.padding_idx = config.padding_idx + num_embeddings;
    }
    let zeroed = if config.padding_idx >= 0 && config.padding_idx < num_embeddings {
        Some(config.padding_idx)
    } else {
        None
    };
    (config, zeroed)
}

} // verus!
