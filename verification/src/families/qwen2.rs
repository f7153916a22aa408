//! Qwen2 / Qwen2.5: Llama-shaped with QKV bias (the q/k/v projections carry a
//! bias; the output projection does not) and tied embeddings. No QK-Norm. The
//! bias is a weight detail of each `Linear`, not a block of its own.

use vstd::prelude::*;

use super::{Family, Params};
use crate::arch::{Block, Mask, Proj};
use crate::kernels::{Activation, NormKind};

verus! {

/// The Qwen2 decoder layer (the Llama shape).
pub open spec fn spec_layer() -> Seq<Block> {
    seq![
        Block::ResidualSave,
        Block::RmsNorm,
        Block::Linear(Proj::Q),
        Block::Linear(Proj::K),
        Block::Linear(Proj::V),
        Block::Rope,
        Block::Attention(Mask::Causal),
        Block::Linear(Proj::O),
        Block::ResidualAdd,
        Block::ResidualSave,
        Block::RmsNorm,
        Block::Linear(Proj::Gate),
        Block::Linear(Proj::Up),
        Block::SwiGlu,
        Block::Linear(Proj::Down),
        Block::ResidualAdd,
    ]
}

/// The Qwen2 scalars: eps 1e-6 (`0x358637bd`), RoPE base 1e6 (`0x49742400`).
pub open spec fn spec_params() -> Params {
    Params {
        eps_bits: 0x358637bd,
        rope_theta_bits: 0x49742400,
        sliding_window: None,
        final_logit_softcap_bits: None,
    }
}

pub fn family() -> (f: Family)
    ensures
        f.name@ == "qwen2"@,
        f.params == spec_params(),
        f.layer@ == spec_layer(),
{
    let layer = vec![
        // attention sublayer
        Block::ResidualSave,
        Block::RmsNorm,
        Block::Linear(Proj::Q),
        Block::Linear(Proj::K),
        Block::Linear(Proj::V),
        Block::Rope,
        Block::Attention(Mask::Causal),
        Block::Linear(Proj::O),
        Block::ResidualAdd,
        // MLP sublayer
        Block::ResidualSave,
        Block::RmsNorm,
        Block::Linear(Proj::Gate),
        Block::Linear(Proj::Up),
        Block::SwiGlu,
        Block::Linear(Proj::Down),
        Block::ResidualAdd,
    ];
    assert(layer@ =~= spec_layer());
    Family {
        name: "qwen2",
        params: Params {
            eps_bits: 0x358637bd,
            rope_theta_bits: 0x49742400,
            sliding_window: None,
            final_logit_softcap_bits: None,
        },
        layer,
    }
}

/// Which weight-level and structural features the Qwen2 family uses.
#[derive(Clone, Copy, Debug)]
pub struct FamilySpec {
    pub name: &'static str,
    pub norm: NormKind,
    pub activation: Activation,
    pub use_qk_norm: bool,
    pub attn_qkv_bias: bool,
    pub attn_o_bias: bool,
    pub tie_word_embeddings: bool,
    /// binary32 bit pattern of the default RoPE base.
    pub default_rope_theta_bits: u32,
    pub sliding_window: Option<u32>,
    /// binary32 bit pattern of the final-logit soft cap, if any.
    pub final_logit_softcap_bits: Option<u32>,
}

/// The Qwen2 feature set: plain norm, SwiGLU, no QK-Norm, QKV bias without an
/// output bias, tied embeddings, RoPE base 1e6 (`0x49742400`).
pub fn spec() -> (s: FamilySpec)
    ensures
        s.name@ == "qwen2"@,
        s.norm == NormKind::Plain,
        s.activation == Activation::SwiGlu,
        !s.use_qk_norm,
        s.attn_qkv_bias,
        !s.attn_o_bias,
        s.tie_word_embeddings,
        s.default_rope_theta_bits == 0x49742400,
        s.sliding_window is None,
        s.final_logit_softcap_bits is None,
{
    FamilySpec {
        name: "qwen2",
        norm: NormKind::Plain,
        activation: Activation::SwiGlu,
        use_qk_norm: false,
        attn_qkv_bias: true,
        attn_o_bias: false,
        tie_word_embeddings: true,
        default_rope_theta_bits: 0x49742400,
        sliding_window: None,
        final_logit_softcap_bits: None,
    }
}

} // verus!
