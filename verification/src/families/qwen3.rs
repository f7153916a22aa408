//! Qwen3: Llama-shaped plus per-head QK-Norm (an RMSNorm on q and k after
//! their projections, before RoPE). No QKV bias; tied embeddings; large RoPE
//! base. The `QkNorm` block is the one structural addition over Llama.

use vstd::prelude::*;

use super::{Family, Params};
use crate::arch::{Block, Mask, Proj};

verus! {

/// The Qwen3 decoder layer.
pub open spec fn spec_layer() -> Seq<Block> {
    seq![
        Block::ResidualSave,
        Block::RmsNorm,
        Block::Linear(Proj::Q),
        Block::Linear(Proj::K),
        Block::Linear(Proj::V),
        Block::QkNorm,
        Block::Rope,
        Block::Attention(Mask::Causal),
        Block::Linear(Proj::O),
        Block::ResidualAdd,
        Block::ResidualSave,
        Block::RmsNorm,
        Block::Linear(Proj::Gate),
        Block::Linear(Proj::Up),
        Block::SwiGlu,
        Block::Linear(Proj::Down),
        Block::ResidualAdd,
    ]
}

/// The Qwen3 scalars: eps 1e-6 (`0x358637bd`), RoPE base 1e6 (`0x49742400`).
pub open spec fn spec_params() -> Params {
    Params {
        eps_bits: 0x358637bd,
        rope_theta_bits: 0x49742400,
        sliding_window: None,
        final_logit_softcap_bits: None,
    }
}

pub fn family() -> (f: Family)
    ensures
        f.name@ == "qwen3"@,
        f.params == spec_params(),
        f.layer@ == spec_layer(),
{
    let layer = vec![
        Block::ResidualSave,
        Block::RmsNorm,
        Block::Linear(Proj::Q),
        Block::Linear(Proj::K),
        Block::Linear(Proj::V),
        Block::QkNorm,
        Block::Rope,
        Block::Attention(Mask::Causal),
        Block::Linear(Proj::O),
        Block::ResidualAdd,
        Block::ResidualSave,
        Block::RmsNorm,
        Block::Linear(Proj::Gate),
        Block::Linear(Proj::Up),
        Block::SwiGlu,
        Block::Linear(Proj::Down),
        Block::ResidualAdd,
    ];
    assert(layer@ =~= spec_layer());
    Family {
        name: "qwen3",
        params: Params {
            eps_bits: 0x358637bd,
            rope_theta_bits: 0x49742400,
            sliding_window: None,
            final_logit_softcap_bits: None,
        },
        layer,
    }
}

} // verus!
