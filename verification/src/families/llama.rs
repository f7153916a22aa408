//! Llama-shaped baseline, also the fallback for Mistral / Phi-3 and unknown
//! archs. Plain RMSNorm, SwiGLU, GQA, RoPE; no QK-Norm. Pre-norm only.

use vstd::prelude::*;

use super::{Family, Params};
use crate::arch::{Block, Mask, Proj};

verus! {

/// The Llama decoder layer.
pub open spec fn spec_layer() -> Seq<Block> {
    seq![
        Block::ResidualSave,
        Block::RmsNorm,
        Block::Linear(Proj::Q),
        Block::Linear(Proj::K),
        Block::Linear(Proj::V),
        Block::Rope,
        Block::Attention(Mask::Causal),
        Block::Linear(Proj::O),
        Block::ResidualAdd,
        Block::ResidualSave,
        Block::RmsNorm,
        Block::Linear(Proj::Gate),
        Block::Linear(Proj::Up),
        Block::SwiGlu,
        Block::Linear(Proj::Down),
        Block::ResidualAdd,
    ]
}

/// The Llama scalars: eps 1e-5 (`0x3727c5ac`), RoPE base 10000 (`0x461c4000`).
pub open spec fn spec_params() -> Params {
    Params {
        eps_bits: 0x3727c5ac,
        rope_theta_bits: 0x461c4000,
        sliding_window: None,
        final_logit_softcap_bits: None,
    }
}

pub fn family() -> (f: Family)
    ensures
        f.name@ == "llama"@,
        f.params == spec_params(),
        f.layer@ == spec_layer(),
{
    let layer = vec![
        // attention sublayer
        Block::ResidualSave,
        Block::RmsNorm,
        Block::Linear(Proj::Q),
        Block::Linear(Proj::K),
        Block::Linear(Proj::V),
        Block::Rope,
        Block::Attention(Mask::Causal),
        Block::Linear(Proj::O),
        Block::ResidualAdd,
        // MLP sublayer
        Block::ResidualSave,
        Block::RmsNorm,
        Block::Linear(Proj::Gate),
        Block::Linear(Proj::Up),
        Block::SwiGlu,
        Block::Linear(Proj::Down),
        Block::ResidualAdd,
    ];
    assert(layer@ =~= spec_layer());
    Family {
        name: "llama",
        params: Params {
            eps_bits: 0x3727c5ac,
            rope_theta_bits: 0x461c4000,
            sliding_window: None,
            final_logit_softcap_bits: None,
        },
        layer,
    }
}

} // verus!
