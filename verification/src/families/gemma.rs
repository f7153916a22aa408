//! Gemma 2/3: unit-shift RMSNorm (`1 + weight`), GeGLU, sliding-window
//! attention, and post-sublayer norms (a second RMSNorm on each sublayer output
//! before the residual add) in addition to the pre-norms. Final-logit
//! soft-capping is a sampler-side scalar in `params`.

use vstd::prelude::*;

use super::{Family, Params};
use crate::arch::{Block, Mask, Proj};

verus! {

/// The Gemma decoder layer.
pub open spec fn spec_layer() -> Seq<Block> {
    seq![
        Block::ResidualSave,
        Block::RmsNormUnit,
        Block::Linear(Proj::Q),
        Block::Linear(Proj::K),
        Block::Linear(Proj::V),
        Block::Rope,
        Block::Attention(Mask::Sliding(4096)),
        Block::Linear(Proj::O),
        Block::RmsNormUnit,
        Block::ResidualAdd,
        Block::ResidualSave,
        Block::RmsNormUnit,
        Block::Linear(Proj::Gate),
        Block::Linear(Proj::Up),
        Block::GeGlu,
        Block::Linear(Proj::Down),
        Block::RmsNormUnit,
        Block::ResidualAdd,
    ]
}

/// The shape of a Gemma layer: two sublayers back to back, each opened by
/// `ResidualSave` and a pre-norm and closed by a post-norm on the sublayer's
/// output followed by `ResidualAdd`; every norm is the unit-shift one.
pub proof fn lemma_layer_post_norms()
    ensures
        spec_layer().len() > 0,
        spec_layer()[0] == Block::ResidualSave,
        spec_layer().last() == Block::ResidualAdd,
        forall|i: int|
            0 <= i < spec_layer().len() && #[trigger] spec_layer()[i] == Block::ResidualAdd ==> i >= 1
                && spec_layer()[i - 1] == Block::RmsNormUnit,
        forall|i: int|
            0 <= i < spec_layer().len() && #[trigger] spec_layer()[i] == Block::ResidualSave ==> i
                + 1 < spec_layer().len() && spec_layer()[i + 1] == Block::RmsNormUnit,
        forall|i: int|
            0 <= i < spec_layer().len() - 1 && #[trigger] spec_layer()[i] == Block::ResidualAdd
                ==> spec_layer()[i + 1] == Block::ResidualSave,
        forall|i: int| 0 <= i < spec_layer().len() ==> #[trigger] spec_layer()[i] != Block::RmsNorm,
{
    let l = spec_layer();
    assert forall|i: int| 0 <= i < l.len() implies #[trigger] l[i] != Block::RmsNorm by {
        assert(0 <= i < 18);
    }
    assert forall|i: int| 0 <= i < l.len() && #[trigger] l[i] == Block::ResidualAdd implies i >= 1
        && l[i - 1] == Block::RmsNormUnit by {
        assert(0 <= i < 18);
    }
    assert forall|i: int| 0 <= i < l.len() && #[trigger] l[i] == Block::ResidualSave implies i + 1
        < l.len() && l[i + 1] == Block::RmsNormUnit by {
        assert(0 <= i < 18);
    }
    assert forall|i: int| 0 <= i < l.len() - 1 && #[trigger] l[i] == Block::ResidualAdd implies l[i
        + 1] == Block::ResidualSave by {
        assert(0 <= i < 18);
    }
}

/// The Gemma scalars: eps 1e-6 (`0x358637bd`), RoPE base 10000 (`0x461c4000`),
/// a 4096-token sliding window, final-logit soft cap 30 (`0x41f00000`).
pub open spec fn spec_params() -> Params {
    Params {
        eps_bits: 0x358637bd,
        rope_theta_bits: 0x461c4000,
        sliding_window: Some(4096),
        final_logit_softcap_bits: Some(0x41f00000),
    }
}

pub fn family() -> (f: Family)
    ensures
        f.name@ == "gemma"@,
        f.params == spec_params(),
        f.layer@ == spec_layer(),
{
    let layer = vec![
        Block::ResidualSave,
        Block::RmsNormUnit,
        Block::Linear(Proj::Q),
        Block::Linear(Proj::K),
        Block::Linear(Proj::V),
        Block::Rope,
        Block::Attention(Mask::Sliding(4096)),
        Block::Linear(Proj::O),
        Block::RmsNormUnit, // <- Gemma post-norm
        Block::ResidualAdd,
        Block::ResidualSave,
        Block::RmsNormUnit,
        Block::Linear(Proj::Gate),
        Block::Linear(Proj::Up),
        Block::GeGlu,
        Block::Linear(Proj::Down),
        Block::RmsNormUnit, // <- Gemma post-norm
        Block::ResidualAdd,
    ];
    assert(layer@ =~= spec_layer());
    Family {
        name: "gemma",
        params: Params {
            eps_bits: 0x358637bd,
            rope_theta_bits: 0x461c4000,
            sliding_window: Some(4096),
            final_logit_softcap_bits: Some(0x41f00000),
        },
        layer,
    }
}

} // verus!
