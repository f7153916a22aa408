//! Single-query attention with GQA, and the elementwise residual add.

use vstd::prelude::*;

use super::Launch;

verus! {

/// One workgroup per query head. The 32-byte uniform holds `n_heads`,
/// `n_kv_heads`, `seq`, `head_dim` and the binary32 bits of the score scale
/// (`head_dim^-1/2`, computed by the caller), then zero padding.
pub fn launch(n_heads: usize, n_kv_heads: usize, seq: usize, head_dim: usize, scale_bits: u32) -> (l:
    Launch)
    ensures
        l.uniform@ == seq![
            n_heads as u32,
            n_kv_heads as u32,
            seq as u32,
            head_dim as u32,
            scale_bits,
            0u32,
            0u32,
            0u32,
        ],
        l.groups == (n_heads as u32, 1u32, 1u32),
{
    Launch {
        uniform: vec![n_heads as u32, n_kv_heads as u32, seq as u32, head_dim as u32, scale_bits, 0, 0, 0],
        groups: (n_heads as u32, 1, 1),
    }
}

} // verus!
