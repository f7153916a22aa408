//! RoPE (rotate-half) building block.

use vstd::prelude::*;

use super::{div_ceil, spec_div_ceil, Launch};

verus! {

/// `rows × head_dim` at position `pos`: uniform `[rows, head_dim, pos,
/// theta_bits]`, `ceil(rows/64)` workgroups.
pub fn launch(rows: usize, head_dim: usize, pos: usize, theta_bits: u32) -> (l: Launch)
    ensures
        l.uniform@ == seq![rows as u32, head_dim as u32, pos as u32, theta_bits],
        l.groups == (spec_div_ceil((rows as u32) as int, 64) as u32, 1u32, 1u32),
{
    let rows32 = rows as u32;
    Launch {
        uniform: vec![rows32, head_dim as u32, pos as u32, theta_bits],
        groups: (div_ceil(rows32, 64), 1, 1),
    }
}

} // verus!
