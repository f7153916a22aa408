//! Whole MLP sublayer in one dispatch (decode, one token).

use vstd::prelude::*;

use super::Launch;

verus! {

/// One workgroup for the whole MLP: uniform `[dim, hidden_dim, eps_bits, 0]`.
pub fn launch(dim: usize, hidden_dim: usize, eps_bits: u32) -> (l: Launch)
    ensures
        l.uniform@ == seq![dim as u32, hidden_dim as u32, eps_bits, 0u32],
        l.groups == (1u32, 1u32, 1u32),
{
    Launch { uniform: vec![dim as u32, hidden_dim as u32, eps_bits, 0], groups: (1, 1, 1) }
}

} // verus!
