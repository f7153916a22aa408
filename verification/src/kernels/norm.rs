//! Normalization building blocks. Each gain rule is a distinct kernel entry.

use vstd::prelude::*;

use super::{Launch, NormKind};

verus! {

/// WGSL entry point for a gain rule.
pub fn entry(kind: NormKind) -> (s: &'static str)
    ensures
        kind == NormKind::Plain ==> s@ == "rmsnorm"@,
        kind == NormKind::Unit ==> s@ == "rmsnorm_unit"@,
{
    match kind {
        NormKind::Plain => "rmsnorm",
        NormKind::Unit => "rmsnorm_unit",
    }
}

/// One workgroup per row: uniform `[rows, dim, eps_bits, 0]`, grid `(rows, 1, 1)`.
pub fn launch(rows: usize, dim: usize, eps_bits: u32) -> (l: Launch)
    ensures
        l.uniform@ == seq![rows as u32, dim as u32, eps_bits, 0u32],
        l.groups == (rows as u32, 1u32, 1u32),
{
    Launch { uniform: vec![rows as u32, dim as u32, eps_bits, 0], groups: (rows as u32, 1, 1) }
}

} // verus!
