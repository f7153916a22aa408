//! On-device argmax: logits `[n]` to a single u32 index.

use vstd::prelude::*;

use super::Launch;

verus! {

/// One workgroup scans all `n` logits: uniform `[n, 0, 0, 0]`, grid `(1, 1, 1)`.
pub fn launch(n: usize) -> (l: Launch)
    ensures
        l.uniform@ == seq![n as u32, 0u32, 0u32, 0u32],
        l.groups == (1u32, 1u32, 1u32),
{
    Launch { uniform: vec![n as u32, 0, 0, 0], groups: (1, 1, 1) }
}

} // verus!
