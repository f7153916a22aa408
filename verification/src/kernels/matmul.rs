//! Matmul building block: `C[m,n] = A[m,k] · B[k,n]` (row-major f32).

use vstd::prelude::*;

use super::{div_ceil, spec_div_ceil, Launch};

verus! {

/// 16×16 output tiles: uniform `[m, k, n, 0]`, grid `(ceil(n/16), ceil(m/16), 1)`.
pub fn launch(m: usize, k: usize, n: usize) -> (l: Launch)
    ensures
        l.uniform@ == seq![m as u32, k as u32, n as u32, 0u32],
        l.groups == (
            spec_div_ceil((n as u32) as int, 16) as u32,
            spec_div_ceil((m as u32) as int, 16) as u32,
            1u32,
        ),
{
    let (m32, k32, n32) = (m as u32, k as u32, n as u32);
    Launch { uniform: vec![m32, k32, n32, 0], groups: (div_ceil(n32, 16), div_ceil(m32, 16), 1) }
}

} // verus!
