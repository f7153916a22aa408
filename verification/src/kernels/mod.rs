//! Launch parameters of the WGSL compute kernels. Each kernel binds its storage
//! buffers at sequential `@binding` indices followed by one uniform; what the
//! host decides for a dispatch is the uniform's contents and the workgroup
//! grid, and that is what these functions compute. Uniforms are little-endian
//! 32-bit words (floats as their binary32 bit pattern).

use vstd::prelude::*;

pub mod activation;
pub mod argmax;
pub mod attention;
pub mod matmul;
pub mod mlp_mega;
pub mod norm;
pub mod q4;
pub mod rope;

verus! {

/// RMSNorm gain rule.
#[derive(Clone, Copy, Debug, PartialEq, Eq, Structural)]
pub enum NormKind {
    /// `y = x/rms * weight`
    Plain,
    /// `y = x/rms * (1 + weight)`
    Unit,
}

/// Gated MLP activation.
#[derive(Clone, Copy, Debug, PartialEq, Eq, Structural)]
pub enum Activation {
    /// `silu(gate) * up`
    SwiGlu,
    /// `gelu(gate) * up`
    GeGlu,
}

/// What the host hands a kernel dispatch: the uniform words and the
/// workgroup grid.
#[derive(Debug)]
pub struct Launch {
    pub uniform: Vec<u32>,
    pub groups: (u32, u32, u32),
}

/// `ceil(a / b)` over the integers.
pub open spec fn spec_div_ceil(a: int, b: int) -> int {
    if a % b == 0 {
        a / b
    } else {
        a / b + 1
    }
}

/// `ceil(a/b) * b` covers `a`.
pub proof fn lemma_div_ceil_covers(a: int, b: int)
    requires
        a >= 0,
        b > 0,
    ensures
        spec_div_ceil(a, b) * b >= a,
        spec_div_ceil(a, b) >= 0,
{
    assert((a / b) * b + a % b == a && a / b >= 0 && 0 <= a % b < b) by (nonlinear_arith)
        requires
            a >= 0,
            b > 0,
    ;
    assert((a / b + 1) * b == (a / b) * b + b) by (nonlinear_arith);
}

/// `a.div_ceil(b)` for `u32`.
pub fn div_ceil(a: u32, b: u32) -> (r: u32)
    requires
        b > 0,
    ensures
        r == spec_div_ceil(a as int, b as int),
{
    let q = a / b;
    if a % b == 0 {
        q
    } else {
        proof {
            assert(q < 0xffff_ffff) by (nonlinear_arith)
                requires
                    b > 0,
                    q == a / b,
                    a % b != 0,
                    a <= 0xffff_ffff,
            ;
        }
        q + 1
    }
}

/// The launch of a one-thread-per-element kernel over `n` elements:
/// uniform `[n, 0, 0, 0]`, `ceil(n/256)` workgroups of 256.
pub fn elementwise(n: usize) -> (l: Launch)
    ensures
        l.uniform@ == seq![n as u32, 0u32, 0u32, 0u32],
        l.groups == (spec_div_ceil((n as u32) as int, 256) as u32, 1u32, 1u32),
{
    let n32 = n as u32;
    Launch { uniform: vec![n32, 0, 0, 0], groups: (div_ceil(n32, 256), 1, 1) }
}

} // verus!
