//! Activation building blocks. The unary forms (`silu`, `gelu`, `tanh`) and the
//! gated forms (`swiglu`, `geglu`) are elementwise: one thread per element, see
//! [`super::elementwise`].

use vstd::prelude::*;

use super::Activation;

verus! {

/// WGSL entry point of the gated kernel for an activation.
pub fn gated_entry(act: Activation) -> (s: &'static str)
    ensures
        act == Activation::SwiGlu ==> s@ == "swiglu"@,
        act == Activation::GeGlu ==> s@ == "geglu"@,
{
    match act {
        Activation::SwiGlu => "swiglu",
        Activation::GeGlu => "geglu",
    }
}

} // verus!
