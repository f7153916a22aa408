//! Family implementations: each one plays out its architecture as a list of
//! [`crate::arch::Block`] building blocks. The structure (which ops, in what
//! order, which norm/activation/masking variant) lives in the block list, so the
//! fusion pass can collapse it and an executor can just walk it.
//!
//! Scalar parameters are carried as IEEE-754 binary32 bit patterns
//! (`f32::to_bits`); the executor turns them back into floats.

use vstd::prelude::*;

use crate::arch::Block;
use crate::text::str_eq;

pub mod gemma;
pub mod llama;
pub mod qwen2;
pub mod qwen3;

verus! {

/// Scalars used while executing the blocks (not part of the structure), each
/// float as its binary32 bit pattern.
#[derive(Clone, Copy, Debug)]
pub struct Params {
    pub eps_bits: u32,
    pub rope_theta_bits: u32,
    pub sliding_window: Option<u32>,
    pub final_logit_softcap_bits: Option<u32>,
}

/// A resolved family: its name, its scalar params, and one decoder layer
/// assembled from building blocks.
#[derive(Clone, Debug)]
pub struct Family {
    pub name: &'static str,
    pub params: Params,
    pub layer: Vec<Block>,
}

/// The family a `general.architecture` string resolves to, by name.
pub open spec fn spec_family_name(arch: Seq<char>) -> Seq<char> {
    if arch == "qwen3"@ {
        "qwen3"@
    } else if arch == "qwen2"@ {
        "qwen2"@
    } else if arch == "gemma"@ || arch == "gemma2"@ || arch == "gemma3"@ {
        "gemma"@
    } else {
        "llama"@
    }
}

/// The decoder layer of the family named `name` (one of the four above).
pub open spec fn spec_family_layer(name: Seq<char>) -> Seq<Block> {
    if name == "qwen3"@ {
        qwen3::spec_layer()
    } else if name == "qwen2"@ {
        qwen2::spec_layer()
    } else if name == "gemma"@ {
        gemma::spec_layer()
    } else {
        llama::spec_layer()
    }
}

/// The scalar params of the family named `name` (one of the four above).
pub open spec fn spec_family_params(name: Seq<char>) -> Params {
    if name == "qwen3"@ {
        qwen3::spec_params()
    } else if name == "qwen2"@ {
        qwen2::spec_params()
    } else if name == "gemma"@ {
        gemma::spec_params()
    } else {
        llama::spec_params()
    }
}

impl Family {
    /// Resolve from a GGUF `general.architecture` string. Unknown names fall
    /// back to the Llama baseline.
    pub fn from_arch(arch: &str) -> (f: Family)
        ensures
            f.name@ == spec_family_name(arch@),
            f.params == spec_family_params(spec_family_name(arch@)),
            f.layer@ == spec_family_layer(spec_family_name(arch@)),
    {
        proof {
            reveal_strlit("qwen3");
            reveal_strlit("qwen2");
            reveal_strlit("gemma");
            reveal_strlit("llama");
            assert("qwen3"@[4] != "qwen2"@[4]);
            assert("gemma"@[0] != "qwen3"@[0] && "gemma"@[0] != "qwen2"@[0]);
            assert("llama"@[0] != "qwen3"@[0] && "llama"@[0] != "qwen2"@[0]);
            assert("llama"@[0] != "gemma"@[0]);
        }
        if str_eq(arch, "qwen3") {
            qwen3::family()
        } else if str_eq(arch, "qwen2") {
            qwen2::family()
        } else if str_eq(arch, "gemma") || str_eq(arch, "gemma2") || str_eq(arch, "gemma3") {
            gemma::family()
        } else {
            llama::family()
        }
    }
}

} // verus!
