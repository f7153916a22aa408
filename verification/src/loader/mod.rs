//! Weight loaders: each parses a container format. GGUF (quantized, llama.cpp
//! names) and Safetensors (HF fp16/bf16, translated to llama.cpp names plus
//! `config.json` metadata). Both decode to binary32 through [`dequant`].

use vstd::prelude::*;
use vstd::string::*;

use crate::text::{decimal, push_decimal};

pub mod dequant;
pub mod gguf;
pub mod safetensors;

verus! {

/// Why a tensor could not be decoded.
#[derive(Debug, PartialEq, Eq)]
pub enum TensorError {
    /// No tensor of that name.
    Missing,
    /// A GGUF (ggml) dtype the loader does not decode (the k-quants, …).
    UnsupportedDtype(u32),
    /// A safetensors dtype the loader does not decode.
    UnsupportedFormat(String),
    /// The tensor's bytes run past the end of the data.
    Truncated,
}

/// The text of a tensor error for tensor `name`, as the loaders word it.
pub open spec fn spec_error_text(e: TensorError, name: Seq<char>) -> Seq<char> {
    match e {
        TensorError::Missing => "missing tensor "@ + name,
        TensorError::UnsupportedDtype(d) => "tensor "@ + name + ": ggml dtype "@ + decimal(d as nat)
            + " not supported yet (k-quants todo)"@,
        TensorError::UnsupportedFormat(d) => "tensor "@ + name + ": safetensors dtype "@ + d@
            + " not supported"@,
        TensorError::Truncated => "tensor "@ + name + ": data runs past the end of the file"@,
    }
}

impl TensorError {
    /// The error as text, for tensor `name`.
    pub fn message(&self, name: &str) -> (s: String)
        ensures
            s@ == spec_error_text(*self, name@),
    {
        match self {
            TensorError::Missing => {
                let mut s = String::from_str("missing tensor ");
                s.append(name);
                s
            },
            TensorError::UnsupportedDtype(d) => {
                let mut s = String::from_str("tensor ");
                s.append(name);
                s.append(": ggml dtype ");
                push_decimal(&mut s, *d as usize);
                s.append(" not supported yet (k-quants todo)");
                s
            },
            TensorError::UnsupportedFormat(d) => {
                let mut s = String::from_str("tensor ");
                s.append(name);
                s.append(": safetensors dtype ");
                s.append(d.as_str());
                s.append(" not supported");
                s
            },
            TensorError::Truncated => {
                let mut s = String::from_str("tensor ");
                s.append(name);
                s.append(": data runs past the end of the file");
                s
            },
        }
    }
}

/// Little-endian `u16` at `s[i..i+2]`.
pub open spec fn le16(s: Seq<u8>, i: int) -> u16 {
    (s[i] as int + 0x100 * s[i + 1] as int) as u16
}

/// Little-endian `u32` at `s[i..i+4]`.
pub open spec fn le32(s: Seq<u8>, i: int) -> u32 {
    (s[i] as int + 0x100 * s[i + 1] as int + 0x1_0000 * s[i + 2] as int + 0x100_0000 * s[i
        + 3] as int) as u32
}

/// Little-endian `u64` at `s[i..i+8]`.
pub open spec fn le64(s: Seq<u8>, i: int) -> u64 {
    (le32(s, i) as int + 0x1_0000_0000 * le32(s, i + 4) as int) as u64
}

} // verus!
