//! A deterministic weight source for exercising a model without a weight
//! file: fixed shape metadata, and pseudo-random values seeded by each
//! tensor's name. The values are drawn here as 32-bit integers; scaling them
//! to small floats is the application's part.

use vstd::prelude::*;
use vstd::string::*;

use crate::text::{spec_strip_suffix, strip_suffix};

verus! {

/// The FNV-style hash the seeds are made with: start from
/// `1469598103934665603`, and for each byte xor it in, then multiply by
/// `1099511628211`, wrapping.
pub open spec fn spec_seed(bytes: Seq<u8>) -> u64
    decreases bytes.len(),
{
    if bytes.len() == 0 {
        1469598103934665603u64
    } else {
        vstd::wrapping::u64_specs::wrapping_mul(
            spec_seed(bytes.drop_last()) ^ (bytes.last() as u64),
            1099511628211u64,
        )
    }
}

/// The seed of a tensor: the hash of its name's UTF-8 bytes.
pub fn seed(name: &str) -> (h: u64)
    ensures
        h == spec_seed(name.spec_bytes()),
{
    let bytes = name.as_bytes();
    let mut h: u64 = 1469598103934665603;
    let mut i: usize = 0;
    while i < bytes.len()
        invariant
            i <= bytes@.len(),
            h == spec_seed(bytes@.take(i as int)),
        decreases bytes@.len() - i,
    {
        assert(bytes@.take(i as int + 1).drop_last() =~= bytes@.take(i as int));
        h = (h ^ bytes[i] as u64).wrapping_mul(1099511628211);
        i += 1;
    }
    assert(bytes@.take(bytes@.len() as int) =~= bytes@);
    h
}

/// One step of the linear congruential generator the values come from.
pub open spec fn lcg_step(s: u64) -> u64 {
    vstd::wrapping::u64_specs::wrapping_add(
        vstd::wrapping::u64_specs::wrapping_mul(s, 6364136223846793005u64),
        1442695040888963407u64,
    )
}

/// The generator's state after `k` steps from `s`.
pub open spec fn lcg_state(s: u64, k: nat) -> u64
    decreases k,
{
    if k == 0 {
        s
    } else {
        lcg_step(lcg_state(s, (k - 1) as nat))
    }
}

/// `n` draws from the generator started at `seed | 1`: draw `k` is the top 32
/// bits of the state after `k + 1` steps (so a draw spans the whole `u32`
/// range, and the values scaled from it cover both signs).
pub fn draws(seed: u64, n: usize) -> (d: Vec<u32>)
    ensures
        d@.len() == n,
        forall|k: int|
            0 <= k < n ==> #[trigger] d@[k] == (lcg_state(seed | 1, (k + 1) as nat) >> 32u64) as u32,
{
    let mut s: u64 = seed | 1;
    let mut d: Vec<u32> = Vec::new();
    let mut k: usize = 0;
    while k < n
        invariant
            k <= n,
            d@.len() == k,
            s == lcg_state(seed | 1, k as nat),
            forall|j: int|
                0 <= j < k ==> #[trigger] d@[j] == (lcg_state(seed | 1, (j + 1) as nat) >> 32u64) as u32,
        decreases n - k,
    {
        s = s.wrapping_mul(6364136223846793005).wrapping_add(1442695040888963407);
        proof {
            assert(s >> 32u64 <= u32::MAX) by (bit_vector);
        }
        d.push((s >> 32) as u32);
        k += 1;
    }
    d
}

/// The shape a random model reports.
#[derive(Clone, Copy, Debug, PartialEq, Eq, Structural)]
pub struct RandomWeights {
    pub dim: usize,
    pub n_layers: usize,
    pub n_heads: usize,
    pub n_kv_heads: usize,
    pub head_dim: usize,
    pub hidden: usize,
    pub vocab: usize,
}

/// `key` ends with `suf`.
pub open spec fn ends_with(key: Seq<char>, suf: Seq<char>) -> bool {
    spec_strip_suffix(key, suf) is Some
}

impl RandomWeights {
    /// The integer metadata answered for `key`, matched by its last part: the
    /// shape field it names, truncated to 32 bits, or 0. (`head_count_kv` is
    /// tried before `head_count`.)
    pub open spec fn spec_meta_u32(self, key: Seq<char>) -> u32 {
        if ends_with(key, "block_count"@) {
            self.n_layers as u32
        } else if ends_with(key, "embedding_length"@) {
            self.dim as u32
        } else if ends_with(key, "head_count_kv"@) {
            self.n_kv_heads as u32
        } else if ends_with(key, "head_count"@) {
            self.n_heads as u32
        } else if ends_with(key, "key_length"@) {
            self.head_dim as u32
        } else if ends_with(key, "feed_forward_length"@) {
            self.hidden as u32
        } else if ends_with(key, "vocab_size"@) {
            self.vocab as u32
        } else {
            0
        }
    }

    /// The float metadata answered for `key`, as its binary32 bit pattern:
    /// an RMS epsilon of `1e-6`, a RoPE base of `1e6`, else `0.0`.
    pub open spec fn spec_meta_f32_bits(key: Seq<char>) -> u32 {
        if ends_with(key, "rms_epsilon"@) {
            0x358637bd
        } else if ends_with(key, "freq_base"@) {
            0x49742400
        } else {
            0
        }
    }

    /// Integer metadata for `key`.
    pub fn meta_u32(&self, key: &str) -> (v: u32)
        ensures
            v == self.spec_meta_u32(key@),
    {
        let v: usize = if strip_suffix(key, "block_count").is_some() {
            self.n_layers
        } else if strip_suffix(key, "embedding_length").is_some() {
            self.dim
        } else if strip_suffix(key, "head_count_kv").is_some() {
            self.n_kv_heads
        } else if strip_suffix(key, "head_count").is_some() {
            self.n_heads
        } else if strip_suffix(key, "key_length").is_some() {
            self.head_dim
        } else if strip_suffix(key, "feed_forward_length").is_some() {
            self.hidden
        } else if strip_suffix(key, "vocab_size").is_some() {
            self.vocab
        } else {
            0
        };
        v as u32
    }

    /// Float metadata for `key`, as a binary32 bit pattern.
    pub fn meta_f32_bits(&self, key: &str) -> (b: u32)
        ensures
            b == Self::spec_meta_f32_bits(key@),
    {
        if strip_suffix(key, "rms_epsilon").is_some() {
            0x358637bd
        } else if strip_suffix(key, "freq_base").is_some() {
            0x49742400
        } else {
            0
        }
    }

    /// No tensor is optional in a random model: it has no biases and an
    /// untied LM head is never reported.
    pub fn has(&self, name: &str) -> (b: bool)
        ensures
            !b,
    {
        false
    }
}

} // verus!
