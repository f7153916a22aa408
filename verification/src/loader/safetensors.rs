//! Safetensors loader. The container is an 8-byte little-endian header length,
//! a JSON header, then raw tensor data; HF ships fp16/bf16 weights this way,
//! with hyperparameters in a separate `config.json`. Models speak
//! GGUF/llama.cpp names; [`to_hf`] and [`config_key`] translate them to HF
//! names and config.json keys.
//!
//! The JSON text is parsed by the caller into [`Json`]; this module frames the
//! header bytes ([`header_len`]) and interprets the parsed header
//! ([`SafetensorsWeights::from_header`]).

use vstd::prelude::*;
use vstd::slice::slice_subrange;
use vstd::string::*;

use serde_json::Value;

use super::dequant;
use super::gguf::{find_last, find_last_in, lookup};
use super::{le64, TensorError};
use crate::text::{
    lemma_find_char_at, spec_split_once, spec_strip_prefix, spec_strip_suffix, split_once, str_eq,
    strip_prefix, strip_suffix,
};

verus! {

/// A JSON value.
#[derive(Debug)]
pub enum Json {
    Null,
    Bool(bool),
    /// A non-negative integer.
    PosInt(u64),
    /// A negative integer.
    NegInt(i64),
    /// Any other number, as its binary64 bit pattern.
    Float(u64),
    Str(String),
    Array(Vec<Json>),
    /// Members in order; keys are distinct.
    Object(Vec<(String, Json)>),
}

// ---------------------------------------------------------------------------
// Name and key translation.

/// The HF name of one part of a layer (`blk.{i}.{part}`).
pub open spec fn spec_hf_part(part: Seq<char>) -> Seq<char> {
    if part == "attn_norm"@ {
        "input_layernorm"@
    } else if part == "attn_q"@ {
        "self_attn.q_proj"@
    } else if part == "attn_k"@ {
        "self_attn.k_proj"@
    } else if part == "attn_v"@ {
        "self_attn.v_proj"@
    } else if part == "attn_output"@ {
        "self_attn.o_proj"@
    } else if part == "attn_q_norm"@ {
        "self_attn.q_norm"@
    } else if part == "attn_k_norm"@ {
        "self_attn.k_norm"@
    } else if part == "ffn_norm"@ {
        "post_attention_layernorm"@
    } else if part == "ffn_gate"@ {
        "mlp.gate_proj"@
    } else if part == "ffn_up"@ {
        "mlp.up_proj"@
    } else if part == "ffn_down"@ {
        "mlp.down_proj"@
    } else {
        part
    }
}

/// The HF name of a model-level tensor stem.
pub open spec fn spec_hf_stem(stem: Seq<char>) -> Seq<char> {
    if stem == "output_norm"@ {
        "model.norm"@
    } else if stem == "token_embd"@ {
        "model.embed_tokens"@
    } else if stem == "output"@ {
        "lm_head"@
    } else {
        stem
    }
}

/// The HF safetensors name of a GGUF/llama.cpp tensor name: the `.weight` /
/// `.bias` suffix is kept, `blk.{i}.{part}` becomes
/// `model.layers.{i}.{hf part}`, and the model-level stems are renamed.
pub open spec fn spec_to_hf(g: Seq<char>) -> Seq<char> {
    let (stem, suffix) = match spec_strip_suffix(g, ".weight"@) {
        Some(s) => (s, ".weight"@),
        None => match spec_strip_suffix(g, ".bias"@) {
            Some(s) => (s, ".bias"@),
            None => (g, Seq::<char>::empty()),
        },
    };
    let mapped = match spec_strip_prefix(stem, "blk."@) {
        Some(rest) => {
            let (i, part) = match spec_split_once(rest, '.') {
                Some(p) => p,
                None => (rest, Seq::<char>::empty()),
            };
            "model.layers."@ + i + "."@ + spec_hf_part(part)
        },
        None => spec_hf_stem(stem),
    };
    mapped + suffix
}

/// The HF name of each decoder-layer part, one fixed name per part, and no two
/// parts share one: the attention projections stay apart (`attn_k` is
/// `self_attn.k_proj`, `attn_v` is `self_attn.v_proj`), and so do the norms
/// and the MLP projections.
pub proof fn lemma_hf_part_table()
    ensures
        spec_hf_part("attn_norm"@) == "input_layernorm"@,
        spec_hf_part("attn_q"@) == "self_attn.q_proj"@,
        spec_hf_part("attn_k"@) == "self_attn.k_proj"@,
        spec_hf_part("attn_v"@) == "self_attn.v_proj"@,
        spec_hf_part("attn_output"@) == "self_attn.o_proj"@,
        spec_hf_part("attn_q_norm"@) == "self_attn.q_norm"@,
        spec_hf_part("attn_k_norm"@) == "self_attn.k_norm"@,
        spec_hf_part("ffn_norm"@) == "post_attention_layernorm"@,
        spec_hf_part("ffn_gate"@) == "mlp.gate_proj"@,
        spec_hf_part("ffn_up"@) == "mlp.up_proj"@,
        spec_hf_part("ffn_down"@) == "mlp.down_proj"@,
        seq![
            "input_layernorm"@,
            "self_attn.q_proj"@,
            "self_attn.k_proj"@,
            "self_attn.v_proj"@,
            "self_attn.o_proj"@,
            "self_attn.q_norm"@,
            "self_attn.k_norm"@,
            "post_attention_layernorm"@,
            "mlp.gate_proj"@,
            "mlp.up_proj"@,
            "mlp.down_proj"@,
        ].no_duplicates(),
{
    reveal_strlit("attn_norm");
    reveal_strlit("attn_q");
    reveal_strlit("attn_k");
    reveal_strlit("attn_v");
    reveal_strlit("attn_output");
    reveal_strlit("attn_q_norm");
    reveal_strlit("attn_k_norm");
    reveal_strlit("ffn_norm");
    reveal_strlit("ffn_gate");
    reveal_strlit("ffn_up");
    reveal_strlit("ffn_down");
    reveal_strlit("input_layernorm");
    reveal_strlit("self_attn.q_proj");
    reveal_strlit("self_attn.k_proj");
    reveal_strlit("self_attn.v_proj");
    reveal_strlit("self_attn.o_proj");
    reveal_strlit("self_attn.q_norm");
    reveal_strlit("self_attn.k_norm");
    reveal_strlit("post_attention_layernorm");
    reveal_strlit("mlp.gate_proj");
    reveal_strlit("mlp.up_proj");
    reveal_strlit("mlp.down_proj");
    assert("attn_q"@.len() != "attn_norm"@.len());
    assert("attn_k"@.len() != "attn_norm"@.len());
    assert("attn_k"@[5] != "attn_q"@[5]);
    assert("attn_v"@.len() != "attn_norm"@.len());
    assert("attn_v"@[5] != "attn_q"@[5]);
    assert("attn_v"@[5] != "attn_k"@[5]);
    assert("attn_output"@.len() != "attn_norm"@.len());
    assert("attn_output"@.len() != "attn_q"@.len());
    assert("attn_output"@.len() != "attn_k"@.len());
    assert("attn_output"@.len() != "attn_v"@.len());
    assert("attn_q_norm"@.len() != "attn_norm"@.len());
    assert("attn_q_norm"@.len() != "attn_q"@.len());
    assert("attn_q_norm"@.len() != "attn_k"@.len());
    assert("attn_q_norm"@.len() != "attn_v"@.len());
    assert("attn_q_norm"@[5] != "attn_output"@[5]);
    assert("attn_k_norm"@.len() != "attn_norm"@.len());
    assert("attn_k_norm"@.len() != "attn_q"@.len());
    assert("attn_k_norm"@.len() != "attn_k"@.len());
    assert("attn_k_norm"@.len() != "attn_v"@.len());
    assert("attn_k_norm"@[5] != "attn_output"@[5]);
    assert("attn_k_norm"@[5] != "attn_q_norm"@[5]);
    assert("ffn_norm"@.len() != "attn_norm"@.len());
    assert("ffn_norm"@.len() != "attn_q"@.len());
    assert("ffn_norm"@.len() != "attn_k"@.len());
    assert("ffn_norm"@.len() != "attn_v"@.len());
    assert("ffn_norm"@.len() != "attn_output"@.len());
    assert("ffn_norm"@.len() != "attn_q_norm"@.len());
    assert("ffn_norm"@.len() != "attn_k_norm"@.len());
    assert("ffn_gate"@.len() != "attn_norm"@.len());
    assert("ffn_gate"@.len() != "attn_q"@.len());
    assert("ffn_gate"@.len() != "attn_k"@.len());
    assert("ffn_gate"@.len() != "attn_v"@.len());
    assert("ffn_gate"@.len() != "attn_output"@.len());
    assert("ffn_gate"@.len() != "attn_q_norm"@.len());
    assert("ffn_gate"@.len() != "attn_k_norm"@.len());
    assert("ffn_gate"@[4] != "ffn_norm"@[4]);
    assert("ffn_up"@.len() != "attn_norm"@.len());
    assert("ffn_up"@[0] != "attn_q"@[0]);
    assert("ffn_up"@[0] != "attn_k"@[0]);
    assert("ffn_up"@[0] != "attn_v"@[0]);
    assert("ffn_up"@.len() != "attn_output"@.len());
    assert("ffn_up"@.len() != "attn_q_norm"@.len());
    assert("ffn_up"@.len() != "attn_k_norm"@.len());
    assert("ffn_up"@.len() != "ffn_norm"@.len());
    assert("ffn_up"@.len() != "ffn_gate"@.len());
    assert("ffn_down"@.len() != "attn_norm"@.len());
    assert("ffn_down"@.len() != "attn_q"@.len());
    assert("ffn_down"@.len() != "attn_k"@.len());
    assert("ffn_down"@.len() != "attn_v"@.len());
    assert("ffn_down"@.len() != "attn_output"@.len());
    assert("ffn_down"@.len() != "attn_q_norm"@.len());
    assert("ffn_down"@.len() != "attn_k_norm"@.len());
    assert("ffn_down"@[4] != "ffn_norm"@[4]);
    assert("ffn_down"@[4] != "ffn_gate"@[4]);
    assert("ffn_down"@.len() != "ffn_up"@.len());
    assert("self_attn.q_proj"@.len() != "input_layernorm"@.len());
    assert("self_attn.k_proj"@.len() != "input_layernorm"@.len());
    assert("self_attn.k_proj"@[10] != "self_attn.q_proj"@[10]);
    assert("self_attn.v_proj"@.len() != "input_layernorm"@.len());
    assert("self_attn.v_proj"@[10] != "self_attn.q_proj"@[10]);
    assert("self_attn.v_proj"@[10] != "self_attn.k_proj"@[10]);
    assert("self_attn.o_proj"@.len() != "input_layernorm"@.len());
    assert("self_attn.o_proj"@[10] != "self_attn.q_proj"@[10]);
    assert("self_attn.o_proj"@[10] != "self_attn.k_proj"@[10]);
    assert("self_attn.o_proj"@[10] != "self_attn.v_proj"@[10]);
    assert("self_attn.q_norm"@.len() != "input_layernorm"@.len());
    assert("self_attn.q_norm"@[12] != "self_attn.q_proj"@[12]);
    assert("self_attn.q_norm"@[10] != "self_attn.k_proj"@[10]);
    assert("self_attn.q_norm"@[10] != "self_attn.v_proj"@[10]);
    assert("self_attn.q_norm"@[10] != "self_attn.o_proj"@[10]);
    assert("self_attn.k_norm"@.len() != "input_layernorm"@.len());
    assert("self_attn.k_norm"@[10] != "self_attn.q_proj"@[10]);
    assert("self_attn.k_norm"@[12] != "self_attn.k_proj"@[12]);
    assert("self_attn.k_norm"@[10] != "self_attn.v_proj"@[10]);
    assert("self_attn.k_norm"@[10] != "self_attn.o_proj"@[10]);
    assert("self_attn.k_norm"@[10] != "self_attn.q_norm"@[10]);
    assert("post_attention_layernorm"@.len() != "input_layernorm"@.len());
    assert("post_attention_layernorm"@.len() != "self_attn.q_proj"@.len());
    assert("post_attention_layernorm"@.len() != "self_attn.k_proj"@.len());
    assert("post_attention_layernorm"@.len() != "self_attn.v_proj"@.len());
    assert("post_attention_layernorm"@.len() != "self_attn.o_proj"@.len());
    assert("post_attention_layernorm"@.len() != "self_attn.q_norm"@.len());
    assert("post_attention_layernorm"@.len() != "self_attn.k_norm"@.len());
    assert("mlp.gate_proj"@.len() != "input_layernorm"@.len());
    assert("mlp.gate_proj"@.len() != "self_attn.q_proj"@.len());
    assert("mlp.gate_proj"@.len() != "self_attn.k_proj"@.len());
    assert("mlp.gate_proj"@.len() != "self_attn.v_proj"@.len());
    assert("mlp.gate_proj"@.len() != "self_attn.o_proj"@.len());
    assert("mlp.gate_proj"@.len() != "self_attn.q_norm"@.len());
    assert("mlp.gate_proj"@.len() != "self_attn.k_norm"@.len());
    assert("mlp.gate_proj"@.len() != "post_attention_layernorm"@.len());
    assert("mlp.up_proj"@.len() != "input_layernorm"@.len());
    assert("mlp.up_proj"@.len() != "self_attn.q_proj"@.len());
    assert("mlp.up_proj"@.len() != "self_attn.k_proj"@.len());
    assert("mlp.up_proj"@.len() != "self_attn.v_proj"@.len());
    assert("mlp.up_proj"@.len() != "self_attn.o_proj"@.len());
    assert("mlp.up_proj"@.len() != "self_attn.q_norm"@.len());
    assert("mlp.up_proj"@.len() != "self_attn.k_norm"@.len());
    assert("mlp.up_proj"@.len() != "post_attention_layernorm"@.len());
    assert("mlp.up_proj"@.len() != "mlp.gate_proj"@.len());
    assert("mlp.down_proj"@.len() != "input_layernorm"@.len());
    assert("mlp.down_proj"@.len() != "self_attn.q_proj"@.len());
    assert("mlp.down_proj"@.len() != "self_attn.k_proj"@.len());
    assert("mlp.down_proj"@.len() != "self_attn.v_proj"@.len());
    assert("mlp.down_proj"@.len() != "self_attn.o_proj"@.len());
    assert("mlp.down_proj"@.len() != "self_attn.q_norm"@.len());
    assert("mlp.down_proj"@.len() != "self_attn.k_norm"@.len());
    assert("mlp.down_proj"@.len() != "post_attention_layernorm"@.len());
    assert("mlp.down_proj"@[4] != "mlp.gate_proj"@[4]);
    assert("mlp.down_proj"@.len() != "mlp.up_proj"@.len());
}

fn hf_part<'a>(part: &'a str) -> (r: &'a str)
    ensures
        r@ == spec_hf_part(part@),
{
    if str_eq(part, "attn_norm") {
        "input_layernorm"
    } else if str_eq(part, "attn_q") {
        "self_attn.q_proj"
    } else if str_eq(part, "attn_k") {
        "self_attn.k_proj"
    } else if str_eq(part, "attn_v") {
        "self_attn.v_proj"
    } else if str_eq(part, "attn_output") {
        "self_attn.o_proj"
    } else if str_eq(part, "attn_q_norm") {
        "self_attn.q_norm"
    } else if str_eq(part, "attn_k_norm") {
        "self_attn.k_norm"
    } else if str_eq(part, "ffn_norm") {
        "post_attention_layernorm"
    } else if str_eq(part, "ffn_gate") {
        "mlp.gate_proj"
    } else if str_eq(part, "ffn_up") {
        "mlp.up_proj"
    } else if str_eq(part, "ffn_down") {
        "mlp.down_proj"
    } else {
        part
    }
}

fn hf_stem<'a>(stem: &'a str) -> (r: &'a str)
    ensures
        r@ == spec_hf_stem(stem@),
{
    if str_eq(stem, "output_norm") {
        "model.norm"
    } else if str_eq(stem, "token_embd") {
        "model.embed_tokens"
    } else if str_eq(stem, "output") {
        "lm_head"
    } else {
        stem
    }
}

/// Translate a GGUF/llama.cpp tensor name to its HF safetensors name.
pub fn to_hf(gguf: &str) -> (r: String)
    ensures
        r@ == spec_to_hf(gguf@),
{
    let (stem, suffix) = match strip_suffix(gguf, ".weight") {
        Some(s) => (s, ".weight"),
        None => match strip_suffix(gguf, ".bias") {
            Some(s) => (s, ".bias"),
            None => (gguf, ""),
        },
    };
    proof {
        reveal_strlit("");
        assert(""@ =~= Seq::<char>::empty());
    }
    let mut out = match strip_prefix(stem, "blk.") {
        Some(rest) => {
            // blk.{i}.{part}
            let (i, part) = match split_once(rest, '.') {
                Some(p) => p,
                None => (rest, ""),
            };
            let mut m = String::from_str("model.layers.");
            m.append(i);
            m.append(".");
            m.append(hf_part(part));
            m
        },
        None => String::from_str(hf_stem(stem)),
    };
    out.append(suffix);
    out
}

/// The config.json key for a GGUF metadata key (`{arch}.suffix`); empty
/// when there is none.
pub open spec fn spec_config_key(k: Seq<char>) -> Seq<char> {
    let suffix = match spec_split_once(k, '.') {
        Some((_, s)) => s,
        None => k,
    };
    if suffix == "block_count"@ {
        "num_hidden_layers"@
    } else if suffix == "embedding_length"@ {
        "hidden_size"@
    } else if suffix == "attention.head_count"@ {
        "num_attention_heads"@
    } else if suffix == "attention.head_count_kv"@ {
        "num_key_value_heads"@
    } else if suffix == "attention.key_length"@ {
        "head_dim"@
    } else if suffix == "feed_forward_length"@ {
        "intermediate_size"@
    } else if suffix == "attention.layer_norm_rms_epsilon"@ {
        "rms_norm_eps"@
    } else if suffix == "rope.freq_base"@ {
        "rope_theta"@
    } else {
        Seq::empty()
    }
}

/// Each GGUF metadata key `{arch}.{suffix}` reads its own `config.json` key,
/// whatever the architecture name (one without a dot): `feed_forward_length`
/// is `intermediate_size`, `embedding_length` is `hidden_size`,
/// `attention.key_length` is `head_dim`, and so on; no two suffixes share a
/// config key.
pub proof fn lemma_config_key_table(arch: Seq<char>)
    requires
        forall|j: int| 0 <= j < arch.len() ==> arch[j] != '.',
    ensures
        spec_config_key(arch + "."@ + "block_count"@) == "num_hidden_layers"@,
        spec_config_key(arch + "."@ + "embedding_length"@) == "hidden_size"@,
        spec_config_key(arch + "."@ + "attention.head_count"@) == "num_attention_heads"@,
        spec_config_key(arch + "."@ + "attention.head_count_kv"@) == "num_key_value_heads"@,
        spec_config_key(arch + "."@ + "attention.key_length"@) == "head_dim"@,
        spec_config_key(arch + "."@ + "feed_forward_length"@) == "intermediate_size"@,
        spec_config_key(arch + "."@ + "attention.layer_norm_rms_epsilon"@) == "rms_norm_eps"@,
        spec_config_key(arch + "."@ + "rope.freq_base"@) == "rope_theta"@,
        seq![
            "num_hidden_layers"@,
            "hidden_size"@,
            "num_attention_heads"@,
            "num_key_value_heads"@,
            "head_dim"@,
            "intermediate_size"@,
            "rms_norm_eps"@,
            "rope_theta"@,
        ].no_duplicates(),
{
    reveal_strlit("block_count");
    reveal_strlit("embedding_length");
    reveal_strlit("attention.head_count");
    reveal_strlit("attention.head_count_kv");
    reveal_strlit("attention.key_length");
    reveal_strlit("feed_forward_length");
    reveal_strlit("attention.layer_norm_rms_epsilon");
    reveal_strlit("rope.freq_base");
    reveal_strlit("num_hidden_layers");
    reveal_strlit("hidden_size");
    reveal_strlit("num_attention_heads");
    reveal_strlit("num_key_value_heads");
    reveal_strlit("head_dim");
    reveal_strlit("intermediate_size");
    reveal_strlit("rms_norm_eps");
    reveal_strlit("rope_theta");
    reveal_strlit(".");
    assert("embedding_length"@.len() != "block_count"@.len());
    assert("attention.head_count"@.len() != "block_count"@.len());
    assert("attention.head_count"@.len() != "embedding_length"@.len());
    assert("attention.head_count_kv"@.len() != "block_count"@.len());
    assert("attention.head_count_kv"@.len() != "embedding_length"@.len());
    assert("attention.head_count_kv"@.len() != "attention.head_count"@.len());
    assert("attention.key_length"@.len() != "block_count"@.len());
    assert("attention.key_length"@.len() != "embedding_length"@.len());
    assert("attention.key_length"@[10] != "attention.head_count"@[10]);
    assert("attention.key_length"@.len() != "attention.head_count_kv"@.len());
    assert("feed_forward_length"@.len() != "block_count"@.len());
    assert("feed_forward_length"@.len() != "embedding_length"@.len());
    assert("feed_forward_length"@.len() != "attention.head_count"@.len());
    assert("feed_forward_length"@.len() != "attention.head_count_kv"@.len());
    assert("feed_forward_length"@.len() != "attention.key_length"@.len());
    assert("attention.layer_norm_rms_epsilon"@.len() != "block_count"@.len());
    assert("attention.layer_norm_rms_epsilon"@.len() != "embedding_length"@.len());
    assert("attention.layer_norm_rms_epsilon"@.len() != "attention.head_count"@.len());
    assert("attention.layer_norm_rms_epsilon"@.len() != "attention.head_count_kv"@.len());
    assert("attention.layer_norm_rms_epsilon"@.len() != "attention.key_length"@.len());
    assert("attention.layer_norm_rms_epsilon"@.len() != "feed_forward_length"@.len());
    assert("rope.freq_base"@.len() != "block_count"@.len());
    assert("rope.freq_base"@.len() != "embedding_length"@.len());
    assert("rope.freq_base"@.len() != "attention.head_count"@.len());
    assert("rope.freq_base"@.len() != "attention.head_count_kv"@.len());
    assert("rope.freq_base"@.len() != "attention.key_length"@.len());
    assert("rope.freq_base"@.len() != "feed_forward_length"@.len());
    assert("rope.freq_base"@.len() != "attention.layer_norm_rms_epsilon"@.len());
    assert("hidden_size"@.len() != "num_hidden_layers"@.len());
    assert("num_attention_heads"@.len() != "num_hidden_layers"@.len());
    assert("num_attention_heads"@.len() != "hidden_size"@.len());
    assert("num_key_value_heads"@.len() != "num_hidden_layers"@.len());
    assert("num_key_value_heads"@.len() != "hidden_size"@.len());
    assert("num_key_value_heads"@[4] != "num_attention_heads"@[4]);
    assert("head_dim"@.len() != "num_hidden_layers"@.len());
    assert("head_dim"@.len() != "hidden_size"@.len());
    assert("head_dim"@.len() != "num_attention_heads"@.len());
    assert("head_dim"@.len() != "num_key_value_heads"@.len());
    assert("intermediate_size"@[0] != "num_hidden_layers"@[0]);
    assert("intermediate_size"@.len() != "hidden_size"@.len());
    assert("intermediate_size"@.len() != "num_attention_heads"@.len());
    assert("intermediate_size"@.len() != "num_key_value_heads"@.len());
    assert("intermediate_size"@.len() != "head_dim"@.len());
    assert("rms_norm_eps"@.len() != "num_hidden_layers"@.len());
    assert("rms_norm_eps"@.len() != "hidden_size"@.len());
    assert("rms_norm_eps"@.len() != "num_attention_heads"@.len());
    assert("rms_norm_eps"@.len() != "num_key_value_heads"@.len());
    assert("rms_norm_eps"@.len() != "head_dim"@.len());
    assert("rms_norm_eps"@.len() != "intermediate_size"@.len());
    assert("rope_theta"@.len() != "num_hidden_layers"@.len());
    assert("rope_theta"@.len() != "hidden_size"@.len());
    assert("rope_theta"@.len() != "num_attention_heads"@.len());
    assert("rope_theta"@.len() != "num_key_value_heads"@.len());
    assert("rope_theta"@.len() != "head_dim"@.len());
    assert("rope_theta"@.len() != "intermediate_size"@.len());
    assert("rope_theta"@.len() != "rms_norm_eps"@.len());
    assert(spec_split_once(arch + "."@ + "block_count"@, '.') == Some((arch, "block_count"@))) by {
        let k = arch + "."@ + "block_count"@;
        assert forall|j: int| 0 <= j < arch.len() implies k[j] != '.' by {
            assert(k[j] == arch[j]);
        }
        assert(k[arch.len() as int] == '.');
        lemma_find_char_at(k, '.', 0, arch.len() as int);
        assert(k.take(arch.len() as int) =~= arch);
        assert(k.skip(arch.len() as int + 1) =~= "block_count"@);
    }
    assert(spec_split_once(arch + "."@ + "embedding_length"@, '.') == Some((arch, "embedding_length"@))) by {
        let k = arch + "."@ + "embedding_length"@;
        assert forall|j: int| 0 <= j < arch.len() implies k[j] != '.' by {
            assert(k[j] == arch[j]);
        }
        assert(k[arch.len() as int] == '.');
        lemma_find_char_at(k, '.', 0, arch.len() as int);
        assert(k.take(arch.len() as int) =~= arch);
        assert(k.skip(arch.len() as int + 1) =~= "embedding_length"@);
    }
    assert(spec_split_once(arch + "."@ + "attention.head_count"@, '.') == Some((arch, "attention.head_count"@))) by {
        let k = arch + "."@ + "attention.head_count"@;
        assert forall|j: int| 0 <= j < arch.len() implies k[j] != '.' by {
            assert(k[j] == arch[j]);
        }
        assert(k[arch.len() as int] == '.');
        lemma_find_char_at(k, '.', 0, arch.len() as int);
        assert(k.take(arch.len() as int) =~= arch);
        assert(k.skip(arch.len() as int + 1) =~= "attention.head_count"@);
    }
    assert(spec_split_once(arch + "."@ + "attention.head_count_kv"@, '.') == Some((arch, "attention.head_count_kv"@))) by {
        let k = arch + "."@ + "attention.head_count_kv"@;
        assert forall|j: int| 0 <= j < arch.len() implies k[j] != '.' by {
            assert(k[j] == arch[j]);
        }
        assert(k[arch.len() as int] == '.');
        lemma_find_char_at(k, '.', 0, arch.len() as int);
        assert(k.take(arch.len() as int) =~= arch);
        assert(k.skip(arch.len() as int + 1) =~= "attention.head_count_kv"@);
    }
    assert(spec_split_once(arch + "."@ + "attention.key_length"@, '.') == Some((arch, "attention.key_length"@))) by {
        let k = arch + "."@ + "attention.key_length"@;
        assert forall|j: int| 0 <= j < arch.len() implies k[j] != '.' by {
            assert(k[j] == arch[j]);
        }
        assert(k[arch.len() as int] == '.');
        lemma_find_char_at(k, '.', 0, arch.len() as int);
        assert(k.take(arch.len() as int) =~= arch);
        assert(k.skip(arch.len() as int + 1) =~= "attention.key_length"@);
    }
    assert(spec_split_once(arch + "."@ + "feed_forward_length"@, '.') == Some((arch, "feed_forward_length"@))) by {
        let k = arch + "."@ + "feed_forward_length"@;
        assert forall|j: int| 0 <= j < arch.len() implies k[j] != '.' by {
            assert(k[j] == arch[j]);
        }
        assert(k[arch.len() as int] == '.');
        lemma_find_char_at(k, '.', 0, arch.len() as int);
        assert(k.take(arch.len() as int) =~= arch);
        assert(k.skip(arch.len() as int + 1) =~= "feed_forward_length"@);
    }
    assert(spec_split_once(arch + "."@ + "attention.layer_norm_rms_epsilon"@, '.') == Some((arch, "attention.layer_norm_rms_epsilon"@))) by {
        let k = arch + "."@ + "attention.layer_norm_rms_epsilon"@;
        assert forall|j: int| 0 <= j < arch.len() implies k[j] != '.' by {
            assert(k[j] == arch[j]);
        }
        assert(k[arch.len() as int] == '.');
        lemma_find_char_at(k, '.', 0, arch.len() as int);
        assert(k.take(arch.len() as int) =~= arch);
        assert(k.skip(arch.len() as int + 1) =~= "attention.layer_norm_rms_epsilon"@);
    }
    assert(spec_split_once(arch + "."@ + "rope.freq_base"@, '.') == Some((arch, "rope.freq_base"@))) by {
        let k = arch + "."@ + "rope.freq_base"@;
        assert forall|j: int| 0 <= j < arch.len() implies k[j] != '.' by {
            assert(k[j] == arch[j]);
        }
        assert(k[arch.len() as int] == '.');
        lemma_find_char_at(k, '.', 0, arch.len() as int);
        assert(k.take(arch.len() as int) =~= arch);
        assert(k.skip(arch.len() as int + 1) =~= "rope.freq_base"@);
    }
}

/// Map a GGUF metadata key (`{arch}.suffix`) to a config.json key.
pub fn config_key(gguf_key: &str) -> (r: &'static str)
    ensures
        r@ == spec_config_key(gguf_key@),
{
    let suffix = match split_once(gguf_key, '.') {
        Some((_, s)) => s,
        None => gguf_key,
    };
    proof {
        reveal_strlit("");
    }
    if str_eq(suffix, "block_count") {
        "num_hidden_layers"
    } else if str_eq(suffix, "embedding_length") {
        "hidden_size"
    } else if str_eq(suffix, "attention.head_count") {
        "num_attention_heads"
    } else if str_eq(suffix, "attention.head_count_kv") {
        "num_key_value_heads"
    } else if str_eq(suffix, "attention.key_length") {
        "head_dim"
    } else if str_eq(suffix, "feed_forward_length") {
        "intermediate_size"
    } else if str_eq(suffix, "attention.layer_norm_rms_epsilon") {
        "rms_norm_eps"
    } else if str_eq(suffix, "rope.freq_base") {
        "rope_theta"
    } else {
        ""
    }
}

// ---------------------------------------------------------------------------
// JSON access, as serde_json's `Value` indexing reads it.

/// The members of a JSON object as (key, value) pairs.
pub open spec fn members(o: Seq<(String, Json)>) -> Seq<(Seq<char>, Json)> {
    o.map_values(|e: (String, Json)| (e.0@, e.1))
}

/// `j[key]`: the member's value; `None` (JSON null) when `j` is not an object
/// or has no such member.
pub open spec fn json_get(j: Json, key: Seq<char>) -> Option<Json> {
    match j {
        Json::Object(o) => lookup(members(o@), key),
        _ => None,
    }
}

/// `j[key]`.
pub fn get<'a>(j: &'a Json, key: &str) -> (r: Option<&'a Json>)
    ensures
        r matches Some(v) ==> json_get(*j, key@) == Some(*v),
        r is None ==> json_get(*j, key@) is None,
{
    match j {
        Json::Object(o) => {
            let ghost ms = members(o@);
            let mut i = o.len();
            while i > 0
                invariant
                    *j == Json::Object(*o),
                    i <= o@.len(),
                    ms == members(o@),
                    find_last_in(ms, key@, i as int) == find_last(ms, key@),
                decreases i,
            {
                assert(ms[i - 1] == (o@[i - 1].0@, o@[i - 1].1));
                if str_eq(o[i - 1].0.as_str(), key) {
                    return Some(&o[i - 1].1);
                }
                i -= 1;
            }
            None
        },
        _ => None,
    }
}

// ---------------------------------------------------------------------------
// The header.

/// Where a tensor lives, by its header entry.
#[derive(Debug)]
pub struct Entry {
    pub dtype: String,
    pub n_elems: usize,
    /// Byte range in the data section.
    pub start: usize,
    pub end: usize,
}

/// An [`Entry`] with its dtype as characters.
pub struct EntryV {
    pub dtype: Seq<char>,
    pub n_elems: usize,
    pub start: usize,
    pub end: usize,
}

impl View for Entry {
    type V = EntryV;

    open spec fn view(&self) -> EntryV {
        EntryV { dtype: self.dtype@, n_elems: self.n_elems, start: self.start, end: self.end }
    }
}

/// A shape dimension: the number when it is a non-negative integer, else 0.
pub open spec fn shape_dim(x: Json) -> int {
    match x {
        Json::PosInt(u) => (u as usize) as int,
        _ => 0,
    }
}

/// Product of the dimensions, multiplied left to right.
pub open spec fn shape_product(d: Seq<int>) -> int
    decreases d.len(),
{
    if d.len() == 0 {
        1
    } else {
        shape_product(d.drop_last()) * d.last()
    }
}

/// No partial product of the dimensions leaves `usize`.
pub open spec fn shape_product_fits(d: Seq<int>) -> bool
    decreases d.len(),
{
    if d.len() == 0 {
        true
    } else {
        shape_product_fits(d.drop_last()) && 0 <= shape_product(d) <= usize::MAX
    }
}

/// The dimensions in an entry's `shape` (none when it is not an array).
pub open spec fn entry_shape(v: Json) -> Seq<int> {
    match json_get(v, "shape"@) {
        Some(Json::Array(a)) => a@.map_values(|x: Json| shape_dim(x)),
        _ => Seq::empty(),
    }
}

/// What one header entry reads as: `None` where the reader would fail
/// (`data_offsets` shorter than two or not non-negative integers, or the
/// element count overflowing), an error when `data_offsets` is not an array.
/// The dtype defaults to empty; the element count is at least 1.
pub open spec fn entry_of(v: Json) -> Option<Result<EntryV, Seq<char>>> {
    let dtype = match json_get(v, "dtype"@) {
        Some(Json::Str(s)) => s@,
        _ => Seq::empty(),
    };
    let shape = entry_shape(v);
    match json_get(v, "data_offsets"@) {
        Some(Json::Array(off)) => if off@.len() >= 2 && off@[0] is PosInt && off@[1] is PosInt
            && shape_product_fits(shape) {
            let p = shape_product(shape);
            Some(
                Ok(
                    EntryV {
                        dtype,
                        n_elems: if p == 0 {
                            1
                        } else {
                            p as usize
                        },
                        start: off@[0]->PosInt_0 as usize,
                        end: off@[1]->PosInt_0 as usize,
                    },
                ),
            )
        } else {
            None
        },
        _ => Some(Err("missing data_offsets"@)),
    }
}

/// The first `k` header members read in order, skipping `__metadata__`;
/// the first error ends the read.
pub open spec fn spec_entries(o: Seq<(String, Json)>, k: nat) -> Option<
    Result<Seq<(Seq<char>, EntryV)>, Seq<char>>,
>
    decreases k,
{
    if k == 0 {
        Some(Ok(Seq::empty()))
    } else {
        match spec_entries(o, (k - 1) as nat) {
            None => None,
            Some(Err(e)) => Some(Err(e)),
            Some(Ok(es)) => if o[k - 1].0@ == "__metadata__"@ {
                Some(Ok(es))
            } else {
                match entry_of(o[k - 1].1) {
                    None => None,
                    Some(Err(e)) => Some(Err(e)),
                    Some(Ok(en)) => Some(Ok(es.push((o[k - 1].0@, en)))),
                }
            },
        }
    }
}

/// What a parsed header reads as (see [`entry_of`]).
pub open spec fn spec_from_header(h: Json) -> Option<Result<Seq<(Seq<char>, EntryV)>, Seq<char>>> {
    match h {
        Json::Object(o) => spec_entries(o@, o@.len()),
        _ => Some(Err("safetensors header not an object"@)),
    }
}

/// The header fits in the file: 8 length bytes, then that many header bytes.
pub open spec fn header_fits(b: Seq<u8>) -> bool {
    b.len() >= 8 && 8 + (le64(b, 0) as usize) <= b.len()
}

proof fn lemma_entries_stop(o: Seq<(String, Json)>, k: nat, n: nat)
    requires
        k <= n,
        spec_entries(o, k) is None || spec_entries(o, k) matches Some(Err(_)),
    ensures
        spec_entries(o, n) == spec_entries(o, k),
    decreases n,
{
    if n > k {
        lemma_entries_stop(o, k, (n - 1) as nat);
    }
}

proof fn lemma_shape_fits_prefix(d: Seq<int>, i: int)
    requires
        shape_product_fits(d),
        0 <= i <= d.len(),
    ensures
        shape_product_fits(d.take(i)),
    decreases d.len(),
{
    if i == d.len() {
        assert(d.take(i) =~= d);
    } else {
        lemma_shape_fits_prefix(d.drop_last(), i);
        assert(d.drop_last().take(i) =~= d.take(i));
    }
}

/// Product of an entry's shape (`None` on overflow).
fn shape_of(v: &Json) -> (r: Option<usize>)
    ensures
        shape_product_fits(entry_shape(*v)) ==> r == Some(shape_product(entry_shape(*v)) as usize),
        !shape_product_fits(entry_shape(*v)) ==> r is None,
{
    match get(v, "shape") {
        Some(Json::Array(a)) => {
            let ghost d = entry_shape(*v);
            let mut prod: usize = 1;
            let mut i: usize = 0;
            assert(d.take(0) =~= Seq::<int>::empty());
            while i < a.len()
                invariant
                    d == entry_shape(*v),
                    json_get(*v, "shape"@) == Some(Json::Array(*a)),
                    d == a@.map_values(|x: Json| shape_dim(x)),
                    i <= a@.len(),
                    shape_product_fits(d.take(i as int)),
                    prod == shape_product(d.take(i as int)),
                decreases a@.len() - i,
            {
                let x: usize = match &a[i] {
                    Json::PosInt(u) => *u as usize,
                    _ => 0,
                };
                proof {
                    assert(d.take(i + 1).drop_last() =~= d.take(i as int));
                    assert(d.take(i + 1).last() == x);
                }
                match prod.checked_mul(x) {
                    Some(p) => {
                        prod = p;
                    },
                    None => {
                        proof {
                            assert(shape_product(d.take(i + 1)) == prod * x);
                            if shape_product_fits(d) {
                                lemma_shape_fits_prefix(d, i + 1);
                            }
                        }
                        return None;
                    },
                }
                i += 1;
            }
            assert(d.take(a@.len() as int) =~= d);
            Some(prod)
        },
        _ => Some(1),
    }
}

/// Read one header entry (see [`entry_of`]).
fn read_entry(v: &Json) -> (r: Option<Result<Entry, String>>)
    ensures
        (match entry_of(*v) {
            None => r is None,
            Some(Err(e)) => r matches Some(Err(m)) && m@ == e,
            Some(Ok(en)) => r matches Some(Ok(x)) && x@ == en,
        }),
{
    let dtype = match get(v, "dtype") {
        Some(Json::Str(s)) => s.clone(),
        _ => String::new(),
    };
    let off = match get(v, "data_offsets") {
        Some(Json::Array(off)) => off,
        _ => {
            return Some(Err(String::from_str("missing data_offsets")));
        },
    };
    let n_elems = match shape_of(v) {
        Some(p) => if p == 0 {
            1
        } else {
            p
        },
        None => {
            return None;
        },
    };
    if off.len() < 2 {
        return None;
    }
    let start = match &off[0] {
        Json::PosInt(u) => *u as usize,
        _ => {
            return None;
        },
    };
    let end = match &off[1] {
        Json::PosInt(u) => *u as usize,
        _ => {
            return None;
        },
    };
    Some(Ok(Entry { dtype, n_elems, start, end }))
}

struct Scan {
    names: Vec<String>,
    entries: Vec<Entry>,
}

spec fn scan_is(s: Scan, es: Seq<(Seq<char>, EntryV)>) -> bool {
    &&& s.names@.len() == es.len()
    &&& s.entries@.len() == es.len()
    &&& forall|j: int|
        0 <= j < es.len() ==> #[trigger] es[j] == (s.names@[j]@, s.entries@[j]@)
}

fn scan_header(h: &Json) -> (r: Option<Result<Scan, String>>)
    ensures
        (match spec_from_header(*h) {
            None => r is None,
            Some(Err(e)) => r matches Some(Err(m)) && m@ == e,
            Some(Ok(es)) => r matches Some(Ok(s)) && scan_is(s, es),
        }),
{
    let o = match h {
        Json::Object(o) => o,
        _ => {
            return Some(Err(String::from_str("safetensors header not an object")));
        },
    };
    let mut names: Vec<String> = Vec::new();
    let mut entries: Vec<Entry> = Vec::new();
    let ghost mut es: Seq<(Seq<char>, EntryV)> = Seq::empty();
    let mut k: usize = 0;
    while k < o.len()
        invariant
            *h == Json::Object(*o),
            k <= o@.len(),
            spec_entries(o@, k as nat) == Some(Ok::<Seq<(Seq<char>, EntryV)>, Seq<char>>(es)),
            scan_is(Scan { names, entries }, es),
        decreases o@.len() - k,
    {
        let name = &o[k].0;
        if str_eq(name.as_str(), "__metadata__") {
            k += 1;
            continue;
        }
        match read_entry(&o[k].1) {
            None => {
                proof {
                    lemma_entries_stop(o@, (k + 1) as nat, o@.len());
                }
                return None;
            },
            Some(Err(e)) => {
                proof {
                    lemma_entries_stop(o@, (k + 1) as nat, o@.len());
                }
                return Some(Err(e));
            },
            Some(Ok(en)) => {
                proof {
                    es = es.push((name@, en@));
                }
                names.push(name.clone());
                entries.push(en);
            },
        }
        k += 1;
    }
    Some(Ok(Scan { names, entries }))
}

// ---------------------------------------------------------------------------
// The weights.

/// What a safetensors file holds: its tensor entries (HF names), the file
/// bytes, where the data section starts, and the model's config.json.
pub struct SafetensorsView {
    pub tensors: Seq<(Seq<char>, EntryV)>,
    pub bytes: Seq<u8>,
    pub data_base: int,
    pub config: Json,
}

pub struct SafetensorsWeights {
    names: Vec<String>,
    entries: Vec<Entry>,
    bytes: Vec<u8>,
    data_base: usize,
    config: Json,
}

impl View for SafetensorsWeights {
    type V = SafetensorsView;

    closed spec fn view(&self) -> SafetensorsView {
        SafetensorsView {
            tensors: Seq::new(
                self.names@.len(),
                |i: int| (self.names@[i]@, self.entries@[i]@),
            ),
            bytes: self.bytes@,
            data_base: self.data_base as int,
            config: self.config,
        }
    }
}

/// What decoding entry `e` gives: its bytes are `bytes[base + start ..
/// base + end]`, its dtype picks the decoder (`F32`, `F16`, `BF16`), and bytes
/// out of range are an error.
pub open spec fn entry_decodes(e: EntryV, bytes: Seq<u8>, base: int, r: Result<Vec<u32>, TensorError>) -> bool {
    let lo = base + e.start;
    let hi = base + e.end;
    let n = e.n_elems as int;
    if lo > hi || hi > bytes.len() {
        r == Err::<Vec<u32>, TensorError>(TensorError::Truncated)
    } else {
        let b = bytes.subrange(lo, hi);
        if e.dtype == "F32"@ {
            if 4 * n <= b.len() {
                r matches Ok(v) && dequant::f32_decoded(b, n, v@)
            } else {
                r == Err::<Vec<u32>, TensorError>(TensorError::Truncated)
            }
        } else if e.dtype == "F16"@ {
            if 2 * n <= b.len() {
                r matches Ok(v) && dequant::f16_decoded(b, n, v@)
            } else {
                r == Err::<Vec<u32>, TensorError>(TensorError::Truncated)
            }
        } else if e.dtype == "BF16"@ {
            if 2 * n <= b.len() {
                r matches Ok(v) && dequant::bf16_decoded(b, n, v@)
            } else {
                r == Err::<Vec<u32>, TensorError>(TensorError::Truncated)
            }
        } else {
            r matches Err(TensorError::UnsupportedFormat(d)) && d@ == e.dtype
        }
    }
}

/// The `u32` a config value reads as: a non-negative integer truncated, else 0.
pub open spec fn config_as_u32(v: Option<Json>) -> u32 {
    match v {
        Some(Json::PosInt(u)) => u as u32,
        _ => 0,
    }
}

/// The length of the JSON header (the first 8 bytes, little-endian).
pub fn header_len(bytes: &[u8]) -> (r: usize)
    requires
        bytes@.len() >= 8,
    ensures
        r == le64(bytes@, 0) as usize,
{
    let lo = bytes[0] as u64 + (bytes[1] as u64) * 0x100 + (bytes[2] as u64) * 0x1_0000 + (
    bytes[3] as u64) * 0x100_0000;
    let hi = bytes[4] as u64 + (bytes[5] as u64) * 0x100 + (bytes[6] as u64) * 0x1_0000 + (
    bytes[7] as u64) * 0x100_0000;
    (lo + hi * 0x1_0000_0000) as usize
}

/// What `serde_json::from_slice` makes of the header bytes: the JSON value in
/// the library's form, or the text of its error.
pub uninterp spec fn json_parse(b: Seq<u8>) -> Result<Json, Seq<char>>;

/// `serde_json::from_slice::<serde_json::Value>` of `b`, the value as a
/// [`Json`] and the error as text; the outcome is named [`json_parse`] of the
/// bytes. Which texts parse, and into what, is serde_json's JSON grammar and is
/// not stated.
#[verifier::external_body]
fn json_from_slice(b: &[u8]) -> (r: Result<Json, String>)
    ensures
        match r {
            Ok(j) => json_parse(b@) == Ok::<Json, Seq<char>>(j),
            Err(e) => json_parse(b@) == Err::<Json, Seq<char>>(e@),
        },
{
    serde_json::from_slice::<Value>(b).map(|v| json_of(&v)).map_err(|e| e.to_string())
}

#[verifier::external_type_specification]
#[verifier::external_body]
pub struct ExJsonValue(Value);

/// The conversion half of [`json_from_slice`]: each `serde_json::Value`
/// variant as the matching [`Json`] variant (an integer that fits a `u64` as
/// `PosInt`, another integer as `NegInt`, any other number by its binary64
/// bits), object members in the map's order. Only `json_from_slice` calls it;
/// that function's contract covers the pair.
#[verifier::external_body]
fn json_of(v: &Value) -> Json {
    match v {
        Value::Null => Json::Null,
        Value::Bool(b) => Json::Bool(*b),
        Value::Number(n) => match (n.as_u64(), n.as_i64()) {
            (Some(u), _) => Json::PosInt(u),
            (None, Some(i)) => Json::NegInt(i),
            _ => Json::Float(n.as_f64().map_or(0u64, |x| x.to_bits())),
        },
        Value::String(x) => Json::Str(x.clone()),
        Value::Array(a) => Json::Array(a.iter().map(json_of).collect()),
        Value::Object(o) => Json::Object(o.iter().map(|(k, x)| (k.clone(), json_of(x))).collect()),
    }
}

/// The header bytes of a Safetensors file: after the 8 length bytes, as many
/// as they give.
pub open spec fn header_bytes(b: Seq<u8>) -> Seq<u8> {
    b.subrange(8, 8 + (le64(b, 0) as usize))
}

impl SafetensorsWeights {
    /// Parse `.safetensors` bytes (the header read as JSON) with the model's
    /// `config.json`. A header that is not JSON gives the parser's error; an
    /// entry whose `data_offsets` is not two non-negative integers, or whose
    /// shape overflows, gives an error where a bare reader would fail.
    pub fn parse(bytes: Vec<u8>, config: Json) -> (r: Result<Self, String>)
        requires
            header_fits(bytes@),
        ensures
            (match json_parse(header_bytes(bytes@)) {
                Err(e) => r matches Err(m) && m@ == e,
                Ok(h) => match spec_from_header(h) {
                    Some(Ok(es)) => r matches Ok(w) && w@ == SafetensorsView {
                        tensors: es,
                        bytes: bytes@,
                        data_base: 8 + (le64(bytes@, 0) as usize),
                        config,
                    },
                    Some(Err(e)) => r matches Err(m) && m@ == e,
                    None => r matches Err(m) && m@ == "malformed data_offsets or shape"@,
                },
            }),
    {
        let _len = bytes.len();
        let hl = header_len(bytes.as_slice());
        let header = json_from_slice(slice_subrange(bytes.as_slice(), 8, 8 + hl))?;
        if !Self::header_readable(&header) {
            return Err(String::from_str("malformed data_offsets or shape"));
        }
        Self::from_header(bytes, &header, config)
    }

    /// The parsed header reads without failing (see [`entry_of`]).
    pub fn header_readable(header: &Json) -> (r: bool)
        ensures
            r == (spec_from_header(*header) is Some),
    {
        scan_header(header).is_some()
    }

    /// Build from the file bytes, its header parsed as JSON, and the model's
    /// `config.json`.
    pub fn from_header(bytes: Vec<u8>, header: &Json, config: Json) -> (r: Result<Self, String>)
        requires
            header_fits(bytes@),
            spec_from_header(*header) is Some,
        ensures
            (match spec_from_header(*header) {
                Some(Ok(es)) => r matches Ok(w) && w@ == SafetensorsView {
                    tensors: es,
                    bytes: bytes@,
                    data_base: 8 + (le64(bytes@, 0) as usize),
                    config,
                },
                Some(Err(e)) => r matches Err(m) && m@ == e,
                None => false,
            }),
    {
        let _len = bytes.len();
        let hl = header_len(bytes.as_slice());
        match scan_header(header) {
            Some(Ok(s)) => {
                let ghost es = spec_from_header(*header)->Some_0->Ok_0;
                let w = SafetensorsWeights {
                    names: s.names,
                    entries: s.entries,
                    bytes,
                    data_base: 8 + hl,
                    config,
                };
                assert(w@.tensors =~= es);
                Ok(w)
            },
            Some(Err(e)) => Err(e),
            None => Err(String::new()),
        }
    }

    /// Is a tensor of this (GGUF) name present?
    pub fn has(&self, name: &str) -> (r: bool)
        ensures
            r == (find_last(self@.tensors, spec_to_hf(name@)) is Some),
    {
        proof {
            use_type_invariant(self);
        }
        let hf = to_hf(name);
        self.find(hf.as_str()).is_some()
    }

    /// The config value for a GGUF metadata key, as a `u32` (0 when absent).
    pub fn meta_u32(&self, key: &str) -> (r: u32)
        ensures
            r == config_as_u32(json_get(self@.config, spec_config_key(key@))),
    {
        match get(&self.config, config_key(key)) {
            Some(Json::PosInt(u)) => *u as u32,
            _ => 0,
        }
    }

    /// The config value for a GGUF metadata key, if the config has one.
    pub fn config_value(&self, key: &str) -> (r: Option<&Json>)
        ensures
            r matches Some(v) ==> json_get(self@.config, spec_config_key(key@)) == Some(*v),
            r is None ==> json_get(self@.config, spec_config_key(key@)) is None,
    {
        get(&self.config, config_key(key))
    }

    fn find(&self, hf_name: &str) -> (r: Option<usize>)
        requires
            self.names@.len() == self.entries@.len(),
        ensures
            r matches Some(i) ==> i < self.entries@.len() && find_last(self@.tensors, hf_name@)
                == Some(i as int),
            r is None ==> find_last(self@.tensors, hf_name@) is None,
    {
        let ghost ts = self@.tensors;
        let mut i = self.names.len();
        while i > 0
            invariant
                i <= self.names@.len(),
                self.names@.len() == self.entries@.len(),
                self.names@.len() == ts.len(),
                ts == self@.tensors,
                find_last_in(ts, hf_name@, i as int) == find_last(ts, hf_name@),
            decreases i,
        {
            if str_eq(self.names[i - 1].as_str(), hf_name) {
                return Some(i - 1);
            }
            i -= 1;
        }
        None
    }

    /// Decode a tensor, by its HF name, to binary32 bit patterns.
    pub fn tensor_f32(&self, hf_name: &str) -> (r: Result<Vec<u32>, TensorError>)
        ensures
            (match lookup(self@.tensors, hf_name@) {
                None => r == Err::<Vec<u32>, TensorError>(TensorError::Missing),
                Some(e) => entry_decodes(e, self@.bytes, self@.data_base, r),
            }),
    {
        proof {
            use_type_invariant(self);
        }
        let i = match self.find(hf_name) {
            Some(i) => i,
            None => {
                return Err(TensorError::Missing);
            },
        };
        let e = &self.entries[i];
        let len = self.bytes.len();
        let lo = match self.data_base.checked_add(e.start) {
            Some(x) => x,
            None => {
                return Err(TensorError::Truncated);
            },
        };
        let hi = match self.data_base.checked_add(e.end) {
            Some(x) => x,
            None => {
                return Err(TensorError::Truncated);
            },
        };
        if lo > hi || hi > len {
            return Err(TensorError::Truncated);
        }
        let b = slice_subrange(self.bytes.as_slice(), lo, hi);
        let n = e.n_elems;
        let room = hi - lo;
        proof {
            assert(room * 1 == room);
            assert((n <= room / 4) == (4 * n <= room)) by (nonlinear_arith);
            assert((n <= room / 2) == (2 * n <= room)) by (nonlinear_arith);
        }
        if str_eq(e.dtype.as_str(), "F32") {
            if n <= room / 4 {
                Ok(dequant::dequant_f32(b, n))
            } else {
                Err(TensorError::Truncated)
            }
        } else if str_eq(e.dtype.as_str(), "F16") {
            if n <= room / 2 {
                Ok(dequant::dequant_f16(b, n))
            } else {
                Err(TensorError::Truncated)
            }
        } else if str_eq(e.dtype.as_str(), "BF16") {
            if n <= room / 2 {
                Ok(dequant::dequant_bf16(b, n))
            } else {
                Err(TensorError::Truncated)
            }
        } else {
            Err(TensorError::UnsupportedFormat(e.dtype.clone()))
        }
    }

    #[verifier::type_invariant]
    closed spec fn wf(&self) -> bool {
        self.names@.len() == self.entries@.len()
    }
}

} // verus!
