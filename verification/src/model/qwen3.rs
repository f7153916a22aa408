//! The Qwen3 load plan.
//!
//! Qwen3 reads its shape from the `qwen3.*` metadata. Each decoder layer
//! loads an attention norm, the query, key, value and output projections, the
//! per-head norms of queries and keys, an MLP norm and the three MLP
//! projections. The model as a whole loads the token embedding, the LM head
//! (tied to the embedding when the file has no `output.weight`) and the final
//! norm.

use vstd::prelude::*;

use super::{block_prefix, child_name, spec_block_prefix, spec_child};
use crate::loader::safetensors::{lemma_hf_part_table, spec_hf_part, spec_to_hf};
use crate::text::{
    decimal, digit_char, lemma_find_char_at, spec_split_once, spec_strip_prefix, spec_strip_suffix,
};

verus! {

/// The shape of a Qwen3 model, as its metadata gives it.
#[derive(Clone, Copy, Debug, PartialEq, Eq, Structural)]
pub struct Qwen3Dims {
    pub n_layers: usize,
    pub dim: usize,
    pub n_heads: usize,
    pub n_kv_heads: usize,
    pub head_dim: usize,
    pub hidden: usize,
    pub vocab: usize,
}

/// A projection to load: its tensor name (without `.weight`) and `[in_f, out_f]`.
#[derive(Debug)]
pub struct ProjPlan {
    pub name: String,
    pub in_f: usize,
    pub out_f: usize,
}

/// A norm gain to load: its tensor name (without `.weight`) and length.
#[derive(Debug)]
pub struct NormPlan {
    pub name: String,
    pub len: usize,
}

/// Everything one decoder layer loads, in load order.
#[derive(Debug)]
pub struct LayerPlan {
    pub attn_norm: NormPlan,
    pub wq: ProjPlan,
    pub wk: ProjPlan,
    pub wv: ProjPlan,
    pub wo: ProjPlan,
    pub q_norm: NormPlan,
    pub k_norm: NormPlan,
    pub ffn_norm: NormPlan,
    pub gate: ProjPlan,
    pub up: ProjPlan,
    pub down: ProjPlan,
}

/// `"blk.{i}.{part}"`.
pub open spec fn layer_tensor(i: nat, part: Seq<char>) -> Seq<char> {
    spec_child(spec_block_prefix(i), part)
}

/// The projection plan `name`, `[in_f, out_f]`.
pub open spec fn is_proj(p: ProjPlan, name: Seq<char>, in_f: int, out_f: int) -> bool {
    p.name@ == name && p.in_f == in_f && p.out_f == out_f
}

/// The norm plan `name` of length `len`.
pub open spec fn is_norm(p: NormPlan, name: Seq<char>, len: int) -> bool {
    p.name@ == name && p.len == len
}

fn proj(prefix: &str, part: &str, in_f: usize, out_f: usize) -> (p: ProjPlan)
    ensures
        is_proj(p, spec_child(prefix@, part@), in_f as int, out_f as int),
{
    ProjPlan { name: child_name(prefix, part), in_f, out_f }
}

fn norm(prefix: &str, part: &str, len: usize) -> (p: NormPlan)
    ensures
        is_norm(p, spec_child(prefix@, part@), len as int),
{
    NormPlan { name: child_name(prefix, part), len }
}

impl Qwen3Dims {
    /// The derived sizes (`n_heads * head_dim`, `n_kv_heads * head_dim` and
    /// the `vocab * dim` embedding table) fit a `usize`.
    pub open spec fn wf(self) -> bool {
        &&& self.n_heads * self.head_dim <= usize::MAX
        &&& self.n_kv_heads * self.head_dim <= usize::MAX
        &&& self.vocab * self.dim <= usize::MAX
    }

    /// The width of the concatenated query heads.
    pub open spec fn spec_q_dim(self) -> int {
        self.n_heads * self.head_dim
    }

    /// The width of the concatenated key (and value) heads.
    pub open spec fn spec_kv_dim(self) -> int {
        self.n_kv_heads * self.head_dim
    }

    /// The shape from its metadata values, if the derived sizes fit.
    pub fn new(
        n_layers: usize,
        dim: usize,
        n_heads: usize,
        n_kv_heads: usize,
        head_dim: usize,
        hidden: usize,
        vocab: usize,
    ) -> (r: Option<Qwen3Dims>)
        ensures
            r matches Some(d) ==> d.wf() && d == (Qwen3Dims {
                n_layers,
                dim,
                n_heads,
                n_kv_heads,
                head_dim,
                hidden,
                vocab,
            }),
            r is None <==> !(Qwen3Dims { n_layers, dim, n_heads, n_kv_heads, head_dim, hidden, vocab }).wf(),
    {
        if n_heads.checked_mul(head_dim).is_none() || n_kv_heads.checked_mul(head_dim).is_none()
            || vocab.checked_mul(dim).is_none() {
            return None;
        }
        Some(Qwen3Dims { n_layers, dim, n_heads, n_kv_heads, head_dim, hidden, vocab })
    }

    /// `n_heads * head_dim`.
    pub fn q_dim(&self) -> (n: usize)
        requires
            self.wf(),
        ensures
            n == self.spec_q_dim(),
    {
        self.n_heads * self.head_dim
    }

    /// `n_kv_heads * head_dim`, the row width of the KV cache.
    pub fn kv_dim(&self) -> (n: usize)
        requires
            self.wf(),
        ensures
            n == self.spec_kv_dim(),
    {
        self.n_kv_heads * self.head_dim
    }

    /// `vocab * dim`, the length of the raw embedding table.
    pub fn embed_len(&self) -> (n: usize)
        requires
            self.wf(),
        ensures
            n == self.vocab * self.dim,
    {
        self.vocab * self.dim
    }

    /// Where row `token` of the raw `[vocab, dim]` embedding table starts.
    pub fn embed_row(&self, token: u32) -> (off: usize)
        requires
            self.wf(),
            token < self.vocab,
        ensures
            off == token * self.dim,
            off + self.dim <= self.vocab * self.dim,
    {
        proof {
            assert(token * self.dim + self.dim <= self.vocab * self.dim) by (nonlinear_arith)
                requires
                    token < self.vocab,
            ;
        }
        token as usize * self.dim
    }

    /// The tensors of decoder layer `i`, with the shapes Qwen3 loads them at.
    pub fn layer(&self, i: usize) -> (p: LayerPlan)
        requires
            self.wf(),
        ensures
            is_norm(p.attn_norm, layer_tensor(i as nat, "attn_norm"@), self.dim as int),
            is_proj(p.wq, layer_tensor(i as nat, "attn_q"@), self.dim as int, self.spec_q_dim()),
            is_proj(p.wk, layer_tensor(i as nat, "attn_k"@), self.dim as int, self.spec_kv_dim()),
            is_proj(p.wv, layer_tensor(i as nat, "attn_v"@), self.dim as int, self.spec_kv_dim()),
            is_proj(
                p.wo,
                layer_tensor(i as nat, "attn_output"@),
                self.spec_q_dim(),
                self.dim as int,
            ),
            is_norm(p.q_norm, layer_tensor(i as nat, "attn_q_norm"@), self.head_dim as int),
            is_norm(p.k_norm, layer_tensor(i as nat, "attn_k_norm"@), self.head_dim as int),
            is_norm(p.ffn_norm, layer_tensor(i as nat, "ffn_norm"@), self.dim as int),
            is_proj(p.gate, layer_tensor(i as nat, "ffn_gate"@), self.dim as int, self.hidden as int),
            is_proj(p.up, layer_tensor(i as nat, "ffn_up"@), self.dim as int, self.hidden as int),
            is_proj(p.down, layer_tensor(i as nat, "ffn_down"@), self.hidden as int, self.dim as int),
    {
        let b = block_prefix(i);
        let pre = b.as_str();
        let q_dim = self.q_dim();
        let kv_dim = self.kv_dim();
        LayerPlan {
            attn_norm: norm(pre, "attn_norm", self.dim),
            wq: proj(pre, "attn_q", self.dim, q_dim),
            wk: proj(pre, "attn_k", self.dim, kv_dim),
            wv: proj(pre, "attn_v", self.dim, kv_dim),
            wo: proj(pre, "attn_output", q_dim, self.dim),
            q_norm: norm(pre, "attn_q_norm", self.head_dim),
            k_norm: norm(pre, "attn_k_norm", self.head_dim),
            ffn_norm: norm(pre, "ffn_norm", self.dim),
            gate: proj(pre, "ffn_gate", self.dim, self.hidden),
            up: proj(pre, "ffn_up", self.dim, self.hidden),
            down: proj(pre, "ffn_down", self.hidden, self.dim),
        }
    }
}

/// The LM head's tensor: `output` when the file ships `output.weight`, else
/// the token embedding, which the head is then tied to.
pub fn lm_head_name(has_output: bool) -> (r: &'static str)
    ensures
        r@ == if has_output { "output"@ } else { "token_embd"@ },
{
    if has_output {
        "output"
    } else {
        "token_embd"
    }
}

/// No digit of a decimal numeral is a dot.
proof fn lemma_decimal_has_no_dot(n: nat)
    ensures
        forall|j: int| 0 <= j < decimal(n).len() ==> decimal(n)[j] != '.',
        decimal(n).len() >= 1,
    decreases n,
{
    if n >= 10 {
        lemma_decimal_has_no_dot(n / 10);
        assert(digit_char(n % 10) != '.');
        assert forall|j: int| 0 <= j < decimal(n).len() implies decimal(n)[j] != '.' by {
            if j < decimal(n / 10).len() {
                assert(decimal(n)[j] == decimal(n / 10)[j]);
            }
        }
    } else {
        assert(digit_char(n) != '.');
    }
}


/// The safetensors loader finds every tensor of a decoder layer under its
/// HF name: for a part name without a dot, the GGUF name
/// `blk.{i}.{part}.weight` translates to
/// `model.layers.{i}.{hf part}.weight`.
pub proof fn lemma_layer_weight_translates(i: nat, part: Seq<char>)
    requires
        forall|j: int| 0 <= j < part.len() ==> part[j] != '.',
    ensures
        spec_to_hf(spec_child(layer_tensor(i, part), "weight"@)) == "model.layers."@ + decimal(i)
            + "."@ + spec_hf_part(part) + ".weight"@,
{
    reveal_strlit(".weight");
    reveal_strlit(".");
    reveal_strlit("weight");
    reveal_strlit("blk.");
    let d = decimal(i);
    lemma_decimal_has_no_dot(i);
    let stem = "blk."@ + d + "."@ + part;
    let g = spec_child(layer_tensor(i, part), "weight"@);
    assert(g =~= stem + ".weight"@);
    assert(g.skip(g.len() - ".weight"@.len()) =~= ".weight"@);
    assert(g.take(g.len() - ".weight"@.len()) =~= stem);
    assert(spec_strip_suffix(g, ".weight"@) == Some(stem));
    let rest = d + "."@ + part;
    assert(stem.take("blk."@.len() as int) =~= "blk."@);
    assert(stem.skip("blk."@.len() as int) =~= rest);
    assert(spec_strip_prefix(stem, "blk."@) == Some(rest));
    assert forall|j: int| 0 <= j < d.len() implies rest[j] != '.' by {
        assert(rest[j] == d[j]);
    }
    assert(rest[d.len() as int] == '.');
    lemma_find_char_at(rest, '.', 0, d.len() as int);
    assert(rest.take(d.len() as int) =~= d);
    assert(rest.skip(d.len() as int + 1) =~= part);
    assert(spec_split_once(rest, '.') == Some((d, part)));
}


/// Every weight a Qwen3 decoder layer loads is found in a Safetensors file
/// under its own HF name: `blk.{i}.attn_v.weight` is
/// `model.layers.{i}.self_attn.v_proj.weight`, `blk.{i}.attn_k.weight` is
/// `model.layers.{i}.self_attn.k_proj.weight`, and so on for every part.
pub proof fn lemma_layer_hf_names(i: nat)
    ensures
        spec_to_hf(spec_child(layer_tensor(i, "attn_norm"@), "weight"@)) == "model.layers."@ + decimal(i)
            + "."@ + "input_layernorm"@ + ".weight"@,
        spec_to_hf(spec_child(layer_tensor(i, "attn_q"@), "weight"@)) == "model.layers."@ + decimal(i)
            + "."@ + "self_attn.q_proj"@ + ".weight"@,
        spec_to_hf(spec_child(layer_tensor(i, "attn_k"@), "weight"@)) == "model.layers."@ + decimal(i)
            + "."@ + "self_attn.k_proj"@ + ".weight"@,
        spec_to_hf(spec_child(layer_tensor(i, "attn_v"@), "weight"@)) == "model.layers."@ + decimal(i)
            + "."@ + "self_attn.v_proj"@ + ".weight"@,
        spec_to_hf(spec_child(layer_tensor(i, "attn_output"@), "weight"@)) == "model.layers."@ + decimal(i)
            + "."@ + "self_attn.o_proj"@ + ".weight"@,
        spec_to_hf(spec_child(layer_tensor(i, "attn_q_norm"@), "weight"@)) == "model.layers."@ + decimal(i)
            + "."@ + "self_attn.q_norm"@ + ".weight"@,
        spec_to_hf(spec_child(layer_tensor(i, "attn_k_norm"@), "weight"@)) == "model.layers."@ + decimal(i)
            + "."@ + "self_attn.k_norm"@ + ".weight"@,
        spec_to_hf(spec_child(layer_tensor(i, "ffn_norm"@), "weight"@)) == "model.layers."@ + decimal(i)
            + "."@ + "post_attention_layernorm"@ + ".weight"@,
        spec_to_hf(spec_child(layer_tensor(i, "ffn_gate"@), "weight"@)) == "model.layers."@ + decimal(i)
            + "."@ + "mlp.gate_proj"@ + ".weight"@,
        spec_to_hf(spec_child(layer_tensor(i, "ffn_up"@), "weight"@)) == "model.layers."@ + decimal(i)
            + "."@ + "mlp.up_proj"@ + ".weight"@,
        spec_to_hf(spec_child(layer_tensor(i, "ffn_down"@), "weight"@)) == "model.layers."@ + decimal(i)
            + "."@ + "mlp.down_proj"@ + ".weight"@,
{
    lemma_hf_part_table();
    reveal_strlit("attn_norm");
    assert forall|j: int| 0 <= j < "attn_norm"@.len() implies "attn_norm"@[j] != '.' by {}
    lemma_layer_weight_translates(i, "attn_norm"@);
    reveal_strlit("attn_q");
    assert forall|j: int| 0 <= j < "attn_q"@.len() implies "attn_q"@[j] != '.' by {}
    lemma_layer_weight_translates(i, "attn_q"@);
    reveal_strlit("attn_k");
    assert forall|j: int| 0 <= j < "attn_k"@.len() implies "attn_k"@[j] != '.' by {}
    lemma_layer_weight_translates(i, "attn_k"@);
    reveal_strlit("attn_v");
    assert forall|j: int| 0 <= j < "attn_v"@.len() implies "attn_v"@[j] != '.' by {}
    lemma_layer_weight_translates(i, "attn_v"@);
    reveal_strlit("attn_output");
    assert forall|j: int| 0 <= j < "attn_output"@.len() implies "attn_output"@[j] != '.' by {}
    lemma_layer_weight_translates(i, "attn_output"@);
    reveal_strlit("attn_q_norm");
    assert forall|j: int| 0 <= j < "attn_q_norm"@.len() implies "attn_q_norm"@[j] != '.' by {}
    lemma_layer_weight_translates(i, "attn_q_norm"@);
    reveal_strlit("attn_k_norm");
    assert forall|j: int| 0 <= j < "attn_k_norm"@.len() implies "attn_k_norm"@[j] != '.' by {}
    lemma_layer_weight_translates(i, "attn_k_norm"@);
    reveal_strlit("ffn_norm");
    assert forall|j: int| 0 <= j < "ffn_norm"@.len() implies "ffn_norm"@[j] != '.' by {}
    lemma_layer_weight_translates(i, "ffn_norm"@);
    reveal_strlit("ffn_gate");
    assert forall|j: int| 0 <= j < "ffn_gate"@.len() implies "ffn_gate"@[j] != '.' by {}
    lemma_layer_weight_translates(i, "ffn_gate"@);
    reveal_strlit("ffn_up");
    assert forall|j: int| 0 <= j < "ffn_up"@.len() implies "ffn_up"@[j] != '.' by {}
    lemma_layer_weight_translates(i, "ffn_up"@);
    reveal_strlit("ffn_down");
    assert forall|j: int| 0 <= j < "ffn_down"@.len() implies "ffn_down"@[j] != '.' by {}
    lemma_layer_weight_translates(i, "ffn_down"@);
}

} // verus!
