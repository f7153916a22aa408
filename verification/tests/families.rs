use chat_wgpu::arch::{Block, Mask};
use chat_wgpu::families::{qwen2, Family};
use chat_wgpu::kernels::{Activation, NormKind};

#[test]
fn from_arch_resolves_names() {
    assert_eq!(Family::from_arch("qwen3").name, "qwen3");
    assert_eq!(Family::from_arch("qwen2").name, "qwen2");
    assert_eq!(Family::from_arch("gemma").name, "gemma");
    assert_eq!(Family::from_arch("gemma2").name, "gemma");
    assert_eq!(Family::from_arch("gemma3").name, "gemma");
    assert_eq!(Family::from_arch("mistral").name, "llama");
    assert_eq!(Family::from_arch("").name, "llama");
}

#[test]
fn family_params() {
    let q = Family::from_arch("qwen3");
    assert_eq!(f32::from_bits(q.params.eps_bits), 1e-6);
    assert_eq!(f32::from_bits(q.params.rope_theta_bits), 1_000_000.0);
    let l = Family::from_arch("llama");
    assert_eq!(f32::from_bits(l.params.eps_bits), 1e-5);
    assert_eq!(f32::from_bits(l.params.rope_theta_bits), 10_000.0);
    assert_eq!(l.params.sliding_window, None);
    let g = Family::from_arch("gemma3");
    assert_eq!(g.params.sliding_window, Some(4096));
    assert_eq!(g.params.final_logit_softcap_bits.map(f32::from_bits), Some(30.0));
}

#[test]
fn family_layers() {
    let q = Family::from_arch("qwen3");
    assert_eq!(q.layer.len(), 17);
    assert!(q.layer.contains(&Block::QkNorm));
    let g = Family::from_arch("gemma");
    assert_eq!(g.layer.len(), 18);
    assert!(g.layer.contains(&Block::Attention(Mask::Sliding(4096))));
    assert!(g.layer.contains(&Block::GeGlu));
    assert!(!g.layer.contains(&Block::RmsNorm));
    let l = Family::from_arch("llama");
    assert_eq!(l.layer.len(), 16);
    assert!(!l.layer.contains(&Block::QkNorm));
    assert_eq!(Family::from_arch("qwen2").layer, l.layer);
}

#[test]
fn qwen2_spec() {
    let s = qwen2::spec();
    assert_eq!(s.name, "qwen2");
    assert_eq!(s.norm, NormKind::Plain);
    assert_eq!(s.activation, Activation::SwiGlu);
    assert!(!s.use_qk_norm && s.attn_qkv_bias && !s.attn_o_bias && s.tie_word_embeddings);
    assert_eq!(f32::from_bits(s.default_rope_theta_bits), 1_000_000.0);
    assert_eq!(s.sliding_window, None);
    assert_eq!(s.final_logit_softcap_bits, None);
}
