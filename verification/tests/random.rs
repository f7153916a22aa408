use chat_wgpu::random::{draws, seed, RandomWeights};

#[test]
fn seed_hashes_name_bytes() {
    assert_eq!(seed(""), 1469598103934665603);
    assert_eq!(seed("a"), 4953267810257967366);
    assert_eq!(seed("blk.0.attn_q.weight"), 11602024851913366241);
}

#[test]
fn draws_follow_the_generator() {
    assert_eq!(draws(0, 3), vec![1817669548, 2187888307, 2784682393]);
    assert_eq!(draws(seed("a"), 2), vec![896813725, 521033616]);
    assert_eq!(draws(5, 0), Vec::<u32>::new());
    // seed | 1: an even seed and the next odd one draw the same values
    assert_eq!(draws(6, 4), draws(7, 4));
}

#[test]
fn random_metadata() {
    let w = RandomWeights { dim: 64, n_layers: 2, n_heads: 4, n_kv_heads: 2, head_dim: 16, hidden: 128, vocab: 256 };
    assert_eq!(w.meta_u32("qwen3.block_count"), 2);
    assert_eq!(w.meta_u32("qwen3.embedding_length"), 64);
    assert_eq!(w.meta_u32("qwen3.attention.head_count_kv"), 2);
    assert_eq!(w.meta_u32("qwen3.attention.head_count"), 4);
    assert_eq!(w.meta_u32("qwen3.attention.key_length"), 16);
    assert_eq!(w.meta_u32("qwen3.feed_forward_length"), 128);
    assert_eq!(w.meta_u32("qwen3.vocab_size"), 256);
    assert_eq!(w.meta_u32("qwen3.context_length"), 0);
    assert_eq!(f32::from_bits(w.meta_f32_bits("qwen3.attention.layer_norm_rms_epsilon")), 1e-6);
    assert_eq!(f32::from_bits(w.meta_f32_bits("qwen3.rope.freq_base")), 1_000_000.0);
    assert_eq!(w.meta_f32_bits("qwen3.other"), 0);
    assert!(!w.has("output.weight"));
}

#[test]
fn draws_cover_the_whole_range() {
    let d = draws(seed("blk.0.attn_q.weight"), 1000);
    assert!(d.iter().any(|&x| x > u32::MAX / 2));
    assert!(d.iter().any(|&x| x < u32::MAX / 2));
}
