use chat_wgpu::loader::safetensors::to_hf;
use chat_wgpu::model::cache::KvLayout;
use chat_wgpu::model::qwen3::{lm_head_name, Qwen3Dims};
use chat_wgpu::model::{bias_name, bias_rows, block_prefix, child_name, row_offsets, weight_name};
use chat_wgpu::text::push_decimal;

#[test]
fn tensor_names() {
    assert_eq!(weight_name("blk.0.attn_q"), "blk.0.attn_q.weight");
    assert_eq!(bias_name("blk.0.attn_q"), "blk.0.attn_q.bias");
    assert_eq!(block_prefix(0), "blk.0");
    assert_eq!(block_prefix(27), "blk.27");
    assert_eq!(child_name("blk.3", "ffn_up"), "blk.3.ffn_up");
}

#[test]
fn decimal_formatting() {
    for n in [0usize, 7, 10, 99, 100, 1234567, usize::MAX] {
        let mut s = String::from("x");
        push_decimal(&mut s, n);
        assert_eq!(s, format!("x{n}"));
    }
}

#[test]
fn bias_on_every_row() {
    assert_eq!(bias_rows(true, 1), 1);
    assert_eq!(bias_rows(true, 4), 4);
    assert_eq!(bias_rows(false, 4), 0);
    assert_eq!(row_offsets(3, 5), vec![0, 5, 10]);
    assert_eq!(row_offsets(0, 5), Vec::<usize>::new());
}

fn dims() -> Qwen3Dims {
    Qwen3Dims::new(2, 64, 4, 2, 16, 128, 256).unwrap()
}

#[test]
fn qwen3_dims() {
    let d = dims();
    assert_eq!(d.q_dim(), 64);
    assert_eq!(d.kv_dim(), 32);
    assert_eq!(d.embed_len(), 256 * 64);
    assert_eq!(d.embed_row(3), 192);
    assert!(Qwen3Dims::new(1, 1, usize::MAX, 1, 2, 1, 1).is_none());
    assert!(Qwen3Dims::new(1, 2, 1, 1, 1, 1, usize::MAX).is_none());
}

#[test]
fn qwen3_layer_plan() {
    let d = dims();
    let p = d.layer(1);
    assert_eq!(p.attn_norm.name, "blk.1.attn_norm");
    assert_eq!(p.attn_norm.len, 64);
    assert_eq!((p.wq.name.as_str(), p.wq.in_f, p.wq.out_f), ("blk.1.attn_q", 64, 64));
    assert_eq!((p.wk.name.as_str(), p.wk.in_f, p.wk.out_f), ("blk.1.attn_k", 64, 32));
    assert_eq!((p.wv.name.as_str(), p.wv.in_f, p.wv.out_f), ("blk.1.attn_v", 64, 32));
    assert_eq!((p.wo.name.as_str(), p.wo.in_f, p.wo.out_f), ("blk.1.attn_output", 64, 64));
    assert_eq!((p.q_norm.name.as_str(), p.q_norm.len), ("blk.1.attn_q_norm", 16));
    assert_eq!((p.k_norm.name.as_str(), p.k_norm.len), ("blk.1.attn_k_norm", 16));
    assert_eq!((p.ffn_norm.name.as_str(), p.ffn_norm.len), ("blk.1.ffn_norm", 64));
    assert_eq!((p.gate.name.as_str(), p.gate.in_f, p.gate.out_f), ("blk.1.ffn_gate", 64, 128));
    assert_eq!((p.up.name.as_str(), p.up.in_f, p.up.out_f), ("blk.1.ffn_up", 64, 128));
    assert_eq!((p.down.name.as_str(), p.down.in_f, p.down.out_f), ("blk.1.ffn_down", 128, 64));
    assert_eq!(lm_head_name(true), "output");
    assert_eq!(lm_head_name(false), "token_embd");
}

#[test]
fn qwen3_layer_names_translate_to_hf() {
    let p = dims().layer(12);
    assert_eq!(to_hf(&weight_name(&p.wq.name)), "model.layers.12.self_attn.q_proj.weight");
    assert_eq!(to_hf(&weight_name(&p.down.name)), "model.layers.12.mlp.down_proj.weight");
    assert_eq!(to_hf(&weight_name(&p.ffn_norm.name)), "model.layers.12.post_attention_layernorm.weight");
}

#[test]
fn kv_layout_rows() {
    let l = KvLayout::new(2, 32, 10).unwrap();
    assert_eq!(l.layer_len(), 320);
    assert_eq!(l.slot(0), 0);
    assert_eq!(l.slot(3), 96);
    assert_eq!(l.slot(9) + 32, l.layer_len());
    assert_eq!(l.attended(0), 1);
    assert_eq!(l.attended(4), 5);
    assert!(KvLayout::new(1, usize::MAX, 2).is_none());
}

#[test]
fn kv_rows_of_distinct_positions_do_not_overlap() {
    let l = KvLayout::new(1, 8, 16).unwrap();
    for p in 0..16 {
        for q in (p + 1)..16 {
            assert!(l.slot(p) + 8 <= l.slot(q));
        }
    }
}
