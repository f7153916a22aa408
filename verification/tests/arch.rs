use chat_wgpu::arch::{dispatch_count, fuse, Block, Mask, Proj};
use chat_wgpu::families::Family;

#[test]
fn fuse_qwen3_layer() {
    let f = Family::from_arch("qwen3");
    let fused = fuse(&f.layer);
    assert_eq!(
        fused,
        vec![
            Block::ResidualSave,
            Block::FusedNormLinear { unit: false, proj: Proj::Q },
            Block::Linear(Proj::K),
            Block::Linear(Proj::V),
            Block::QkNorm,
            Block::Rope,
            Block::Attention(Mask::Causal),
            Block::Linear(Proj::O),
            Block::ResidualAdd,
            Block::ResidualSave,
            Block::FusedNormLinear { unit: false, proj: Proj::Gate },
            Block::Linear(Proj::Up),
            Block::SwiGlu,
            Block::Linear(Proj::Down),
            Block::ResidualAdd,
        ]
    );
    assert_eq!(dispatch_count(&f.layer), 17);
    assert_eq!(dispatch_count(&fused), 15);
}

#[test]
fn fuse_gated_mlp_without_norm() {
    let blocks = [
        Block::ResidualSave,
        Block::Linear(Proj::Gate),
        Block::Linear(Proj::Up),
        Block::GeGlu,
        Block::Linear(Proj::Down),
    ];
    assert_eq!(
        fuse(&blocks),
        vec![
            Block::ResidualSave,
            Block::FusedGatedMlp { geglu: true },
            Block::Linear(Proj::Down)
        ]
    );
}

#[test]
fn fuse_unit_norm_and_no_match() {
    let blocks = [Block::RmsNormUnit, Block::Linear(Proj::O), Block::RmsNorm, Block::Rope];
    assert_eq!(
        fuse(&blocks),
        vec![Block::FusedNormLinear { unit: true, proj: Proj::O }, Block::RmsNorm, Block::Rope]
    );
    assert_eq!(fuse(&[]), vec![]);
    // gate/up with a non-gated activation: nothing fuses
    let blocks = [Block::Linear(Proj::Gate), Block::Linear(Proj::Up), Block::Rope];
    assert_eq!(fuse(&blocks), blocks.to_vec());
}

#[test]
fn fuse_is_idempotent_on_every_family() {
    for arch in ["qwen3", "qwen2", "gemma", "llama"] {
        let f = Family::from_arch(arch);
        let once = fuse(&f.layer);
        assert_eq!(fuse(&once), once);
        assert!(once.len() <= f.layer.len());
    }
}

fn expand(blocks: &[Block]) -> Vec<Block> {
    let mut out = Vec::new();
    for b in blocks {
        match *b {
            Block::FusedNormLinear { unit, proj } => {
                out.push(if unit { Block::RmsNormUnit } else { Block::RmsNorm });
                out.push(Block::Linear(proj));
            }
            Block::FusedGatedMlp { geglu } => {
                out.push(Block::Linear(Proj::Gate));
                out.push(Block::Linear(Proj::Up));
                out.push(if geglu { Block::GeGlu } else { Block::SwiGlu });
            }
            other => out.push(other),
        }
    }
    out
}

#[test]
fn fuse_preserves_kernels_on_gemma() {
    let f = Family::from_arch("gemma2");
    assert_eq!(expand(&fuse(&f.layer)), f.layer);
}

#[test]
fn dispatches_is_one() {
    assert_eq!(Block::FusedGatedMlp { geglu: false }.dispatches(), 1);
    assert_eq!(Block::Attention(Mask::Sliding(4096)).dispatches(), 1);
}
