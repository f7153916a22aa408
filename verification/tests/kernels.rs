use chat_wgpu::kernels::q4::{pack_q4_0, q4_code_of};
use chat_wgpu::kernels::{
    activation, argmax, attention, div_ceil, elementwise, matmul, mlp_mega, norm, q4, rope,
    Activation, NormKind,
};

#[test]
fn elementwise_launch() {
    let l = elementwise(4096);
    assert_eq!(l.uniform, vec![4096, 0, 0, 0]);
    assert_eq!(l.groups, (16, 1, 1));
    assert_eq!(elementwise(1000).groups, (4, 1, 1));
    assert_eq!(elementwise(0).groups, (0, 1, 1));
}

#[test]
fn matmul_launch() {
    let l = matmul::launch(8, 1024, 32);
    assert_eq!(l.uniform, vec![8, 1024, 32, 0]);
    assert_eq!(l.groups, (2, 1, 1));
    assert_eq!(matmul::launch(17, 3, 33).groups, (3, 2, 1));
}

#[test]
fn norm_rope_attention_launch() {
    let eps = 1e-6f32.to_bits();
    let l = norm::launch(4, 1024, eps);
    assert_eq!(l.uniform, vec![4, 1024, eps, 0]);
    assert_eq!(l.groups, (4, 1, 1));
    assert_eq!(norm::entry(NormKind::Plain), "rmsnorm");
    assert_eq!(norm::entry(NormKind::Unit), "rmsnorm_unit");
    let theta = 10_000f32.to_bits();
    let l = rope::launch(16, 128, 7, theta);
    assert_eq!(l.uniform, vec![16, 128, 7, theta]);
    assert_eq!(l.groups, (1, 1, 1));
    assert_eq!(rope::launch(65, 128, 0, theta).groups, (2, 1, 1));
    let scale = 0.25f32.to_bits();
    let l = attention::launch(4, 2, 9, 16, scale);
    assert_eq!(l.uniform, vec![4, 2, 9, 16, scale, 0, 0, 0]);
    assert_eq!(l.groups, (4, 1, 1));
    let l = mlp_mega::launch(64, 128, scale);
    assert_eq!(l.uniform, vec![64, 128, scale, 0]);
    assert_eq!(l.groups, (1, 1, 1));
    assert_eq!(argmax::launch(151936).uniform, vec![151936, 0, 0, 0]);
    assert_eq!(activation::gated_entry(Activation::SwiGlu), "swiglu");
    assert_eq!(activation::gated_entry(Activation::GeGlu), "geglu");
}

#[test]
fn gemv_grid_covers_rows() {
    let l = q4::gemv_launch(1024, 151936);
    assert_eq!(l.groups, (65535, 3, 1));
    assert_eq!(l.uniform, vec![1024, 151936, 65535, 0]);
    let l = q4::gemv_launch(64, 3072);
    assert_eq!(l.groups, (3072, 1, 1));
}

#[test]
fn div_ceil_values() {
    assert_eq!(div_ceil(0, 16), 0);
    assert_eq!(div_ceil(16, 16), 1);
    assert_eq!(div_ceil(17, 16), 2);
    assert_eq!(div_ceil(u32::MAX, 2), 1 << 31);
}

#[test]
fn q4_codes_and_packing() {
    assert_eq!(q4_code_of(0), 8);
    assert_eq!(q4_code_of(-8), 0);
    assert_eq!(q4_code_of(-9), 0);
    assert_eq!(q4_code_of(7), 15);
    assert_eq!(q4_code_of(8), 15);
    assert_eq!(q4_code_of(i32::MIN), 0);
    assert_eq!(q4_code_of(i32::MAX), 15);
    // one row of 32 levels: -8..=7 twice
    let levels: Vec<i32> = (0..32).map(|i| (i % 16) - 8).collect();
    let q = pack_q4_0(&levels, 1, 32);
    assert_eq!(q.len(), 4);
    assert_eq!(q[0], 0x7654_3210);
    assert_eq!(q[1], 0xfedc_ba98);
    assert_eq!(q[2], 0x7654_3210);
    assert_eq!(q[3], 0xfedc_ba98);
    for (k, w) in q.iter().enumerate() {
        for n in 0..8 {
            assert_eq!((w >> (4 * n)) & 15, (levels[8 * k + n] + 8) as u32);
        }
    }
}
