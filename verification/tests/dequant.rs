use chat_wgpu::floatbits::round_f32;
use chat_wgpu::loader::dequant::{
    bf16_to_f32, dequant_bf16, dequant_f16, dequant_f32, dequant_q4_0, dequant_q4_1, dequant_q6_k,
    dequant_q8_0, f16_mul_add, f16_to_f32, read_u16,
};

fn f(bits: u32) -> f32 {
    f32::from_bits(bits)
}

#[test]
fn f16_roundtrip_known() {
    assert_eq!(f(f16_to_f32(0x3c00)), 1.0); // 1.0 in f16
    assert_eq!(f(f16_to_f32(0xc000)), -2.0); // -2.0
    assert_eq!(f(f16_to_f32(0x0000)), 0.0);
}

#[test]
fn bf16_known() {
    assert_eq!(f(bf16_to_f32(0x3f80)), 1.0);
    assert_eq!(f(bf16_to_f32(0xc000)), -2.0);
}

#[test]
fn q8_0_block() {
    // d = 0.5 (f16 0x3800), quants 0..32 -> values 0, 0.5, 1.0, ...
    let mut b = vec![0u8, 0x38]; // 0x3800 little-endian = [0x00, 0x38]
    for j in 0..32i8 {
        b.push(j as u8);
    }
    let out = dequant_q8_0(&b, 32);
    assert_eq!(f(out[0]), 0.0);
    assert_eq!(f(out[1]), 0.5);
    assert_eq!(f(out[10]), 5.0);
}

#[test]
fn q4_0_block() {
    // d = 1.0 (f16 0x3c00). nibble q=8 -> value 0; q=15 -> 7; q=0 -> -8.
    let mut b = vec![0x00, 0x3c];
    for _ in 0..16 {
        b.push((8) | (15 << 4)); // lo=8 (->0), hi=15 (->7)
    }
    let out = dequant_q4_0(&b, 32);
    assert_eq!(f(out[0]), 0.0); // lo nibble of first byte
    assert_eq!(f(out[16]), 7.0); // hi nibble
}

#[test]
fn f16_special_values() {
    assert_eq!(f16_to_f32(0x7c00), 0x7f80_0000); // +inf
    assert_eq!(f16_to_f32(0xfc00), 0xff80_0000); // -inf
    assert!(f(f16_to_f32(0x7e00)).is_nan());
    assert!(f(f16_to_f32(0xfe01)).is_nan());
    assert!(f(f16_to_f32(0xfe01)).is_sign_negative());
    assert_eq!(f16_to_f32(0x8000), 0x8000_0000); // -0.0 keeps its sign
    assert_eq!(f(f16_to_f32(0x0001)), 2f32.powi(-24)); // smallest subnormal
    assert_eq!(f(f16_to_f32(0x03ff)), 1023.0 * 2f32.powi(-24)); // largest subnormal
    assert_eq!(f(f16_to_f32(0x7bff)), 65504.0); // largest finite
    assert_eq!(f(f16_to_f32(0x3555)), 0.333_251_95); // 1/3 rounded to f16
}

#[test]
fn f16_matches_every_pattern() {
    // Every finite f16, checked against the formula value*2^exp computed in f64.
    for h in 0u16..=0xffff {
        let e = ((h >> 10) & 0x1f) as i32;
        let m = (h & 0x3ff) as f64;
        if e == 0x1f {
            continue;
        }
        let mag = if e == 0 { m * 2f64.powi(-24) } else { (1024.0 + m) * 2f64.powi(e - 25) };
        let v = if h & 0x8000 != 0 { -mag } else { mag };
        assert_eq!(f(f16_to_f32(h)) as f64, v, "pattern {h:#06x}");
    }
}

#[test]
fn read_u16_little_endian() {
    assert_eq!(read_u16(&[0x34, 0x12, 0xff], 0), 0x1234);
    assert_eq!(read_u16(&[0x34, 0x12, 0xff], 1), 0xff12);
}

#[test]
fn dequant_plain_formats() {
    let b: Vec<u8> = [1.5f32, -2.25].iter().flat_map(|v| v.to_le_bytes()).collect();
    let out = dequant_f32(&b, 2);
    assert_eq!(out.iter().map(|&x| f(x)).collect::<Vec<_>>(), vec![1.5, -2.25]);
    let out = dequant_f16(&[0x00, 0x3c, 0x00, 0xc0], 2);
    assert_eq!(out.iter().map(|&x| f(x)).collect::<Vec<_>>(), vec![1.0, -2.0]);
    let out = dequant_bf16(&[0x80, 0x3f, 0x00, 0xc0], 2);
    assert_eq!(out.iter().map(|&x| f(x)).collect::<Vec<_>>(), vec![1.0, -2.0]);
}

#[test]
fn q8_0_negative_quants_and_partial_block() {
    // d = -0.25 (f16 0xb400); quant -4 -> 1.0, quant 0 -> -0.0.
    let mut b = vec![0x00, 0xb4];
    b.push((-4i8) as u8);
    b.push(0);
    b.extend(std::iter::repeat(1u8).take(30));
    let out = dequant_q8_0(&b, 40); // only the whole block is produced
    assert_eq!(out.len(), 32);
    assert_eq!(f(out[0]), 1.0);
    assert_eq!(out[1], 0x8000_0000); // -0.25 * +0.0 = -0.0
    assert_eq!(f(out[2]), -0.25);
}

#[test]
fn q4_0_low_nibble_zero_and_tail() {
    // d = 0.5; nibble 0 -> -4.0 (low half), nibble 9 -> 0.5 (high half).
    let mut b = vec![0x00, 0x38];
    for _ in 0..16 {
        b.push(9 << 4);
    }
    let out = dequant_q4_0(&b, 35);
    assert_eq!(out.len(), 35);
    assert_eq!(f(out[5]), -4.0);
    assert_eq!(f(out[20]), 0.5);
    assert_eq!(out[33], 0); // past the last whole block
}

#[test]
fn q8_0_infinite_scale() {
    let mut b = vec![0x00, 0x7c]; // +inf
    b.push(0);
    b.push((-1i8) as u8);
    b.extend(std::iter::repeat(1u8).take(30));
    let out = dequant_q8_0(&b, 32);
    assert!(f(out[0]).is_nan()); // inf * 0
    assert_eq!(out[1], 0xff80_0000); // inf * -1
    assert_eq!(out[2], 0x7f80_0000);
}

#[test]
fn f16_nan_widens_to_quiet_nan_with_its_sign() {
    assert_eq!(f16_to_f32(0x7e00), 0x7fc0_0000);
    assert_eq!(f16_to_f32(0xfe01), 0xffc0_0000);
    assert_eq!(f16_to_f32(0x7c00), 0x7f80_0000); // +inf
    assert_eq!(f16_to_f32(0xfc00), 0xff80_0000); // -inf
}

/// `q·d + m` as binary32 arithmetic computes it.
fn mul_add(d: u16, q: u32, m: u16) -> f32 {
    q as f32 * f(f16_to_f32(d)) + f(f16_to_f32(m))
}

#[test]
fn q4_1_block() {
    // d = 0.5 (0x3800), m = 1.0 (0x3c00); low nibbles 0..16, high nibbles 15..0
    let mut b = vec![0x00, 0x38, 0x00, 0x3c];
    for j in 0..16u8 {
        b.push(j | ((15 - j) << 4));
    }
    let out = dequant_q4_1(&b, 32);
    assert_eq!(out.len(), 32);
    assert_eq!(f(out[0]), 1.0);
    assert_eq!(f(out[3]), 2.5);
    assert_eq!(f(out[16]), 8.5);
    assert_eq!(f(out[31]), 1.0);
    // a partial block is not decoded
    assert_eq!(dequant_q4_1(&b, 31).len(), 0);
}

#[test]
fn f16_mul_add_rounds_like_f32() {
    // 15 + 2^-24 rounds to 15; 2^16 + half an ulp ties to even; 0.75 ulp rounds up
    let cases: [(u16, u32, u16); 8] = [
        (0x3c00, 15, 0x0001),
        (0x7800, 2, 0x1c00),
        (0x7800, 2, 0x1e00),
        (0xb800, 3, 0x3c00),
        (0x3555, 7, 0x8123),
        (0x7bff, 15, 0x7bff),
        (0x0001, 1, 0x8001),
        (0x8000, 0, 0x8000),
    ];
    for (d, q, m) in cases {
        assert_eq!(f16_mul_add(d, q, m), mul_add(d, q, m).to_bits(), "{d:#x} {q} {m:#x}");
    }
    // inf·0 and inf - inf are NaN; inf + finite is inf
    assert_eq!(f16_mul_add(0x7c00, 0, 0x3c00), 0x7fc0_0000);
    assert_eq!(f16_mul_add(0x7c00, 1, 0xfc00), 0x7fc0_0000);
    assert_eq!(f16_mul_add(0x7c00, 2, 0x3c00), 0x7f80_0000);
    assert_eq!(f16_mul_add(0x3c00, 2, 0xfc00), 0xff80_0000);
}

#[test]
fn round_f32_ties_to_even() {
    assert_eq!(f(round_f32(false, (1 << 24) + 1, 0)), 16777216.0);
    assert_eq!(f(round_f32(false, (1 << 24) + 3, 0)), 16777220.0);
    assert_eq!(f(round_f32(true, (1 << 25) - 1, 0)), -33554432.0);
    assert_eq!(f(round_f32(false, 3, -1)), 1.5);
    assert_eq!(round_f32(true, 0, 0), 0x8000_0000);
}

#[test]
fn q6_k_super_block() {
    // ql, qh, 16 i8 scales, then d = 0.25 (f16 0x3400)
    let mut b = Vec::new();
    for i in 0..128u32 {
        b.push(((i * 37 + 11) % 256) as u8);
    }
    for i in 0..64u32 {
        b.push(((i * 91 + 5) % 256) as u8);
    }
    for i in 0..16i32 {
        b.push(((i * 19 - 128) as i8) as u8);
    }
    b.extend_from_slice(&[0x00, 0x34]);
    assert_eq!(b.len(), 210);
    let out = dequant_q6_k(&b, 256);
    assert_eq!(out.len(), 256);
    // the reference loop order: two halves of 128, 32 lanes, four quarters
    let d = 0.25f32;
    let mut want = vec![0f32; 256];
    for h in 0..2 {
        let (ql, qh, sc) = (&b[64 * h..], &b[128 + 32 * h..], &b[192 + 8 * h..]);
        for l in 0..32 {
            let is = l / 16;
            let q1 = ((ql[l] & 0xf) | ((qh[l] & 3) << 4)) as i32 - 32;
            let q2 = ((ql[l + 32] & 0xf) | (((qh[l] >> 2) & 3) << 4)) as i32 - 32;
            let q3 = ((ql[l] >> 4) | (((qh[l] >> 4) & 3) << 4)) as i32 - 32;
            let q4 = ((ql[l + 32] >> 4) | (((qh[l] >> 6) & 3) << 4)) as i32 - 32;
            want[128 * h + l] = d * (sc[is] as i8) as f32 * q1 as f32;
            want[128 * h + l + 32] = d * (sc[is + 2] as i8) as f32 * q2 as f32;
            want[128 * h + l + 64] = d * (sc[is + 4] as i8) as f32 * q3 as f32;
            want[128 * h + l + 96] = d * (sc[is + 6] as i8) as f32 * q4 as f32;
        }
    }
    for i in 0..256 {
        assert_eq!(f(out[i]), want[i], "element {i}");
    }
}
