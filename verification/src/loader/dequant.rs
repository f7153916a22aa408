//! Dequantization to binary32. Pure, GPU-free.
//!
//! Supported: F32, F16, BF16 (safetensors); F32, F16, Q8_0, Q4_0, Q4_1 and
//! Q6_K (GGUF). Each function returns the binary32 bit patterns
//! (`f32::from_bits` turns them into floats) and states the number each one
//! encodes: exactly, except Q4_1's `d·q + m`, which is that sum rounded to the
//! nearest binary32, ties to even, as the float addition rounds it.

use vstd::prelude::*;

use super::{le16, le32};
use vstd::arithmetic::power2::{lemma2_to64, lemma_pow2_strictly_increases, pow2};

use crate::floatbits::{
    encode_f32, exact_sum, f16_mag, f16_mul_add_is, f16_scale, f16_sign, f16_times_int_is,
    f16_widens_to, lemma_f32_fields,
    pow2_u64, round_f32,
};

verus! {

/// A byte read as a two's-complement `i8`.
pub open spec fn i8_of(b: u8) -> int {
    if b < 128 {
        b as int
    } else {
        b as int - 256
    }
}

/// The Q4_0 quant of element `i` (`0..16`): in block `i/32` (18 bytes: an f16
/// scale then 16 bytes), the low nibble of byte `j` holds element `j`, the high
/// nibble element `j + 16`.
pub open spec fn q4_0_quant(s: Seq<u8>, i: int) -> int {
    let base = (i / 32) * 18 + 2;
    let j = i % 32;
    if j < 16 {
        (s[base + j] % 16) as int
    } else {
        (s[base + j - 16] / 16) as int
    }
}

/// `out` is the F32 decoding of `n` values of `bytes`.
pub open spec fn f32_decoded(bytes: Seq<u8>, n: int, out: Seq<u32>) -> bool {
    &&& out.len() == n
    &&& forall|i: int| 0 <= i < n ==> #[trigger] out[i] == le32(bytes, 4 * i)
}

/// `out` is the F16 decoding of `n` values of `bytes`.
pub open spec fn f16_decoded(bytes: Seq<u8>, n: int, out: Seq<u32>) -> bool {
    &&& out.len() == n
    &&& forall|i: int| 0 <= i < n ==> f16_widens_to(le16(bytes, 2 * i), #[trigger] out[i])
}

/// `out` is the BF16 decoding of `n` values of `bytes`.
pub open spec fn bf16_decoded(bytes: Seq<u8>, n: int, out: Seq<u32>) -> bool {
    &&& out.len() == n
    &&& forall|i: int| 0 <= i < n ==> #[trigger] out[i] == le16(bytes, 2 * i) as u32 * 0x1_0000
}

/// `out` is the Q8_0 decoding of the whole blocks among `n` values of `bytes`.
pub open spec fn q8_0_decoded(bytes: Seq<u8>, n: int, out: Seq<u32>) -> bool {
    &&& out.len() == (n / 32) * 32
    &&& forall|i: int|
        0 <= i < out.len() ==> f16_times_int_is(
            le16(bytes, (i / 32) * 34),
            i8_of(bytes[(i / 32) * 34 + 2 + i % 32]),
            #[trigger] out[i],
        )
}

/// `out` is the Q4_0 decoding of `n` values of `bytes` (zeros past the last
/// whole block).
pub open spec fn q4_0_decoded(bytes: Seq<u8>, n: int, out: Seq<u32>) -> bool {
    &&& out.len() == n
    &&& forall|i: int|
        0 <= i < n ==> if i < (n / 32) * 32 {
            f16_times_int_is(le16(bytes, (i / 32) * 18), q4_0_quant(bytes, i) - 8, #[trigger] out[i])
        } else {
            out[i] == 0
        }
}

/// The high two bits of a Q6_K quant in quarter `qq` of a half: bits
/// `2qq .. 2qq + 2` of its `qh` byte.
pub open spec fn q6_k_high(hb: u8, qq: int) -> int {
    if qq == 0 {
        (hb % 4) as int
    } else if qq == 1 {
        ((hb / 4) % 4) as int
    } else if qq == 2 {
        ((hb / 16) % 4) as int
    } else {
        (hb / 64) as int
    }
}

/// The Q6_K quant of element `i`, less 32. A super-block of 256 values takes
/// 210 bytes: 128 bytes `ql` (low four bits), 64 bytes `qh` (high two bits),
/// 16 `i8` scales, then the f16 scale `d`. Element `r` of a super-block lies in
/// half `h = r / 128`; with `t = r % 128`, quarter `qq = t / 32` and
/// `l = t % 32`, its low bits are the low (`qq < 2`) or high nibble of
/// `ql[64h + l + 32(qq % 2)]` and its high bits come from `qh[32h + l]`.
pub open spec fn q6_k_quant(s: Seq<u8>, i: int) -> int {
    let base = (i / 256) * 210;
    let r = i % 256;
    let h = r / 128;
    let t = r % 128;
    let qq = t / 32;
    let l = t % 32;
    let lb = s[base + 64 * h + l + 32 * (qq % 2)];
    let low = if qq < 2 {
        (lb % 16) as int
    } else {
        (lb / 16) as int
    };
    low + 16 * q6_k_high(s[base + 128 + 32 * h + l], qq) - 32
}

/// The `i8` scale of Q6_K element `i`: scale `8h + l/16 + 2qq` of its
/// super-block (one per 16 values).
pub open spec fn q6_k_scale(s: Seq<u8>, i: int) -> int {
    let base = (i / 256) * 210;
    let r = i % 256;
    let h = r / 128;
    let t = r % 128;
    let qq = t / 32;
    let l = t % 32;
    i8_of(s[base + 192 + 8 * h + l / 16 + 2 * qq])
}

/// `out` is the Q6_K decoding of the whole super-blocks among `n` values of
/// `bytes`: `d · scale · quant`.
pub open spec fn q6_k_decoded(bytes: Seq<u8>, n: int, out: Seq<u32>) -> bool {
    &&& out.len() == (n / 256) * 256
    &&& forall|i: int|
        0 <= i < out.len() ==> f16_times_int_is(
            le16(bytes, (i / 256) * 210 + 208),
            q6_k_scale(bytes, i) * q6_k_quant(bytes, i),
            #[trigger] out[i],
        )
}

/// The Q4_1 quant of element `i` (`0..16`): in block `i/32` (20 bytes: an f16
/// scale `d`, an f16 minimum `m`, then 16 bytes), the low nibble of byte `j`
/// holds element `j`, the high nibble element `j + 16`.
pub open spec fn q4_1_quant(s: Seq<u8>, i: int) -> nat {
    let base = (i / 32) * 20 + 4;
    let j = i % 32;
    if j < 16 {
        (s[base + j] % 16) as nat
    } else {
        (s[base + j - 16] / 16) as nat
    }
}

/// `out` is the Q4_1 decoding of the whole blocks among `n` values of
/// `bytes`: `d · q + m`, rounded as a binary32 addition rounds it.
pub open spec fn q4_1_decoded(bytes: Seq<u8>, n: int, out: Seq<u32>) -> bool {
    &&& out.len() == (n / 32) * 32
    &&& forall|i: int|
        0 <= i < out.len() ==> f16_mul_add_is(
            le16(bytes, (i / 32) * 20),
            q4_1_quant(bytes, i),
            le16(bytes, (i / 32) * 20 + 2),
            #[trigger] out[i],
        )
}

proof fn lemma_block_index(blk: int, j: int, q: int)
    requires
        q > 0,
        blk >= 0,
        0 <= j < q,
    ensures
        (blk * q + j) / q == blk,
        (blk * q + j) % q == j,
{
    assert((blk * q + j) / q == blk && (blk * q + j) % q == j) by (nonlinear_arith)
        requires
            q > 0,
            blk >= 0,
            0 <= j < q,
    ;
}

proof fn lemma_block_fits(blk: int, nb: int, w: int)
    requires
        0 <= blk < nb,
        w > 0,
    ensures
        blk * w + w <= nb * w,
{
    assert(blk * w + w <= nb * w) by (nonlinear_arith)
        requires
            0 <= blk < nb,
            w > 0,
    ;
}

/// The little-endian `u16` at `b[i..i+2]`.
pub fn read_u16(b: &[u8], i: usize) -> (v: u16)
    requires
        i + 1 < b@.len(),
    ensures
        v == le16(b@, i as int),
{
    b[i] as u16 + (b[i + 1] as u16) * 256
}

/// Widen a binary16 to binary32: the same number (zeros and subnormals
/// included), the same-signed infinity, or a same-signed NaN.
pub fn f16_to_f32(h: u16) -> (b: u32)
    ensures
        f16_widens_to(h, b),
{
    let neg = h >= 0x8000;
    let ex = (h % 0x8000) / 0x400;
    let fr = h % 0x400;
    let s: u32 = if neg {
        1
    } else {
        0
    };
    if ex == 31 {
        if fr == 0 {
            let b = s * 0x8000_0000 + 0x7f80_0000;
            proof {
                lemma_f32_fields(b, s as int, 255, 0);
            }
            b
        } else {
            let b = s * 0x8000_0000 + 0x7fc0_0000;
            proof {
                lemma_f32_fields(b, s as int, 255, 0x40_0000);
            }
            b
        }
    } else if ex == 0 {
        encode_f32(neg, fr as u32, -24)
    } else {
        encode_f32(neg, fr as u32 + 0x400, ex as i32 - 25)
    }
}

/// Widen a bfloat16 to binary32: its bits are the top half of the result.
pub fn bf16_to_f32(h: u16) -> (b: u32)
    ensures
        b == h as u32 * 0x1_0000,
{
    h as u32 * 0x1_0000
}

/// The binary32 product of the binary16 `h` and the small integer `k` (exact
/// for a finite `h`: the product needs at most 23 significant bits).
pub fn f16_times_int(h: u16, k: i32) -> (b: u32)
    requires
        -4096 <= k <= 4096,
    ensures
        f16_times_int_is(h, k as int, b),
{
    let neg = (h >= 0x8000) != (k < 0);
    let ex = (h % 0x8000) / 0x400;
    let fr = h % 0x400;
    if ex == 31 {
        if fr != 0 || k == 0 {
            proof {
                lemma_f32_fields(0x7fc0_0000, 0, 255, 0x40_0000);
            }
            0x7fc0_0000
        } else {
            let s: u32 = if neg {
                1
            } else {
                0
            };
            let b = s * 0x8000_0000 + 0x7f80_0000;
            proof {
                lemma_f32_fields(b, s as int, 255, 0);
            }
            b
        }
    } else {
        let mag: u32 = if ex == 0 {
            fr as u32
        } else {
            fr as u32 + 0x400
        };
        let ak: u32 = if k < 0 {
            (-k) as u32
        } else {
            k as u32
        };
        proof {
            assert(mag * ak < 0x100_0000) by (nonlinear_arith)
                requires
                    mag < 0x800,
                    ak <= 4096,
            ;
        }
        let scale: i32 = if ex == 0 {
            -24
        } else {
            ex as i32 - 25
        };
        encode_f32(neg, mag * ak, scale)
    }
}

/// F32: `n` little-endian binary32 values.
pub fn dequant_f32(bytes: &[u8], n: usize) -> (out: Vec<u32>)
    requires
        4 * n <= bytes@.len(),
    ensures
        f32_decoded(bytes@, n as int, out@),
{
    let mut out: Vec<u32> = Vec::with_capacity(n);
    let mut i: usize = 0;
    let blen = bytes.len();
    while i < n
        invariant
            blen == bytes@.len(),
            i <= n,
            4 * n <= bytes@.len(),
            out@.len() == i,
            forall|k: int| 0 <= k < i ==> #[trigger] out@[k] == le32(bytes@, 4 * k),
        decreases n - i,
    {
        let p = i * 4;
        let v = bytes[p] as u32 + (bytes[p + 1] as u32) * 0x100 + (bytes[p + 2] as u32) * 0x1_0000
            + (bytes[p + 3] as u32) * 0x100_0000;
        out.push(v);
        i += 1;
    }
    out
}

/// F16: `n` little-endian binary16 values, widened.
pub fn dequant_f16(bytes: &[u8], n: usize) -> (out: Vec<u32>)
    requires
        2 * n <= bytes@.len(),
    ensures
        f16_decoded(bytes@, n as int, out@),
{
    let mut out: Vec<u32> = Vec::with_capacity(n);
    let mut i: usize = 0;
    let blen = bytes.len();
    while i < n
        invariant
            blen == bytes@.len(),
            i <= n,
            2 * n <= bytes@.len(),
            out@.len() == i,
            forall|k: int| 0 <= k < i ==> f16_widens_to(le16(bytes@, 2 * k), #[trigger] out@[k]),
        decreases n - i,
    {
        out.push(f16_to_f32(read_u16(bytes, i * 2)));
        i += 1;
    }
    out
}

/// BF16: `n` little-endian bfloat16 values, widened.
pub fn dequant_bf16(bytes: &[u8], n: usize) -> (out: Vec<u32>)
    requires
        2 * n <= bytes@.len(),
    ensures
        bf16_decoded(bytes@, n as int, out@),
{
    let mut out: Vec<u32> = Vec::with_capacity(n);
    let mut i: usize = 0;
    let blen = bytes.len();
    while i < n
        invariant
            blen == bytes@.len(),
            i <= n,
            2 * n <= bytes@.len(),
            out@.len() == i,
            forall|k: int|
                0 <= k < i ==> #[trigger] out@[k] == le16(bytes@, 2 * k) as u32 * 0x1_0000,
        decreases n - i,
    {
        out.push(bf16_to_f32(read_u16(bytes, i * 2)));
        i += 1;
    }
    out
}

/// Q8_0: blocks of 32, each an f16 scale `d` then 32 `i8` quants; value
/// `d·q`. A trailing partial block (`n % 32` elements) is not produced.
pub fn dequant_q8_0(bytes: &[u8], n: usize) -> (out: Vec<u32>)
    requires
        (n / 32) * 34 <= bytes@.len(),
    ensures
        q8_0_decoded(bytes@, n as int, out@),
{
    let nb = n / 32;
    let mut out: Vec<u32> = Vec::with_capacity(n);
    let mut blk: usize = 0;
    let blen = bytes.len();
    while blk < nb
        invariant
            blen == bytes@.len(),
            blk <= nb,
            nb == n / 32,
            nb * 34 <= bytes@.len(),
            out@.len() == blk * 32,
            forall|i: int|
                0 <= i < out@.len() ==> f16_times_int_is(
                    le16(bytes@, (i / 32) * 34),
                    i8_of(bytes@[(i / 32) * 34 + 2 + i % 32]),
                    #[trigger] out@[i],
                ),
        decreases nb - blk,
    {
        proof {
            lemma_block_fits(blk as int, nb as int, 34);
        }
        let base = blk * 34;
        let d = read_u16(bytes, base);
        let mut j: usize = 0;
        while j < 32
            invariant
                blen == bytes@.len(),
                blk < nb,
                nb * 34 <= bytes@.len(),
                base == blk * 34,
                base + 34 <= bytes@.len(),
                d == le16(bytes@, base as int),
                j <= 32,
                out@.len() == blk * 32 + j,
                forall|i: int|
                    0 <= i < out@.len() ==> f16_times_int_is(
                        le16(bytes@, (i / 32) * 34),
                        i8_of(bytes@[(i / 32) * 34 + 2 + i % 32]),
                        #[trigger] out@[i],
                    ),
            decreases 32 - j,
        {
            let v = bytes[base + 2 + j];
            let q: i32 = if v < 128 {
                v as i32
            } else {
                v as i32 - 256
            };
            proof {
                lemma_block_index(blk as int, j as int, 32);
            }
            out.push(f16_times_int(d, q));
            j += 1;
        }
        blk += 1;
    }
    out
}

/// Q4_0: blocks of 32, each an f16 scale `d` then 16 bytes of packed 4-bit
/// quants (low nibble to element `j`, high nibble to element `j + 16`); value
/// `d·(q − 8)`. Elements past the last whole block stay `+0.0`.
pub fn dequant_q4_0(bytes: &[u8], n: usize) -> (out: Vec<u32>)
    requires
        (n / 32) * 18 <= bytes@.len(),
    ensures
        q4_0_decoded(bytes@, n as int, out@),
{
    let nb = n / 32;
    let mut out: Vec<u32> = Vec::with_capacity(n);
    let mut z: usize = 0;
    while z < n
        invariant
            z <= n,
            out@.len() == z,
            forall|i: int| 0 <= i < z ==> #[trigger] out@[i] == 0,
        decreases n - z,
    {
        out.push(0);
        z += 1;
    }
    proof {
        assert(nb * 32 <= n) by (nonlinear_arith)
            requires
                nb == n / 32,
        ;
    }
    let mut blk: usize = 0;
    let blen = bytes.len();
    while blk < nb
        invariant
            blen == bytes@.len(),
            blk <= nb,
            nb == n / 32,
            nb * 32 <= n,
            nb * 18 <= bytes@.len(),
            out@.len() == n,
            forall|i: int|
                0 <= i < n ==> if i < blk * 32 {
                    f16_times_int_is(
                        le16(bytes@, (i / 32) * 18),
                        q4_0_quant(bytes@, i) - 8,
                        #[trigger] out@[i],
                    )
                } else {
                    out@[i] == 0
                },
        decreases nb - blk,
    {
        proof {
            lemma_block_fits(blk as int, nb as int, 18);
            lemma_block_fits(blk as int, nb as int, 32);
        }
        let base = blk * 18;
        let d = read_u16(bytes, base);
        let mut j: usize = 0;
        while j < 16
            invariant
                blen == bytes@.len(),
                blk < nb,
                nb * 32 <= n,
                blk * 32 + 32 <= n,
                base == blk * 18,
                base + 18 <= bytes@.len(),
                d == le16(bytes@, base as int),
                j <= 16,
                out@.len() == n,
                forall|i: int|
                    0 <= i < n ==> if i < blk * 32 || (blk * 32 <= i < blk * 32 + j) || (blk
                        * 32 + 16 <= i < blk * 32 + 16 + j) {
                        f16_times_int_is(
                            le16(bytes@, (i / 32) * 18),
                            q4_0_quant(bytes@, i) - 8,
                            #[trigger] out@[i],
                        )
                    } else {
                        out@[i] == 0
                    },
            decreases 16 - j,
        {
            let byte = bytes[base + 2 + j];
            let lo: i32 = (byte % 16) as i32 - 8;
            let hi: i32 = (byte / 16) as i32 - 8;
            proof {
                lemma_block_index(blk as int, j as int, 32);
                lemma_block_index(blk as int, (j + 16) as int, 32);
            }
            out.set(blk * 32 + j, f16_times_int(d, lo));
            out.set(blk * 32 + j + 16, f16_times_int(d, hi));
            j += 1;
        }
        blk += 1;
    }
    out
}

/// `h · k + g` in binary32 arithmetic (see [`f16_mul_add_is`]).
pub fn f16_mul_add(h: u16, k: u32, g: u16) -> (b: u32)
    requires
        k < 16,
    ensures
        f16_mul_add_is(h, k as nat, g, b),
{
    let hneg = h >= 0x8000;
    let hx = (h % 0x8000) / 0x400;
    let hf = h % 0x400;
    let gneg = g >= 0x8000;
    let gx = (g % 0x8000) / 0x400;
    let gf = g % 0x400;
    let pnan = hx == 31 && (hf != 0 || k == 0);
    let pinf = hx == 31 && hf == 0 && k != 0;
    let gnan = gx == 31 && gf != 0;
    let ginf = gx == 31 && gf == 0;
    if pnan || gnan || (pinf && ginf && hneg != gneg) {
        return 0x7fc0_0000;
    }
    if pinf || ginf {
        let neg = if pinf {
            hneg
        } else {
            gneg
        };
        let s: u32 = if neg {
            1
        } else {
            0
        };
        let b = s * 0x8000_0000 + 0x7f80_0000;
        proof {
            lemma_f32_fields(b, s as int, 255, 0);
        }
        return b;
    }
    let hmag: u64 = if hx == 0 {
        hf as u64
    } else {
        hf as u64 + 0x400
    };
    proof {
        assert(hmag * k <= 0x7ff * 15) by (nonlinear_arith)
            requires
                hmag <= 0x7ff,
                k < 16,
        ;
    }
    let hm: u64 = hmag * k as u64;
    let he: i32 = if hx == 0 {
        -24
    } else {
        hx as i32 - 25
    };
    let gm: u64 = if gx == 0 {
        gf as u64
    } else {
        gf as u64 + 0x400
    };
    let ge: i32 = if gx == 0 {
        -24
    } else {
        gx as i32 - 25
    };
    let e: i32 = if he <= ge {
        he
    } else {
        ge
    };
    let ph = pow2_u64((he - e) as u32);
    let pg = pow2_u64((ge - e) as u32);
    proof {
        lemma2_to64();
        if he - e < 29 {
            lemma_pow2_strictly_increases((he - e) as nat, 29);
        }
        if ge - e < 29 {
            lemma_pow2_strictly_increases((ge - e) as nat, 29);
        }
        assert(hm * ph < 0x1000_0000_0000) by (nonlinear_arith)
            requires
                hm <= 0x7ff * 15,
                ph <= 0x2000_0000,
        ;
        assert(gm * pg < 0x100_0000_0000) by (nonlinear_arith)
            requires
                gm <= 0x7ff,
                pg <= 0x2000_0000,
        ;
    }
    let a = hm * ph;
    let c = gm * pg;
    let (neg, sum): (bool, u64) = if hneg == gneg {
        (hneg, a + c)
    } else if a > c {
        (hneg, a - c)
    } else if c > a {
        (gneg, c - a)
    } else {
        (false, 0)
    };
    proof {
        let t = exact_sum(
            f16_sign(h),
            f16_mag(h) * (k as nat),
            f16_scale(h),
            f16_sign(g),
            f16_mag(g),
            f16_scale(g),
        );
        assert(t.2 == e);
        assert(t.0 == neg && t.1 == sum);
    }
    round_f32(neg, sum, e)
}

/// Q4_1: blocks of 32 values in 20 bytes (see [`q4_1_quant`]), value
/// `d · q + m`; only whole blocks are decoded.
pub fn dequant_q4_1(bytes: &[u8], n: usize) -> (out: Vec<u32>)
    requires
        (n / 32) * 20 <= bytes@.len(),
    ensures
        q4_1_decoded(bytes@, n as int, out@),
{
    let nb = n / 32;
    let total = nb * 32;
    let blen = bytes.len();
    let mut out: Vec<u32> = Vec::with_capacity(total);
    let mut i: usize = 0;
    while i < total
        invariant
            blen == bytes@.len(),
            nb * 20 <= blen,
            total == nb * 32,
            i <= total,
            out@.len() == i,
            forall|k: int|
                0 <= k < i ==> f16_mul_add_is(
                    le16(bytes@, (k / 32) * 20),
                    q4_1_quant(bytes@, k),
                    le16(bytes@, (k / 32) * 20 + 2),
                    #[trigger] out@[k],
                ),
        decreases total - i,
    {
        let blk = i / 32;
        proof {
            assert(blk < nb) by (nonlinear_arith)
                requires
                    blk == i / 32,
                    i < total,
                    total == nb * 32,
            ;
            lemma_block_fits(blk as int, nb as int, 20);
        }
        let base = blk * 20;
        let j = i % 32;
        let q: u32 = if j < 16 {
            (bytes[base + 4 + j] % 16) as u32
        } else {
            (bytes[base + 4 + j - 16] / 16) as u32
        };
        let d = read_u16(bytes, base);
        let m = read_u16(bytes, base + 2);
        out.push(f16_mul_add(d, q, m));
        i += 1;
    }
    out
}

/// Q6_K: super-blocks of 256 values in 210 bytes (see [`q6_k_quant`]), value
/// `d · scale · quant`; only whole super-blocks are decoded.
pub fn dequant_q6_k(bytes: &[u8], n: usize) -> (out: Vec<u32>)
    requires
        (n / 256) * 210 <= bytes@.len(),
    ensures
        q6_k_decoded(bytes@, n as int, out@),
{
    let nb = n / 256;
    let total = nb * 256;
    let blen = bytes.len();
    let mut out: Vec<u32> = Vec::with_capacity(total);
    let mut i: usize = 0;
    while i < total
        invariant
            blen == bytes@.len(),
            nb * 210 <= blen,
            total == nb * 256,
            i <= total,
            out@.len() == i,
            forall|k: int|
                0 <= k < i ==> f16_times_int_is(
                    le16(bytes@, (k / 256) * 210 + 208),
                    q6_k_scale(bytes@, k) * q6_k_quant(bytes@, k),
                    #[trigger] out@[k],
                ),
        decreases total - i,
    {
        let blk = i / 256;
        proof {
            assert(blk < nb) by (nonlinear_arith)
                requires
                    blk == i / 256,
                    i < total,
                    total == nb * 256,
            ;
            lemma_block_fits(blk as int, nb as int, 210);
        }
        let base = blk * 210;
        let r = i % 256;
        let h = r / 128;
        let t = r % 128;
        let qq = t / 32;
        let l = t % 32;
        let lb = bytes[base + 64 * h + l + 32 * (qq % 2)];
        let low: i32 = if qq < 2 {
            (lb % 16) as i32
        } else {
            (lb / 16) as i32
        };
        let hb = bytes[base + 128 + 32 * h + l];
        let high: i32 = if qq == 0 {
            (hb % 4) as i32
        } else if qq == 1 {
            ((hb / 4) % 4) as i32
        } else if qq == 2 {
            ((hb / 16) % 4) as i32
        } else {
            (hb / 64) as i32
        };
        let q: i32 = low + 16 * high - 32;
        let sb = bytes[base + 192 + 8 * h + l / 16 + 2 * qq];
        let sc: i32 = if sb < 128 {
            sb as i32
        } else {
            sb as i32 - 256
        };
        let d = read_u16(bytes, base + 208);
        proof {
            assert(-32 <= q < 32);
            assert(-128 <= sc < 128);
            assert(-4096 <= sc * q <= 4096) by (nonlinear_arith)
                requires
                    -32 <= q < 32,
                    -128 <= sc < 128,
            ;
        }
        out.push(f16_times_int(d, sc * q));
        i += 1;
    }
    out
}

} // verus!
