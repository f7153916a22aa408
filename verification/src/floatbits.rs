//! IEEE-754 bit patterns, specified by the exact numbers they denote.
//!
//! The loaders decode half-precision and quantized weights to binary32 with
//! integer arithmetic and state, for each result, the number
//! `(-1)^neg · mag · 2^e` it encodes: exactly where the conversion is exact,
//! and rounded to nearest, ties to even ([`f32_rounds`]) where a float
//! addition rounds (Q4_1's `d·q + m`).

use vstd::arithmetic::power2::*;
use vstd::prelude::*;

verus! {

/// `a·2^ea == b·2^eb`.
pub open spec fn scaled_eq(a: nat, ea: int, b: nat, eb: int) -> bool {
    if ea >= eb {
        a * pow2((ea - eb) as nat) == b
    } else {
        a == b * pow2((eb - ea) as nat)
    }
}

/// Sign bit of a binary32 pattern.
pub open spec fn f32_sign(b: u32) -> bool {
    b >= 0x8000_0000
}

/// Biased exponent field of a binary32 pattern.
pub open spec fn f32_exp(b: u32) -> int {
    ((b % 0x8000_0000) / 0x80_0000) as int
}

/// Fraction field of a binary32 pattern.
pub open spec fn f32_frac(b: u32) -> int {
    (b % 0x80_0000) as int
}

/// `b` is a binary32 NaN.
pub open spec fn f32_is_nan(b: u32) -> bool {
    f32_exp(b) == 255 && f32_frac(b) != 0
}

/// `b` is the binary32 infinity of the given sign.
pub open spec fn f32_is_inf(b: u32, neg: bool) -> bool {
    f32_exp(b) == 255 && f32_frac(b) == 0 && f32_sign(b) == neg
}

/// `b` is a finite binary32 whose value is exactly `(-1)^neg · mag · 2^e`
/// (zeros carry their sign).
pub open spec fn f32_denotes(b: u32, neg: bool, mag: nat, e: int) -> bool {
    &&& f32_sign(b) == neg
    &&& f32_exp(b) < 255
    &&& if f32_exp(b) == 0 {
        scaled_eq(f32_frac(b) as nat, -149, mag, e)
    } else {
        scaled_eq((f32_frac(b) + 0x80_0000) as nat, f32_exp(b) - 150, mag, e)
    }
}

/// Sign bit of a binary16 pattern.
pub open spec fn f16_sign(h: u16) -> bool {
    h >= 0x8000
}

/// Biased exponent field of a binary16 pattern.
pub open spec fn f16_exp(h: u16) -> int {
    ((h % 0x8000) / 0x400) as int
}

/// Fraction field of a binary16 pattern.
pub open spec fn f16_frac(h: u16) -> int {
    (h % 0x400) as int
}

/// Integer significand of a finite binary16: its value is
/// `(-1)^sign · f16_mag · 2^f16_scale`.
pub open spec fn f16_mag(h: u16) -> nat {
    if f16_exp(h) == 0 {
        f16_frac(h) as nat
    } else {
        (f16_frac(h) + 0x400) as nat
    }
}

/// Power-of-two scale of a finite binary16 (see [`f16_mag`]).
pub open spec fn f16_scale(h: u16) -> int {
    if f16_exp(h) == 0 {
        -24
    } else {
        f16_exp(h) - 25
    }
}

/// `b` is the binary32 form of the binary16 `h`: same number for finite `h`,
/// same-signed infinity, and for a NaN the canonical quiet NaN
/// (`0x7fc0_0000`) carrying `h`'s sign.
pub open spec fn f16_widens_to(h: u16, b: u32) -> bool {
    if f16_exp(h) == 31 {
        if f16_frac(h) == 0 {
            f32_is_inf(b, f16_sign(h))
        } else {
            b == if f16_sign(h) {
                0xffc0_0000u32
            } else {
                0x7fc0_0000u32
            }
        }
    } else {
        f32_denotes(b, f16_sign(h), f16_mag(h), f16_scale(h))
    }
}

/// `|k|`.
pub open spec fn abs(k: int) -> nat {
    if k < 0 {
        (-k) as nat
    } else {
        k as nat
    }
}

/// `b` is the binary32 product of the binary16 `h` and the integer `k`
/// (IEEE semantics: the sign is the xor of the signs, `inf·0` is NaN). A NaN
/// product is the canonical quiet NaN `0x7fc0_0000`.
pub open spec fn f16_times_int_is(h: u16, k: int, b: u32) -> bool {
    let neg = f16_sign(h) != (k < 0);
    if f16_exp(h) == 31 {
        if f16_frac(h) != 0 || k == 0 {
            b == 0x7fc0_0000u32
        } else {
            f32_is_inf(b, neg)
        }
    } else {
        f32_denotes(b, neg, f16_mag(h) * abs(k), f16_scale(h))
    }
}

pub proof fn lemma_f32_fields(b: u32, s: int, ex: int, f: int)
    requires
        s == 0 || s == 1,
        0 <= ex < 256,
        0 <= f < 0x80_0000,
        b == s * 0x8000_0000 + ex * 0x80_0000 + f,
    ensures
        f32_sign(b) == (s == 1),
        f32_exp(b) == ex,
        f32_frac(b) == f,
{
    assert(ex * 0x80_0000 + f < 0x8000_0000) by (nonlinear_arith)
        requires
            0 <= ex < 256,
            0 <= f < 0x80_0000,
    ;
    assert(b % 0x8000_0000 == ex * 0x80_0000 + f) by (nonlinear_arith)
        requires
            s == 0 || s == 1,
            0 <= ex * 0x80_0000 + f < 0x8000_0000,
            b == s * 0x8000_0000 + ex * 0x80_0000 + f,
    ;
    assert((ex * 0x80_0000 + f) / 0x80_0000 == ex) by (nonlinear_arith)
        requires
            0 <= ex,
            0 <= f < 0x80_0000,
    ;
    assert(b % 0x80_0000 == f) by (nonlinear_arith)
        requires
            s == 0 || s == 1,
            0 <= ex,
            0 <= f < 0x80_0000,
            b == s * 0x8000_0000 + ex * 0x80_0000 + f,
    ;
}

/// The binary32 pattern of `(-1)^neg · mag · 2^e`, for a significand below
/// `2^24` and a scale that keeps the number normal (or zero).
pub fn encode_f32(neg: bool, mag: u32, e: i32) -> (b: u32)
    requires
        mag < 0x100_0000,
        -126 <= e <= 100,
    ensures
        f32_denotes(b, neg, mag as nat, e as int),
{
    let s: u32 = if neg {
        1
    } else {
        0
    };
    if mag == 0 {
        let z = s * 0x8000_0000;
        proof {
            lemma_f32_fields(z, s as int, 0, 0);
        }
        return z;
    }
    let mut m: u32 = mag;
    let mut k: u32 = 0;
    proof {
        lemma2_to64();
    }
    while m < 0x80_0000
        invariant
            0 < m < 0x100_0000,
            m == mag * pow2(k as nat),
            pow2(k as nat) <= m,
            k <= 23,
        decreases 24 - k,
    {
        proof {
            lemma_pow2_unfold((k + 1) as nat);
            if k >= 23 {
                if k > 23 {
                    lemma_pow2_strictly_increases(23, k as nat);
                }
                lemma2_to64();
            }
            assert(mag * pow2((k + 1) as nat) == 2 * (mag * pow2(k as nat))) by (nonlinear_arith)
                requires
                    pow2((k + 1) as nat) == 2 * pow2(k as nat),
            ;
        }
        m = m * 2;
        k = k + 1;
    }
    let ex: u32 = (e + 150 - k as i32) as u32;
    let f: u32 = m - 0x80_0000;
    let b = s * 0x8000_0000 + ex * 0x80_0000 + f;
    proof {
        lemma_f32_fields(b, s as int, ex as int, f as int);
        if k == 0 {
            lemma2_to64();
            assert(m * pow2(0) == m);
        } else {
            assert((e as int) - (ex as int - 150) == k as int);
        }
    }
    b
}

/// `x` saturated into `u32` (`x >= 0`).
pub open spec fn sat_u32(x: int) -> u32 {
    if x > u32::MAX {
        u32::MAX
    } else {
        x as u32
    }
}

/// `floor(m · 2^k)` for `m >= 0`.
pub open spec fn floor_scaled(m: nat, k: int) -> int {
    if k >= 0 {
        (m * pow2(k as nat)) as int
    } else {
        (m / pow2((-k) as nat)) as int
    }
}

/// Integer significand of a finite binary32.
pub open spec fn f32_mag(b: u32) -> nat {
    if f32_exp(b) == 0 {
        f32_frac(b) as nat
    } else {
        (f32_frac(b) + 0x80_0000) as nat
    }
}

/// Power-of-two scale of a finite binary32.
pub open spec fn f32_scale(b: u32) -> int {
    if f32_exp(b) == 0 {
        -149
    } else {
        f32_exp(b) - 150
    }
}

/// Sign bit of a binary64 pattern.
pub open spec fn f64_sign(b: u64) -> bool {
    b >= 0x8000_0000_0000_0000
}

/// Biased exponent field of a binary64 pattern.
pub open spec fn f64_exp(b: u64) -> int {
    ((b % 0x8000_0000_0000_0000) / 0x10_0000_0000_0000) as int
}

/// Fraction field of a binary64 pattern.
pub open spec fn f64_frac(b: u64) -> int {
    (b % 0x10_0000_0000_0000) as int
}

/// Integer significand of a finite binary64.
pub open spec fn f64_mag(b: u64) -> nat {
    if f64_exp(b) == 0 {
        f64_frac(b) as nat
    } else {
        (f64_frac(b) + 0x10_0000_0000_0000) as nat
    }
}

/// Power-of-two scale of a finite binary64.
pub open spec fn f64_scale(b: u64) -> int {
    if f64_exp(b) == 0 {
        -1074
    } else {
        f64_exp(b) - 1075
    }
}

/// Rust's `f32 as u32` on the binary32 `b`: NaN and negatives give 0, the
/// rest is truncated toward zero and saturated at `u32::MAX`.
pub open spec fn f32_to_u32_sat(b: u32) -> u32 {
    if f32_exp(b) == 255 && f32_frac(b) != 0 {
        0
    } else if f32_sign(b) {
        0
    } else if f32_exp(b) == 255 {
        u32::MAX
    } else {
        sat_u32(floor_scaled(f32_mag(b), f32_scale(b)))
    }
}

/// Rust's `f64 as u32` on the binary64 `b` (same rules as [`f32_to_u32_sat`]).
pub open spec fn f64_to_u32_sat(b: u64) -> u32 {
    if f64_exp(b) == 2047 && f64_frac(b) != 0 {
        0
    } else if f64_sign(b) {
        0
    } else if f64_exp(b) == 2047 {
        u32::MAX
    } else {
        sat_u32(floor_scaled(f64_mag(b), f64_scale(b)))
    }
}

/// `2^e` for `e < 64`.
pub(crate) fn pow2_u64(e: u32) -> (p: u64)
    requires
        e < 64,
    ensures
        p == pow2(e as nat),
{
    let mut p: u64 = 1;
    let mut i: u32 = 0;
    proof {
        lemma2_to64();
    }
    while i < e
        invariant
            i <= e < 64,
            p == pow2(i as nat),
        decreases e - i,
    {
        proof {
            lemma_pow2_unfold((i + 1) as nat);
            lemma_pow2_strictly_increases((i + 1) as nat, 64);
            lemma2_to64();
        }
        p = p * 2;
        i += 1;
    }
    p
}

/// `sat_u32(floor(m · 2^k))`.
fn scaled_to_u32_sat(m: u64, k: i32) -> (r: u32)
    ensures
        r == sat_u32(floor_scaled(m as nat, k as int)),
{
    if k >= 0 {
        if m == 0 {
            proof {
                assert(0 * pow2(k as nat) == 0);
            }
            return 0;
        }
        if k >= 32 {
            proof {
                lemma2_to64();
                if k > 32 {
                    lemma_pow2_strictly_increases(32, k as nat);
                }
                assert(m * pow2(k as nat) >= pow2(k as nat)) by (nonlinear_arith)
                    requires
                        m >= 1,
                ;
            }
            return u32::MAX;
        }
        let p = pow2_u64(k as u32);
        proof {
            lemma2_to64();
            if k < 32 {
                lemma_pow2_strictly_increases(k as nat, 32);
            }
        }
        if m > 0xffff_ffff / p {
            proof {
                assert(m * p > 0xffff_ffff) by (nonlinear_arith)
                    requires
                        p > 0,
                        m > 0xffff_ffffu64 / p,
                ;
            }
            u32::MAX
        } else {
            proof {
                assert(m * p <= 0xffff_ffff) by (nonlinear_arith)
                    requires
                        p > 0,
                        m <= 0xffff_ffffu64 / p,
                ;
            }
            (m * p) as u32
        }
    } else {
        let s: i64 = -(k as i64);
        if s >= 64 {
            proof {
                lemma2_to64();
                if s > 64 {
                    lemma_pow2_strictly_increases(64, s as nat);
                }
                assert(m as nat / pow2(s as nat) == 0) by (nonlinear_arith)
                    requires
                        m < pow2(s as nat),
                ;
            }
            return 0;
        }
        let p = pow2_u64(s as u32);
        proof {
            lemma_pow2_pos(s as nat);
        }
        let v = m / p;
        if v > 0xffff_ffff {
            u32::MAX
        } else {
            v as u32
        }
    }
}

/// Rust's `f32 as u32`, computed on the bit pattern.
pub fn f32_bits_to_u32(b: u32) -> (r: u32)
    ensures
        r == f32_to_u32_sat(b),
{
    let ex = (b % 0x8000_0000) / 0x80_0000;
    let fr = b % 0x80_0000;
    if ex == 255 && fr != 0 {
        0
    } else if b >= 0x8000_0000 {
        0
    } else if ex == 255 {
        u32::MAX
    } else {
        let m: u64 = if ex == 0 {
            fr as u64
        } else {
            fr as u64 + 0x80_0000
        };
        let k: i32 = if ex == 0 {
            -149
        } else {
            ex as i32 - 150
        };
        scaled_to_u32_sat(m, k)
    }
}

/// Rust's `f64 as u32`, computed on the bit pattern.
pub fn f64_bits_to_u32(b: u64) -> (r: u32)
    ensures
        r == f64_to_u32_sat(b),
{
    let ex = (b % 0x8000_0000_0000_0000) / 0x10_0000_0000_0000;
    let fr = b % 0x10_0000_0000_0000;
    if ex == 2047 && fr != 0 {
        0
    } else if b >= 0x8000_0000_0000_0000 {
        0
    } else if ex == 2047 {
        u32::MAX
    } else {
        let m: u64 = if ex == 0 {
            fr
        } else {
            fr + 0x10_0000_0000_0000
        };
        let k: i32 = if ex == 0 {
            -1074
        } else {
            ex as i32 - 1075
        };
        scaled_to_u32_sat(m, k)
    }
}

/// How many low bits of `mag` fall below a 24-bit significand.
pub open spec fn shift24(mag: nat) -> nat
    decreases mag,
{
    if mag < 0x100_0000 {
        0
    } else {
        1 + shift24(mag / 2)
    }
}

/// `b` is `(-1)^neg · mag · 2^e` rounded to the nearest binary32, ties to even
/// (for a result in the normal range, or zero): the significand keeps the top
/// 24 bits of `mag` and goes up by one when the dropped part is more than half
/// a unit, or exactly half with the kept part odd.
pub open spec fn f32_rounds(b: u32, neg: bool, mag: nat, e: int) -> bool {
    let k = shift24(mag);
    let p = pow2(k);
    let q = mag / p;
    let rem = mag % p;
    let up = rem * 2 > p || (rem * 2 == p && q % 2 == 1);
    f32_denotes(
        b,
        neg,
        if up {
            (q + 1) as nat
        } else {
            q
        },
        e + k,
    )
}

proof fn lemma_scaled_double(a: nat, ea: int, c: nat, x: int)
    ensures
        scaled_eq(a, ea, c, x + 1) == scaled_eq(a, ea, 2 * c, x),
{
    if ea >= x + 1 {
        let n: nat = (ea - x) as nat;
        let n1: nat = (ea - (x + 1)) as nat;
        assert(n1 == (n - 1) as nat);
        lemma_pow2_unfold(n);
        let pn = pow2(n);
        let pn1 = pow2(n1);
        assert(a * pn == 2 * (a * pn1)) by (nonlinear_arith)
            requires
                pn == 2 * pn1,
        ;
    } else if ea == x {
        lemma2_to64();
        assert(a * pow2(0) == a);
        assert(c * pow2(1) == 2 * c);
    } else {
        let n: nat = (x + 1 - ea) as nat;
        let n1: nat = (x - ea) as nat;
        assert(n1 == (n - 1) as nat);
        lemma_pow2_unfold(n);
        let pn = pow2(n);
        let pn1 = pow2(n1);
        assert(c * pn == (2 * c) * pn1) by (nonlinear_arith)
            requires
                pn == 2 * pn1,
        ;
    }
}

/// The binary32 nearest to `(-1)^neg · mag · 2^e`, ties to even.
pub fn round_f32(neg: bool, mag: u64, e: i32) -> (b: u32)
    requires
        mag < 0x4_0000_0000_0000,
        -126 <= e <= 50,
    ensures
        f32_rounds(b, neg, mag as nat, e as int),
{
    let mut m: u64 = mag;
    let mut p: u64 = 1;
    let mut k: u32 = 0;
    proof {
        lemma2_to64();
        assert(mag as nat / 1 == mag);
    }
    while m >= 0x100_0000
        invariant
            mag < 0x4_0000_0000_0000,
            p == pow2(k as nat),
            p > 0,
            m == mag as nat / p as nat,
            k + shift24(m as nat) == shift24(mag as nat),
            k <= 26,
        decreases m,
    {
        proof {
            vstd::arithmetic::div_mod::lemma_fundamental_div_mod(mag as int, p as int);
            assert(p < 0x400_0000) by (nonlinear_arith)
                requires
                    mag == p * m + mag % p,
                    mag % p >= 0,
                    m >= 0x100_0000,
                    mag < 0x4_0000_0000_0000,
                    p > 0,
            ;
            lemma_pow2_unfold((k + 1) as nat);
            vstd::arithmetic::div_mod::lemma_div_denominator(mag as int, p as int, 2);
            assert(k < 26) by {
                if k >= 26 {
                    lemma2_to64();
                    if k > 26 {
                        lemma_pow2_strictly_increases(26, k as nat);
                    }
                }
            }
        }
        m = m / 2;
        p = p * 2;
        k += 1;
    }
    let rem = mag % p;
    proof {
        vstd::arithmetic::div_mod::lemma_fundamental_div_mod(mag as int, p as int);
        assert(k == shift24(mag as nat));
    }
    let up = rem * 2 > p || (rem * 2 == p && m % 2 == 1);
    if !up {
        encode_f32(neg, m as u32, e + k as i32)
    } else if m + 1 < 0x100_0000 {
        encode_f32(neg, (m + 1) as u32, e + k as i32)
    } else {
        let b = encode_f32(neg, 0x80_0000, e + k as i32 + 1);
        proof {
            let x = e + k;
            assert(0x100_0000 == 2 * 0x80_0000);
            if f32_exp(b) == 0 {
                lemma_scaled_double(f32_frac(b) as nat, -149, 0x80_0000, x);
            } else {
                lemma_scaled_double((f32_frac(b) + 0x80_0000) as nat, f32_exp(b) - 150, 0x80_0000, x);
            }
        }
        b
    }
}

/// The exact sum of `(-1)^na · ma · 2^ea` and `(-1)^nb · mb · 2^eb` as a sign,
/// a magnitude and the smaller of the two scales. Terms of opposite signs that
/// cancel give `+0`; two like-signed zeros give that zero.
pub open spec fn exact_sum(na: bool, ma: nat, ea: int, nb: bool, mb: nat, eb: int) -> (bool, nat, int) {
    let e = if ea <= eb {
        ea
    } else {
        eb
    };
    let a = ma * pow2((ea - e) as nat);
    let b = mb * pow2((eb - e) as nat);
    if na == nb {
        (na, a + b, e)
    } else if a > b {
        (na, (a - b) as nat, e)
    } else if b > a {
        (nb, (b - a) as nat, e)
    } else {
        (false, 0, e)
    }
}

/// `b` is `h · k + g` in binary32 arithmetic, for binary16 `h` and `g` and a
/// small integer `k >= 0`: the product is exact and the sum of finite terms is
/// rounded to nearest, ties to even ([`f32_rounds`]). A NaN operand, `inf · 0`
/// or `inf - inf` gives the quiet NaN `0x7fc0_0000`; otherwise an infinite
/// term gives its infinity.
pub open spec fn f16_mul_add_is(h: u16, k: nat, g: u16, b: u32) -> bool {
    let pnan = f16_exp(h) == 31 && (f16_frac(h) != 0 || k == 0);
    let pinf = f16_exp(h) == 31 && f16_frac(h) == 0 && k != 0;
    let gnan = f16_exp(g) == 31 && f16_frac(g) != 0;
    let ginf = f16_exp(g) == 31 && f16_frac(g) == 0;
    if pnan || gnan || (pinf && ginf && f16_sign(h) != f16_sign(g)) {
        b == 0x7fc0_0000u32
    } else if pinf {
        f32_is_inf(b, f16_sign(h))
    } else if ginf {
        f32_is_inf(b, f16_sign(g))
    } else {
        let t = exact_sum(
            f16_sign(h),
            f16_mag(h) * k,
            f16_scale(h),
            f16_sign(g),
            f16_mag(g),
            f16_scale(g),
        );
        f32_rounds(b, t.0, t.1, t.2)
    }
}

} // verus!
