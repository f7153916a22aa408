//! q4-in-VRAM GEMV: one workgroup per output row, the grid tiled across x/y
//! because a dispatch dimension caps at 65535; and the host-side packing of a
//! re-quantized matrix into the words the kernel reads.
//!
//! A row-major `[rows, cols]` matrix is re-quantized in blocks of 32 along
//! `cols`: each block gets one scale `d` and each value an integer level
//! `round(v / d)`. The level is stored biased by 8 and clamped to a 4-bit code,
//! eight codes per `u32`, code `n` of a word in bits `4n..4n+4`. Choosing the
//! scales and levels is floating-point work left to the caller.

use vstd::prelude::*;

use super::{div_ceil, lemma_div_ceil_covers, spec_div_ceil, Launch};

verus! {

/// Uniform `[in_f, out_f, grid_x, 0]` with `grid_x = min(out_f, 65535)` and
/// `grid_y = ceil(out_f / grid_x)`; the grid covers every output row.
pub fn gemv_launch(in_f: usize, out_f: usize) -> (l: Launch)
    requires
        out_f as u32 > 0,
    ensures
        l.groups.0 == if out_f as u32 <= 65535 { out_f as u32 } else { 65535u32 },
        l.groups.1 == spec_div_ceil((out_f as u32) as int, l.groups.0 as int),
        l.groups.2 == 1,
        l.uniform@ == seq![in_f as u32, out_f as u32, l.groups.0, 0u32],
        l.groups.0 * l.groups.1 >= out_f as u32,
        0 < l.groups.0 <= 65535,
{
    let out32 = out_f as u32;
    let grid_x = if out32 <= 65535 { out32 } else { 65535 };
    let grid_y = div_ceil(out32, grid_x);
    proof {
        lemma_div_ceil_covers(out32 as int, grid_x as int);
        assert(grid_y * grid_x == grid_x * grid_y) by (nonlinear_arith);
    }
    Launch { uniform: vec![in_f as u32, out32, grid_x, 0], groups: (grid_x, grid_y, 1) }
}

/// The 4-bit code of quantization level `l`: `clamp(l + 8, 0, 15)`.
pub open spec fn q4_code(l: int) -> int {
    if l + 8 < 0 {
        0
    } else if l + 8 > 15 {
        15
    } else {
        l + 8
    }
}

/// Nibble `m` of a packed word (what the kernel unpacks).
pub open spec fn nibble(w: u32, m: u32) -> u32 {
    (w >> (4 * m)) & 15
}

/// `clamp(level + 8, 0, 15)`.
pub fn q4_code_of(level: i32) -> (c: u32)
    ensures
        c == q4_code(level as int),
{
    let b = level as i64 + 8;
    if b < 0 {
        0
    } else if b > 15 {
        15
    } else {
        b as u32
    }
}

proof fn lemma_or_nibble(w: u32, q: u32, n: u32, m: u32)
    requires
        n < 8,
        m < 8,
        q < 16,
        w < (1u32 << (4 * n)),
    ensures
        m < n ==> nibble(w | (q << (4 * n)), m) == nibble(w, m),
        nibble(w | (q << (4 * n)), n) == q,
        n < 7 ==> (w | (q << (4 * n))) < (1u32 << (4 * (n + 1))),
{
    assert(m < n ==> (((w | (q << (4 * n))) >> (4 * m)) & 15) == ((w >> (4 * m)) & 15))
        by (bit_vector)
        requires
            n < 8,
            m < 8,
            q < 16,
            w < (1u32 << (4 * n)),
    ;
    assert((((w | (q << (4 * n))) >> (4 * n)) & 15) == q) by (bit_vector)
        requires
            n < 8,
            q < 16,
            w < (1u32 << (4 * n)),
    ;
    assert(n < 7 ==> (w | (q << (4 * n))) < (1u32 << (4 * (n + 1)))) by (bit_vector)
        requires
            n < 8,
            q < 16,
            w < (1u32 << (4 * n)),
    ;
}

/// Pack the quantization levels of a row-major `[rows, cols]` matrix: word `k`
/// holds the codes of levels `8k .. 8k+8`, level `8k+n` in nibble `n`. Word
/// `r * cols/8 + b*4 + w` is thus the `w`-th word of block `b` of row `r`.
pub fn pack_q4_0(levels: &Vec<i32>, rows: usize, cols: usize) -> (q: Vec<u32>)
    requires
        cols % 32 == 0,
        rows * cols <= levels@.len(),
    ensures
        q@.len() == rows * cols / 8,
        forall|k: int, n: u32|
            0 <= k < q@.len() && n < 8 ==> #[trigger] nibble(q@[k], n) == q4_code(
                levels@[8 * k + n] as int,
            ),
{
    let ghost lv = levels@;
    let len = levels.len();
    proof {
        assert(rows * cols <= len);
        assert(rows * cols >= 0) by (nonlinear_arith);
    }
    let nwords = rows * cols / 8;
    let mut q: Vec<u32> = Vec::new();
    let mut k: usize = 0;
    while k < nwords
        invariant
            lv == levels@,
            len == lv.len(),
            nwords * 8 <= len,
            k <= nwords,
            q@.len() == k,
            forall|k2: int, n: u32|
                0 <= k2 < k && n < 8 ==> #[trigger] nibble(q@[k2], n) == q4_code(
                    lv[8 * k2 + n] as int,
                ),
        decreases nwords - k,
    {
        let mut word: u32 = 0;
        let mut n: u32 = 0;
        proof {
            assert((1u32 << 0u32) == 1u32) by (bit_vector);
        }
        while n < 8
            invariant
                lv == levels@,
                len == lv.len(),
                nwords * 8 <= len,
                k < nwords,
                n <= 8,
                n < 8 ==> word < (1u32 << (4 * n)),
                forall|m: u32| m < n ==> #[trigger] nibble(word, m) == q4_code(lv[8 * k + m] as int),
            decreases 8 - n,
        {
            let code = q4_code_of(levels[8 * k + n as usize]);
            let ghost old_word = word;
            proof {
                lemma_or_nibble(word, code, n, n);
                assert forall|m: u32| m < n implies #[trigger] nibble(old_word | (code << (4 * n)), m)
                    == nibble(old_word, m) by {
                    lemma_or_nibble(old_word, code, n, m);
                }
            }
            word = word | (code << (4 * n));
            n += 1;
        }
        q.push(word);
        k += 1;
    }
    q
}

} // verus!
